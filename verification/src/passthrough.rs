//! What the nodes of devices that are passed through say, as they are found by
//! their paths.

use vstd::prelude::*;

use crate::board;
use crate::board::Error;
use crate::contents;
use crate::lookup;
use crate::nesting;
use crate::platform;
use crate::platform::{OfEntry, OfNode, Passthrough, PropertyAction};
use crate::script::Op;
use crate::shape;
use crate::text;

verus! {

/// The devices are told apart by their paths, and the last component of its path
/// names a device.
#[verifier::rlimit(40)]
pub proof fn lemma_known_devices()
    ensures
        ({
            let edgetpu = "/sys/bus/platform/devices/1ce00000.abrolhos-guest"@;
            let rknpu = "/sys/bus/platform/devices/fdab0000.npu-guest"@;
            &&& edgetpu != rknpu
            &&& platform::device_at(edgetpu) == Some(Passthrough::Edgetpu)
            &&& platform::device_at(rknpu) == Some(Passthrough::Rknpu)
            &&& forall|path: Seq<char>|
                path != edgetpu && path != rknpu ==> (#[trigger] platform::device_at(path)) is None
            &&& text::file_name_of(edgetpu) == Some("1ce00000.abrolhos-guest"@)
            &&& text::file_name_of(rknpu) == Some("fdab0000.npu-guest"@)
        }),
{
    reveal_strlit("/sys/bus/platform/devices/1ce00000.abrolhos-guest");
    reveal_strlit("/sys/bus/platform/devices/fdab0000.npu-guest");
    reveal_strlit("1ce00000.abrolhos-guest");
    reveal_strlit("fdab0000.npu-guest");
    reveal_strlit(".");
    reveal_strlit("..");
    let edgetpu = "/sys/bus/platform/devices/1ce00000.abrolhos-guest"@;
    let rknpu = "/sys/bus/platform/devices/fdab0000.npu-guest"@;
    assert(edgetpu.len() == 49);
    assert(rknpu.len() == 44);
    assert("1ce00000.abrolhos-guest"@.len() == 23);
    assert("fdab0000.npu-guest"@.len() == 18);
    assert("."@.len() == 1);
    assert(".."@.len() == 2);
    text::lemma_last_component(edgetpu, 26);
    text::lemma_last_component(rknpu, 26);
    assert(edgetpu.subrange(26, 49) =~= "1ce00000.abrolhos-guest"@);
    assert(rknpu.subrange(26, 44) =~= "fdab0000.npu-guest"@);
}

/// Of an Edge TPU the properties `compatible` and `reg-names` are copied, of an
/// RKNPU `interrupt-names` and `reset-names`. Others that are known are ignored.
#[verifier::rlimit(40)]
pub proof fn lemma_actions(device: Passthrough, name: Seq<char>)
    ensures
        platform::action_of(platform::copy_table(device), name) == Some(PropertyAction::PropCopy)
            <==> match device {
            Passthrough::Edgetpu => name == "compatible"@ || name == "reg-names"@,
            Passthrough::Rknpu => name == "interrupt-names"@ || name == "reset-names"@,
        },
        platform::action_of(platform::copy_table(device), name) == Some(PropertyAction::PropIgnore)
            <==> {
            ||| name == "name"@ || name == "reg"@ || name == "interrupts"@
            ||| device == Passthrough::Rknpu && (name == "compatible"@ || name == "resets"@)
        },
{
    reveal_strlit("name");
    reveal_strlit("compatible");
    reveal_strlit("reg");
    reveal_strlit("reg-names");
    reveal_strlit("interrupts");
    reveal_strlit("interrupt-names");
    reveal_strlit("resets");
    reveal_strlit("reset-names");
    assert("name"@.len() == 4);
    assert("compatible"@.len() == 10 && "compatible"@[0] == 'c');
    assert("reg"@.len() == 3);
    assert("reg-names"@.len() == 9);
    assert("interrupts"@.len() == 10 && "interrupts"@[0] == 'i');
    assert("interrupt-names"@.len() == 15);
    assert("resets"@.len() == 6);
    assert("reset-names"@.len() == 11);
    reveal_with_fuel(platform::action_of, 8);
}

/// A text that neither starts nor ends with white space is kept whole.
proof fn lemma_trimmed_word(word: Seq<char>)
    requires
        word.len() > 0,
        !text::is_white_space(word[0]),
        !text::is_white_space(word.last()),
    ensures
        text::trimmed(word) == word,
{
}

/// The copied properties, where all files that are copied were read.
spec fn copies(device: Passthrough, entries: Seq<OfEntry>) -> Seq<Op> {
    entries.filter(
        |entry: OfEntry|
            platform::action_of(platform::copy_table(device), text::trimmed(entry.name@)) == Some(
                PropertyAction::PropCopy,
            ),
    ).map_values(|entry: OfEntry| Op::Property(entry.name@, (entry.data->0)@))
}

/// A file that is copied was not read.
spec fn unread(device: Passthrough, entry: OfEntry) -> bool {
    platform::action_of(platform::copy_table(device), text::trimmed(entry.name@)) == Some(
        PropertyAction::PropCopy,
    ) && entry.data is None
}

proof fn lemma_copies(device: Passthrough, entries: Seq<OfEntry>, count: nat)
    requires
        count <= entries.len(),
    ensures
        ({
            let (ops, error) = platform::copied_entries(
                platform::copy_table(device),
                entries,
                count,
            );
            &&& error is None <==> forall|i: int|
                0 <= i < count ==> !unread(device, #[trigger] entries[i])
            &&& error is None ==> ops == copies(device, entries.take(count as int))
            &&& error is Some ==> error == Some(Error::ReadFileError)
            &&& forall|k: int|
                0 <= k < ops.len() ==> (#[trigger] ops[k]) is Property && platform::action_of(
                    platform::copy_table(device),
                    text::trimmed(ops[k]->Property_0),
                ) == Some(PropertyAction::PropCopy)
        }),
    decreases count,
{
    reveal(Seq::filter);
    let rows = platform::copy_table(device);
    if count == 0 {
        assert(entries.take(0) =~= Seq::empty());
        assert(copies(device, entries.take(0)) =~= Seq::empty());
    } else {
        let rest = (count - 1) as nat;
        lemma_copies(device, entries, rest);
        platform::lemma_entry_copied_once(device, entries[count - 1]);
        assert(entries.take(count as int).drop_last() =~= entries.take(rest as int));
        assert(entries.take(count as int).last() == entries[count - 1]);
        let (ops, error) = platform::copied_entries(rows, entries, rest);
        let (more, stop) = platform::copied_entry(rows, entries[count - 1], rows.len());
        if error is None {
            if stop is None {
                assert(ops + more =~= copies(device, entries.take(count as int)));
                assert forall|i: int| 0 <= i < count implies !unread(
                    device,
                    #[trigger] entries[i],
                ) by {
                    assert(i < rest || i == rest);
                }
            } else {
                assert(unread(device, entries[count - 1]));
            }
        }
    }
}

/// What is written as properties of a device.
spec fn written(
    sysfspath: Seq<char>,
    ranges: Seq<(u64, u64)>,
    irqs: Seq<(u32, u32)>,
    plat_device_base: u64,
    of_node: OfNode,
) -> Seq<Op> {
    let interrupts = platform::cells_if_any(
        "interrupts"@,
        platform::interrupt_cells(irqs, irqs.len()),
    );
    match (platform::device_at(sysfspath), of_node.entries) {
        (None, _) => interrupts,
        (Some(device), None) => interrupts + platform::device_properties(
            device,
            ranges,
            plat_device_base,
        ),
        (Some(device), Some(entries)) => interrupts + platform::device_properties(
            device,
            ranges,
            plat_device_base,
        ) + platform::copied_entries(
            platform::copy_table(device),
            entries@,
            entries@.len(),
        ).0,
    }
}

/// The node of a device is found by its name, whether or not an error stops the
/// work.
#[verifier::rlimit(60)]
proof fn lemma_device_steps(
    sysfspath: Seq<char>,
    ranges: Seq<(u64, u64)>,
    irqs: Seq<(u32, u32)>,
    plat_device_base: u64,
    of_node: OfNode,
    file_name: Seq<char>,
)
    requires
        text::file_name_of(sysfspath) == Some(file_name),
        of_node.is_dir,
    ensures
        ({
            let (ops, error) = platform::vfio_platform_node(
                sysfspath,
                ranges,
                irqs,
                plat_device_base,
                of_node,
            );
            let name = file_name + "@"@ + text::hex(ranges[0].0 as nat);
            lookup::at(ops, seq![name]) == seq![Op::BeginNode(name)] + written(
                sysfspath,
                ranges,
                irqs,
                plat_device_base,
                of_node,
            )
        }),
{
    let (ops, error) = platform::vfio_platform_node(
        sysfspath,
        ranges,
        irqs,
        plat_device_base,
        of_node,
    );
    let name = file_name + "@"@ + text::hex(ranges[0].0 as nat);
    let path = seq![name];
    let properties = written(sysfspath, ranges, irqs, plat_device_base, of_node);
    let begin = seq![Op::BeginNode(name)];
    let none = Seq::<Op>::empty();
    match (platform::device_at(sysfspath), of_node.entries) {
        (Some(device), Some(entries)) => {
            shape::lemma_copied_entries(
                platform::copy_table(device),
                entries@,
                entries@.len(),
            );
        },
        _ => {},
    }
    assert(nesting::all_properties(properties));
    contents::lemma_at_empty(Seq::empty());
    if error is None {
        let device = platform::device_at(sysfspath)->0;
        let clock = platform::clock_controller(device, ranges, plat_device_base);
        let whole = nesting::node(name, properties, none);
        assert(ops =~= whole + clock);
        lemma_known_devices();
        reveal_strlit("1ce00000.abrolhos-guest");
        reveal_strlit("fdab0000.npu-guest");
        reveal_strlit("clock-controller");
        assert("1ce00000.abrolhos-guest"@[0] == '1' && "1ce00000.abrolhos-guest"@.len() == 23);
        assert("fdab0000.npu-guest"@[0] == 'f' && "fdab0000.npu-guest"@.len() == 18);
        assert("clock-controller"@[0] == 'c');
        assert(name[0] == file_name[0]);
        lookup::lemma_at_leaf(name, properties, path);
        nesting::lemma_node_is_forest(name, properties, none);
        contents::lemma_at_leaf(clock, path);
        lookup::lemma_at_join(whole, clock, path);
        assert(begin + properties + none =~= begin + properties);
    } else {
        lookup::lemma_at_open(name, properties, none, path);
        assert(ops =~= begin + properties + none);
        assert(begin + properties + none =~= begin + properties);
    }
}

/// Cells `3 * i` to `3 * i + 2` are those of interrupt `i`.
proof fn lemma_interrupt_cells(irqs: Seq<(u32, u32)>, count: nat, i: int)
    requires
        count <= irqs.len(),
    ensures
        platform::interrupt_cells(irqs, count).len() == 3 * count,
        0 <= i < count ==> platform::interrupt_cells(irqs, count).subrange(3 * i, 3 * i + 3)
            == seq![0, irqs[i].0, 4],
    decreases count,
{
    if count > 0 {
        let rest = (count - 1) as nat;
        let front = platform::interrupt_cells(irqs, rest);
        let whole = platform::interrupt_cells(irqs, count);
        lemma_interrupt_cells(irqs, rest, i);
        if 0 <= i < rest {
            assert(whole.subrange(3 * i, 3 * i + 3) =~= front.subrange(3 * i, 3 * i + 3));
        } else if i == rest {
            assert(whole.subrange(3 * i, 3 * i + 3) =~= seq![0, irqs[i].0, 4]);
        }
    }
}

/// The interrupts of a device: its node holds three cells for each, in order,
/// which device ever it is, and has no such property where there are none.
#[verifier::rlimit(60)]
pub proof fn lemma_device_interrupts(
    sysfspath: Seq<char>,
    ranges: Seq<(u64, u64)>,
    irqs: Seq<(u32, u32)>,
    plat_device_base: u64,
    of_node: OfNode,
    file_name: Seq<char>,
) -> (cells: Seq<u32>)
    requires
        text::file_name_of(sysfspath) == Some(file_name),
        of_node.is_dir,
    ensures
        ({
            let (ops, error) = platform::vfio_platform_node(
                sysfspath,
                ranges,
                irqs,
                plat_device_base,
                of_node,
            );
            let path = seq![file_name + "@"@ + text::hex(ranges[0].0 as nat)];
            &&& irqs.len() > 0 ==> lookup::tells(
                ops,
                path,
                Op::PropertyArrayU32("interrupts"@, cells),
            )
            &&& irqs.len() == 0 ==> lookup::silent(ops, path, "interrupts"@)
        }),
        cells.len() == 3 * irqs.len(),
        forall|i: int|
            0 <= i < irqs.len() ==> cells.subrange(3 * i, 3 * i + 3) == seq![
                0,
                (#[trigger] irqs[i]).0,
                4,
            ],
{
    let cells = platform::interrupt_cells(irqs, irqs.len());
    let (ops, error) = platform::vfio_platform_node(
        sysfspath,
        ranges,
        irqs,
        plat_device_base,
        of_node,
    );
    let path = seq![file_name + "@"@ + text::hex(ranges[0].0 as nat)];
    let steps = lookup::at(ops, path);
    lemma_device_steps(sysfspath, ranges, irqs, plat_device_base, of_node, file_name);
    assert forall|i: int| 0 <= i < irqs.len() implies cells.subrange(3 * i, 3 * i + 3) == seq![
        0,
        (#[trigger] irqs[i]).0,
        4,
    ] by {
        lemma_interrupt_cells(irqs, irqs.len(), i);
    }
    lemma_interrupt_cells(irqs, irqs.len(), 0);
    let skip = 1 + if irqs.len() > 0 {
        1int
    } else {
        0
    };
    assert forall|k: int| skip <= k < steps.len() implies lookup::label(#[trigger] steps[k])
        != Some("interrupts"@) by {
        lemma_other_names(sysfspath, ranges, plat_device_base, of_node);
        match platform::device_at(sysfspath) {
            Some(device) => {
                let own = platform::device_properties(device, ranges, plat_device_base);
                if k - skip < own.len() {
                    assert(steps[k] == own[k - skip]);
                } else {
                    let copied = platform::copied_entries(
                        platform::copy_table(device),
                        (of_node.entries->0)@,
                        (of_node.entries->0)@.len(),
                    ).0;
                    assert(steps[k] == copied[k - skip - own.len()]);
                }
            },
            None => {},
        }
    }
    if irqs.len() > 0 {
        assert(steps[1] == Op::PropertyArrayU32("interrupts"@, cells));
    }
    cells
}

/// What else a device gets is not named like its interrupts.
proof fn lemma_other_names(
    sysfspath: Seq<char>,
    ranges: Seq<(u64, u64)>,
    plat_device_base: u64,
    of_node: OfNode,
)
    ensures
        platform::device_at(sysfspath) matches Some(device) ==> {
            let own = platform::device_properties(device, ranges, plat_device_base);
            &&& forall|k: int|
                0 <= k < own.len() ==> lookup::label(#[trigger] own[k]) != Some("interrupts"@)
            &&& of_node.entries matches Some(entries) ==> {
                let copied = platform::copied_entries(
                    platform::copy_table(device),
                    entries@,
                    entries@.len(),
                ).0;
                forall|k: int|
                    0 <= k < copied.len() ==> lookup::label(#[trigger] copied[k]) != Some(
                        "interrupts"@,
                    )
            }
        },
{
    reveal_strlit("interrupts");
    reveal_strlit("reg");
    reveal_strlit("iommus");
    reveal_strlit("samsung,iommu-group");
    reveal_strlit("memory-region");
    reveal_strlit("compatible");
    reveal_strlit("clocks");
    reveal_strlit("resets");
    reveal_strlit("reg-names");
    reveal_strlit("interrupt-names");
    reveal_strlit("reset-names");
    assert("interrupts"@.len() == 10 && "interrupts"@[0] == 'i' && "interrupts"@[9] == 's');
    assert("reg"@.len() == 3);
    assert("iommus"@.len() == 6);
    assert("samsung,iommu-group"@.len() == 19);
    assert("memory-region"@.len() == 13);
    assert("compatible"@.len() == 10 && "compatible"@[0] == 'c');
    assert("clocks"@.len() == 6);
    assert("resets"@.len() == 6);
    assert("reg-names"@.len() == 9);
    assert("interrupt-names"@.len() == 15);
    assert("reset-names"@.len() == 11);
    lemma_trimmed_word("interrupts"@);
    match platform::device_at(sysfspath) {
        Some(device) => {
            lemma_actions(device, "interrupts"@);
            match of_node.entries {
                Some(entries) => {
                    lemma_copies(device, entries@, entries@.len());
                },
                None => {},
            }
        },
        None => {},
    }
}

/// The offset and the size of each range, in order.
proof fn lemma_range_cells(
    ranges: Seq<(u64, u64)>,
    plat_device_base: u64,
    from: nat,
    to: nat,
    i: int,
)
    requires
        from <= to <= ranges.len(),
        forall|i: int| 0 <= i < ranges.len() ==> plat_device_base <= (#[trigger] ranges[i]).0,
    ensures
        ({
            let list = platform::range_cells(ranges, plat_device_base, from, to);
            &&& list.len() == 2 * (to - from)
            &&& from <= i < to ==> list[2 * (i - from)] + plat_device_base == ranges[i].0 && list[2
                * (i - from) + 1] == ranges[i].1
        }),
    decreases to,
{
    if from < to {
        lemma_range_cells(ranges, plat_device_base, from, (to - 1) as nat, i);
        assert(plat_device_base <= ranges[to - 1].0);
    }
}

/// The nodes that are written for a device that no error stops.
#[verifier::rlimit(60)]
pub proof fn lemma_device_nodes(
    sysfspath: Seq<char>,
    ranges: Seq<(u64, u64)>,
    irqs: Seq<(u32, u32)>,
    plat_device_base: u64,
    of_node: OfNode,
    device: Passthrough,
    file_name: Seq<char>,
)
    requires
        platform::vfio_platform_node(sysfspath, ranges, irqs, plat_device_base, of_node).1 is None,
        platform::device_at(sysfspath) == Some(device),
        text::file_name_of(sysfspath) == Some(file_name),
    ensures
        ({
            let ops = platform::vfio_platform_node(
                sysfspath,
                ranges,
                irqs,
                plat_device_base,
                of_node,
            ).0;
            let name = file_name + "@"@ + text::hex(ranges[0].0 as nat);
            let clock = platform::clock_controller(device, ranges, plat_device_base);
            &&& nesting::is_forest(ops)
            &&& lookup::at(ops, Seq::empty()) == seq![
                Op::BeginNode(name),
                Op::BeginNode("clock-controller"@),
            ]
            &&& lookup::at(ops, seq!["clock-controller"@]) == clock.drop_last()
        }),
{
    let ops = platform::vfio_platform_node(
        sysfspath,
        ranges,
        irqs,
        plat_device_base,
        of_node,
    ).0;
    let name = file_name + "@"@ + text::hex(ranges[0].0 as nat);
    let entries = (of_node.entries->0)@;
    let clock = platform::clock_controller(device, ranges, plat_device_base);
    let whole = ops.take(ops.len() - clock.len());
    let none = Seq::<Seq<char>>::empty();
    let path = seq!["clock-controller"@];
    shape::lemma_copied_entries(platform::copy_table(device), entries, entries.len());
    assert(ops =~= whole + clock);
    lemma_known_devices();
    reveal_strlit("1ce00000.abrolhos-guest");
    reveal_strlit("fdab0000.npu-guest");
    reveal_strlit("clock-controller");
    assert("1ce00000.abrolhos-guest"@[0] == '1' && "1ce00000.abrolhos-guest"@.len() == 23);
    assert("fdab0000.npu-guest"@[0] == 'f' && "fdab0000.npu-guest"@.len() == 18);
    assert("clock-controller"@[0] == 'c');
    assert(name[0] == file_name[0]);
    contents::lemma_at_leaf(whole, none);
    contents::lemma_at_leaf(whole, path);
    contents::lemma_at_leaf(clock, none);
    contents::lemma_at_leaf(clock, path);
    lookup::lemma_at_join(whole, clock, none);
    lookup::lemma_at_join(whole, clock, path);
    nesting::lemma_forests_join(whole, clock);
}

/// An Edge TPU: all its ranges are its own, as offsets from the start of the bus,
/// and the files `compatible` and `reg-names` are copied.
#[verifier::rlimit(60)]
pub proof fn lemma_edgetpu(
    ranges: Seq<(u64, u64)>,
    irqs: Seq<(u32, u32)>,
    plat_device_base: u64,
    of_node: OfNode,
    entries: Seq<OfEntry>,
) -> (lists: (Seq<u32>, Seq<u64>, Seq<u64>))
    requires
        of_node.is_dir,
        of_node.entries is Some,
        entries == (of_node.entries->0)@,
        forall|i: int|
            0 <= i < entries.len() && (#[trigger] entries[i]).data is None ==> text::trimmed(
                entries[i].name@,
            ) != "compatible"@ && text::trimmed(entries[i].name@) != "reg-names"@,
        ranges.len() > 0,
        forall|i: int| 0 <= i < ranges.len() ==> plat_device_base <= (#[trigger] ranges[i]).0,
    ensures
        ({
            let (ops, error) = platform::vfio_platform_node(
                "/sys/bus/platform/devices/1ce00000.abrolhos-guest"@,
                ranges,
                irqs,
                plat_device_base,
                of_node,
            );
            let (irq_cells, reg, clock_reg) = lists;
            let name = "1ce00000.abrolhos-guest"@ + "@"@ + text::hex(ranges[0].0 as nat);
            &&& error is None
            &&& nesting::is_forest(ops)
            &&& lookup::at(ops, Seq::empty()) == seq![
                Op::BeginNode(name),
                Op::BeginNode("clock-controller"@),
            ]
            &&& lookup::at(ops, seq![name]) == seq![Op::BeginNode(name)] + (if irqs.len() > 0 {
                seq![Op::PropertyArrayU32("interrupts"@, irq_cells)]
            } else {
                Seq::empty()
            }) + seq![
                Op::PropertyArrayU64("reg"@, reg),
                Op::PropertyU32("iommus"@, board::PHANDLE_EDGETPU_IOMMU),
                Op::PropertyU32("samsung,iommu-group"@, board::PHANDLE_EDGETPU_IOMMU_GROUP),
                Op::PropertyU32("memory-region"@, board::PHANDLE_EDGETPU_TPU_FW),
            ] + entries.filter(
                |entry: OfEntry|
                    text::trimmed(entry.name@) == "compatible"@ || text::trimmed(entry.name@)
                        == "reg-names"@,
            ).map_values(|entry: OfEntry| Op::Property(entry.name@, (entry.data->0)@))
            &&& lookup::at(ops, seq!["clock-controller"@]) == seq![
                Op::BeginNode("clock-controller"@),
                Op::PropertyString("compatible"@, "rockchip,rk3588-cru"@),
                Op::PropertyU32("#clock-cells"@, 0),
                Op::PropertyU32("#reset-cells"@, 1),
                Op::PropertyU32("phandle"@, board::PHANDLE_RKNPU_CLOCK),
            ] + (if ranges.len() < ranges.len() {
                seq![Op::PropertyArrayU64("reg"@, clock_reg)]
            } else {
                Seq::empty()
            })
            &&& irq_cells.len() == 3 * irqs.len()
            &&& forall|i: int|
                0 <= i < irqs.len() ==> irq_cells.subrange(3 * i, 3 * i + 3) == seq![
                    0,
                    (#[trigger] irqs[i]).0,
                    4,
                ]
            &&& reg.len() + clock_reg.len() == 2 * ranges.len()
            &&& forall|i: int|
                0 <= i < ranges.len() ==> {
                    let list = if i < ranges.len() {
                        reg
                    } else {
                        clock_reg
                    };
                    let start = if i < ranges.len() {
                        2 * i
                    } else {
                        2 * (i - ranges.len())
                    };
                    &&& start + 1 < list.len()
                    &&& list[start] + plat_device_base == (#[trigger] ranges[i]).0
                    &&& list[start + 1] == ranges[i].1
                }
        }),
{
    let sysfspath = "/sys/bus/platform/devices/1ce00000.abrolhos-guest"@;
    let device = Passthrough::Edgetpu;
    let file_name = "1ce00000.abrolhos-guest"@;
    let name = file_name + "@"@ + text::hex(ranges[0].0 as nat);
    let own = platform::own_ranges(device, ranges);
    let irq_cells = platform::interrupt_cells(irqs, irqs.len());
    let reg = platform::range_cells(ranges, plat_device_base, 0, own);
    let clock_reg = platform::range_cells(ranges, plat_device_base, own, ranges.len());
    let ops = platform::vfio_platform_node(
        sysfspath,
        ranges,
        irqs,
        plat_device_base,
        of_node,
    ).0;
    lemma_known_devices();
    lemma_copies(device, entries, entries.len());
    assert(entries.take(entries.len() as int) =~= entries);
    let wanted = |entry: OfEntry|
        text::trimmed(entry.name@) == "compatible"@ || text::trimmed(entry.name@) == "reg-names"@;
    let copied = |entry: OfEntry|
        platform::action_of(platform::copy_table(device), text::trimmed(entry.name@)) == Some(
            PropertyAction::PropCopy,
        );
    assert forall|entry: OfEntry| wanted(entry) == #[trigger] copied(entry) by {
        lemma_actions(device, text::trimmed(entry.name@));
    }
    assert(wanted =~= copied);
    assert forall|i: int| 0 <= i < entries.len() implies !unread(
        device,
        #[trigger] entries[i],
    ) by {
        lemma_actions(device, text::trimmed(entries[i].name@));
    }
    assert forall|i: int| 0 <= i < irqs.len() implies irq_cells.subrange(3 * i, 3 * i + 3)
        == seq![0, (#[trigger] irqs[i]).0, 4] by {
        lemma_interrupt_cells(irqs, irqs.len(), i);
    }
    lemma_interrupt_cells(irqs, irqs.len(), 0);
    lemma_range_cells(ranges, plat_device_base, 0, own, 0);
    lemma_range_cells(ranges, plat_device_base, own, ranges.len(), 0);
    assert forall|i: int| 0 <= i < ranges.len() implies {
        let list = if i < own {
            reg
        } else {
            clock_reg
        };
        let start = if i < own {
            2 * i
        } else {
            2 * (i - own)
        };
        &&& start + 1 < list.len()
        &&& list[start] + plat_device_base == (#[trigger] ranges[i]).0
        &&& list[start + 1] == ranges[i].1
    } by {
        lemma_range_cells(ranges, plat_device_base, 0, own, i);
        lemma_range_cells(ranges, plat_device_base, own, ranges.len(), i);
    }
    lemma_device_steps(sysfspath, ranges, irqs, plat_device_base, of_node, file_name);
    lemma_device_nodes(sysfspath, ranges, irqs, plat_device_base, of_node, device, file_name);
    (irq_cells, reg, clock_reg)
}

/// An RKNPU: its first three ranges are its own, as offsets from the start of the
/// bus, the others those of its clock controller, and the files
/// `interrupt-names` and `reset-names` are copied.
#[verifier::rlimit(60)]
pub proof fn lemma_rknpu(
    ranges: Seq<(u64, u64)>,
    irqs: Seq<(u32, u32)>,
    plat_device_base: u64,
    of_node: OfNode,
    entries: Seq<OfEntry>,
) -> (lists: (Seq<u32>, Seq<u64>, Seq<u64>))
    requires
        of_node.is_dir,
        of_node.entries is Some,
        entries == (of_node.entries->0)@,
        forall|i: int|
            0 <= i < entries.len() && (#[trigger] entries[i]).data is None ==> text::trimmed(
                entries[i].name@,
            ) != "interrupt-names"@ && text::trimmed(entries[i].name@) != "reset-names"@,
        ranges.len() > 0,
        forall|i: int| 0 <= i < ranges.len() ==> plat_device_base <= (#[trigger] ranges[i]).0,
    ensures
        ({
            let (ops, error) = platform::vfio_platform_node(
                "/sys/bus/platform/devices/fdab0000.npu-guest"@,
                ranges,
                irqs,
                plat_device_base,
                of_node,
            );
            let (irq_cells, reg, clock_reg) = lists;
            let name = "fdab0000.npu-guest"@ + "@"@ + text::hex(ranges[0].0 as nat);
            &&& error is None
            &&& nesting::is_forest(ops)
            &&& lookup::at(ops, Seq::empty()) == seq![
                Op::BeginNode(name),
                Op::BeginNode("clock-controller"@),
            ]
            &&& lookup::at(ops, seq![name]) == seq![Op::BeginNode(name)] + (if irqs.len() > 0 {
                seq![Op::PropertyArrayU32("interrupts"@, irq_cells)]
            } else {
                Seq::empty()
            }) + seq![
                Op::PropertyArrayU64("reg"@, reg),
                Op::PropertyString("compatible"@, "rockchip,rk3588-rknpu"@),
                Op::PropertyU32("iommus"@, board::PHANDLE_RKNPU_IOMMU),
                Op::PropertyU32("clocks"@, board::PHANDLE_RKNPU_FAKE_CLOCK),
                Op::PropertyArrayU32(
                    "resets"@,
                    seq![
                        board::PHANDLE_RKNPU_CLOCK,
                        486,
                        board::PHANDLE_RKNPU_CLOCK,
                        432,
                        board::PHANDLE_RKNPU_CLOCK,
                        448,
                        board::PHANDLE_RKNPU_CLOCK,
                        488,
                        board::PHANDLE_RKNPU_CLOCK,
                        434,
                        board::PHANDLE_RKNPU_CLOCK,
                        450,
                    ],
                ),
            ] + entries.filter(
                |entry: OfEntry|
                    text::trimmed(entry.name@) == "interrupt-names"@ || text::trimmed(entry.name@)
                        == "reset-names"@,
            ).map_values(|entry: OfEntry| Op::Property(entry.name@, (entry.data->0)@))
            &&& lookup::at(ops, seq!["clock-controller"@]) == seq![
                Op::BeginNode("clock-controller"@),
                Op::PropertyString("compatible"@, "rockchip,rk3588-cru"@),
                Op::PropertyU32("#clock-cells"@, 0),
                Op::PropertyU32("#reset-cells"@, 1),
                Op::PropertyU32("phandle"@, board::PHANDLE_RKNPU_CLOCK),
            ] + (if 3 < ranges.len() {
                seq![Op::PropertyArrayU64("reg"@, clock_reg)]
            } else {
                Seq::empty()
            })
            &&& irq_cells.len() == 3 * irqs.len()
            &&& forall|i: int|
                0 <= i < irqs.len() ==> irq_cells.subrange(3 * i, 3 * i + 3) == seq![
                    0,
                    (#[trigger] irqs[i]).0,
                    4,
                ]
            &&& reg.len() + clock_reg.len() == 2 * ranges.len()
            &&& forall|i: int|
                0 <= i < ranges.len() ==> {
                    let list = if i < 3 {
                        reg
                    } else {
                        clock_reg
                    };
                    let start = if i < 3 {
                        2 * i
                    } else {
                        2 * (i - 3)
                    };
                    &&& start + 1 < list.len()
                    &&& list[start] + plat_device_base == (#[trigger] ranges[i]).0
                    &&& list[start + 1] == ranges[i].1
                }
        }),
{
    let sysfspath = "/sys/bus/platform/devices/fdab0000.npu-guest"@;
    let device = Passthrough::Rknpu;
    let file_name = "fdab0000.npu-guest"@;
    let name = file_name + "@"@ + text::hex(ranges[0].0 as nat);
    let own = platform::own_ranges(device, ranges);
    let irq_cells = platform::interrupt_cells(irqs, irqs.len());
    let reg = platform::range_cells(ranges, plat_device_base, 0, own);
    let clock_reg = platform::range_cells(ranges, plat_device_base, own, ranges.len());
    let ops = platform::vfio_platform_node(
        sysfspath,
        ranges,
        irqs,
        plat_device_base,
        of_node,
    ).0;
    lemma_known_devices();
    lemma_copies(device, entries, entries.len());
    assert(entries.take(entries.len() as int) =~= entries);
    let wanted = |entry: OfEntry|
        text::trimmed(entry.name@) == "interrupt-names"@ || text::trimmed(entry.name@)
            == "reset-names"@;
    let copied = |entry: OfEntry|
        platform::action_of(platform::copy_table(device), text::trimmed(entry.name@)) == Some(
            PropertyAction::PropCopy,
        );
    assert forall|entry: OfEntry| wanted(entry) == #[trigger] copied(entry) by {
        lemma_actions(device, text::trimmed(entry.name@));
    }
    assert(wanted =~= copied);
    assert forall|i: int| 0 <= i < entries.len() implies !unread(
        device,
        #[trigger] entries[i],
    ) by {
        lemma_actions(device, text::trimmed(entries[i].name@));
    }
    assert forall|i: int| 0 <= i < irqs.len() implies irq_cells.subrange(3 * i, 3 * i + 3)
        == seq![0, (#[trigger] irqs[i]).0, 4] by {
        lemma_interrupt_cells(irqs, irqs.len(), i);
    }
    lemma_interrupt_cells(irqs, irqs.len(), 0);
    lemma_range_cells(ranges, plat_device_base, 0, own, 0);
    lemma_range_cells(ranges, plat_device_base, own, ranges.len(), 0);
    assert forall|i: int| 0 <= i < ranges.len() implies {
        let list = if i < own {
            reg
        } else {
            clock_reg
        };
        let start = if i < own {
            2 * i
        } else {
            2 * (i - own)
        };
        &&& start + 1 < list.len()
        &&& list[start] + plat_device_base == (#[trigger] ranges[i]).0
        &&& list[start + 1] == ranges[i].1
    } by {
        lemma_range_cells(ranges, plat_device_base, 0, own, i);
        lemma_range_cells(ranges, plat_device_base, own, ranges.len(), i);
    }
    lemma_device_steps(sysfspath, ranges, irqs, plat_device_base, of_node, file_name);
    lemma_device_nodes(sysfspath, ranges, irqs, plat_device_base, of_node, device, file_name);
    (irq_cells, reg, clock_reg)
}

/// Why a device cannot be described: it has no name, it is not there, it is not
/// known, its properties cannot be listed, or one that is copied cannot be read,
/// and in this order.
pub proof fn lemma_device_errors(
    sysfspath: Seq<char>,
    ranges: Seq<(u64, u64)>,
    irqs: Seq<(u32, u32)>,
    plat_device_base: u64,
    of_node: OfNode,
)
    ensures
        ({
            let error = platform::vfio_platform_node(
                sysfspath,
                ranges,
                irqs,
                plat_device_base,
                of_node,
            ).1;
            let edgetpu = sysfspath == "/sys/bus/platform/devices/1ce00000.abrolhos-guest"@;
            let rknpu = sysfspath == "/sys/bus/platform/devices/fdab0000.npu-guest"@;
            let unread = |entry: OfEntry|
                entry.data is None && {
                    let name = text::trimmed(entry.name@);
                    ||| edgetpu && (name == "compatible"@ || name == "reg-names"@)
                    ||| rknpu && (name == "interrupt-names"@ || name == "reset-names"@)
                };
            if text::file_name_of(sysfspath) is None {
                error == Some(Error::PathNotValidFormatError)
            } else if !of_node.is_dir {
                error == Some(Error::PathNotDirError)
            } else if !edgetpu && !rknpu {
                error == Some(Error::FdtGuestMemoryWriteError)
            } else if of_node.entries is None {
                error == Some(Error::ReadDirError)
            } else {
                let entries = (of_node.entries->0)@;
                if exists|i: int| 0 <= i < entries.len() && unread(#[trigger] entries[i]) {
                    error == Some(Error::ReadFileError)
                } else {
                    error is None
                }
            }
        }),
{
    lemma_known_devices();
    match (platform::device_at(sysfspath), of_node.entries) {
        (Some(device), Some(entries)) => {
            lemma_copies(device, entries@, entries@.len());
            assert forall|entry: OfEntry| #[trigger] unread(device, entry) <==> entry.data is None
                && {
                let name = text::trimmed(entry.name@);
                match device {
                    Passthrough::Edgetpu => name == "compatible"@ || name == "reg-names"@,
                    Passthrough::Rknpu => name == "interrupt-names"@ || name == "reset-names"@,
                }
            } by {
                lemma_actions(device, text::trimmed(entry.name@));
            }
        },
        _ => {},
    }
}

/// A device that is not there leaves its node open and empty; one that is not
/// known leaves it with its interrupts.
pub proof fn lemma_device_stops(
    sysfspath: Seq<char>,
    ranges: Seq<(u64, u64)>,
    irqs: Seq<(u32, u32)>,
    plat_device_base: u64,
    of_node: OfNode,
)
    ensures
        ({
            let (ops, error) = platform::vfio_platform_node(
                sysfspath,
                ranges,
                irqs,
                plat_device_base,
                of_node,
            );
            let name = (text::file_name_of(sysfspath)->0) + "@"@ + text::hex(ranges[0].0 as nat);
            &&& error == Some(Error::PathNotValidFormatError) ==> ops == Seq::<Op>::empty()
            &&& error == Some(Error::PathNotDirError) ==> ops == seq![Op::BeginNode(name)]
            &&& error is Some && error != Some(Error::PathNotValidFormatError) ==> ops.len() > 0
                && ops[0] == Op::BeginNode(name)
            &&& error == Some(Error::FdtGuestMemoryWriteError) ==> ops.len() == 1 + if irqs.len()
                > 0 {
                1int
            } else {
                0
            }
            &&& error is Some ==> forall|k: int|
                0 < k < ops.len() ==> nesting::is_property(#[trigger] ops[k])
        }),
{
    lemma_device_errors(sysfspath, ranges, irqs, plat_device_base, of_node);
    lemma_known_devices();
    lemma_interrupt_cells(irqs, irqs.len(), 0);
    match (platform::device_at(sysfspath), of_node.entries) {
        (Some(device), Some(entries)) => {
            shape::lemma_copied_entries(platform::copy_table(device), entries@, entries@.len());
        },
        _ => {},
    }
}

/// Where the properties of a device cannot be listed, or one cannot be read, what
/// is written is what is written of a device that has just those before it, up to
/// the end of its node. `before` is the number of these, and `shorter` stands for
/// such a device.
#[verifier::rlimit(60)]
pub proof fn lemma_device_error_comes_late(
    sysfspath: Seq<char>,
    ranges: Seq<(u64, u64)>,
    irqs: Seq<(u32, u32)>,
    plat_device_base: u64,
    of_node: OfNode,
    shorter: OfNode,
    before: nat,
)
    requires
        ({
            let error = platform::vfio_platform_node(
                sysfspath,
                ranges,
                irqs,
                plat_device_base,
                of_node,
            ).1;
            error == Some(Error::ReadDirError) || error == Some(Error::ReadFileError)
        }),
        platform::vfio_platform_node(sysfspath, ranges, irqs, plat_device_base, shorter).1 is None,
        of_node.entries is None ==> before == 0,
        of_node.entries matches Some(entries) ==> {
            &&& before < entries@.len()
            &&& (shorter.entries->0)@ == entries@.take(before as int)
            &&& entries@[before as int].data is None
            &&& platform::action_of(
                platform::copy_table(platform::device_at(sysfspath)->0),
                text::trimmed(entries@[before as int].name@),
            ) == Some(PropertyAction::PropCopy)
        },
        (shorter.entries->0)@.len() == before,
    ensures
        ({
            let ops = platform::vfio_platform_node(
                sysfspath,
                ranges,
                irqs,
                plat_device_base,
                of_node,
            ).0;
            let whole = platform::vfio_platform_node(
                sysfspath,
                ranges,
                irqs,
                plat_device_base,
                shorter,
            ).0;
            &&& ops.len() < whole.len()
            &&& ops == whole.take(ops.len() as int)
            &&& whole[ops.len() as int] == Op::EndNode
        }),
{
    let device = platform::device_at(sysfspath)->0;
    let rows = platform::copy_table(device);
    let some = (shorter.entries->0)@;
    match of_node.entries {
        Some(entries) => {
            lemma_copied_before(rows, entries@, some, before);
            platform::lemma_entry_copied_once(device, entries@[before as int]);
            let copied = platform::copied_entries(rows, entries@, before);
            assert(copied.0 + Seq::<Op>::empty() =~= copied.0);
            platform::lemma_entries_stop(rows, entries@, before + 1, entries@.len());
        },
        None => {},
    }
    let (ops, error) = platform::vfio_platform_node(
        sysfspath,
        ranges,
        irqs,
        plat_device_base,
        of_node,
    );
    let whole = platform::vfio_platform_node(
        sysfspath,
        ranges,
        irqs,
        plat_device_base,
        shorter,
    ).0;
    assert(ops =~= whole.take(ops.len() as int));
}

/// What is copied depends on the files so far.
proof fn lemma_copied_before(
    rows: Seq<(Seq<char>, PropertyAction)>,
    entries: Seq<OfEntry>,
    some: Seq<OfEntry>,
    count: nat,
)
    requires
        count <= some.len() <= entries.len(),
        some == entries.take(some.len() as int),
    ensures
        platform::copied_entries(rows, entries, count) == platform::copied_entries(
            rows,
            some,
            count,
        ),
    decreases count,
{
    if count > 0 {
        lemma_copied_before(rows, entries, some, (count - 1) as nat);
        assert(some[count - 1] == entries[count - 1]);
    }
}

/// The IOMMUs of the device that the platform has.
#[verifier::rlimit(40)]
pub proof fn lemma_iommus(device: Option<Passthrough>)
    ensures
        ({
            let ops = platform::iommu_nodes(device);
            let edgetpu = device == Some(Passthrough::Edgetpu);
            let rknpu = device == Some(Passthrough::Rknpu);
            &&& lookup::at(ops, Seq::empty()) == if edgetpu {
                seq![Op::BeginNode("sysmmu"@), Op::BeginNode("iommu_group_tpu"@)]
            } else if rknpu {
                seq![Op::BeginNode("iommu"@)]
            } else {
                Seq::empty()
            }
            &&& edgetpu ==> lookup::at(ops, seq!["sysmmu"@]) == seq![
                Op::BeginNode("sysmmu"@),
                Op::PropertyString("compatible"@, "samsung,sysmmu-v8"@),
                Op::PropertyArrayU64("reg"@, seq![0, 0, 0]),
                Op::PropertyU32("#iommu-cells"@, 0),
                Op::PropertyU32("phandle"@, board::PHANDLE_EDGETPU_IOMMU),
            ]
            &&& edgetpu ==> lookup::at(ops, seq!["iommu_group_tpu"@]) == seq![
                Op::BeginNode("iommu_group_tpu"@),
                Op::PropertyString("compatible"@, "samsung,sysmmu-group"@),
                Op::PropertyU32("phandle"@, board::PHANDLE_EDGETPU_IOMMU_GROUP),
            ]
            &&& rknpu ==> lookup::at(ops, seq!["iommu"@]) == seq![
                Op::BeginNode("iommu"@),
                Op::PropertyString("compatible"@, "rockchip,iommu-v2"@),
                Op::PropertyArrayU64("reg"@, seq![0, 0, 0, 0]),
                Op::PropertyU32("#iommu-cells"@, 0),
                Op::PropertyU32("phandle"@, board::PHANDLE_RKNPU_IOMMU),
            ]
        }),
{
    let ops = platform::iommu_nodes(device);
    let none = Seq::<Seq<char>>::empty();
    reveal_strlit("sysmmu");
    reveal_strlit("iommu_group_tpu");
    assert("sysmmu"@.len() == 6 && "iommu_group_tpu"@.len() == 15);
    match device {
        Some(Passthrough::Edgetpu) => {
            let first = ops.take(6);
            let second = ops.skip(6);
            assert(ops =~= first + second);
            contents::lemma_at_leaf(first, none);
            contents::lemma_at_leaf(second, none);
            lookup::lemma_at_join(first, second, none);
            contents::lemma_at_leaf(first, seq!["sysmmu"@]);
            contents::lemma_at_leaf(second, seq!["sysmmu"@]);
            lookup::lemma_at_join(first, second, seq!["sysmmu"@]);
            contents::lemma_at_leaf(first, seq!["iommu_group_tpu"@]);
            contents::lemma_at_leaf(second, seq!["iommu_group_tpu"@]);
            lookup::lemma_at_join(first, second, seq!["iommu_group_tpu"@]);
        },
        Some(Passthrough::Rknpu) => {
            contents::lemma_at_leaf(ops, none);
            contents::lemma_at_leaf(ops, seq!["iommu"@]);
        },
        None => {
            contents::lemma_at_empty(none);
        },
    }
}

/// The clock of an RKNPU.
pub proof fn lemma_fake_clock(device: Option<Passthrough>)
    ensures
        ({
            let ops = platform::fake_clock_nodes(device);
            let rknpu = device == Some(Passthrough::Rknpu);
            &&& lookup::at(ops, Seq::empty()) == if rknpu {
                seq![Op::BeginNode("fake-clock-controller"@)]
            } else {
                Seq::empty()
            }
            &&& rknpu ==> lookup::at(ops, seq!["fake-clock-controller"@]) == seq![
                Op::BeginNode("fake-clock-controller"@),
                Op::PropertyString("compatible"@, "fixed-clock"@),
                Op::PropertyU32("clock-frequency"@, 1000000000),
                Op::PropertyU32("#clock-cells"@, 0),
                Op::PropertyU32("phandle"@, board::PHANDLE_RKNPU_FAKE_CLOCK),
            ]
        }),
{
    let ops = platform::fake_clock_nodes(device);
    if device == Some(Passthrough::Rknpu) {
        contents::lemma_at_leaf(ops, Seq::empty());
        contents::lemma_at_leaf(ops, seq!["fake-clock-controller"@]);
    } else {
        contents::lemma_at_empty(Seq::empty());
    }
}

} // verus!
