//! Platform devices that are passed through to the guest.

use vstd::prelude::*;
use vstd::string::StringExecFns;

use crate::board;
use crate::board::Error;
use crate::cells;
use crate::nesting;
use crate::script::{FdtScript, Op};
use crate::text;

verus! {

/// A platform device: its sysfs path, its memory ranges as base and size, and
/// its interrupts as number and flags.
pub type PlatformInfo = (String, Vec<(u64, u64)>, Vec<(u32, u32)>);

/// What happens to a property of a device on its way to the guest.
#[derive(Debug, Clone, Copy, PartialEq, Eq, Structural)]
pub enum PropertyAction {
    PropIgnore,
    PropCopy,
}

/// A row of a table that says which properties of a device are copied.
#[derive(Debug)]
pub struct DTCopyProperty<'a> {
    pub name: &'a str,
    pub action: PropertyAction,
}

impl<'a> DTCopyProperty<'a> {
    /// A row of such a table.
    pub fn new(name: &'a str, action: PropertyAction) -> (row: Self)
        ensures
            row.name == name,
            row.action == action,
    {
        DTCopyProperty { name, action }
    }

    /// The row's name and action.
    pub open spec fn row(self) -> (Seq<char>, PropertyAction) {
        (self.name@, self.action)
    }
}

/// A property file of a device, with its contents where they were read.
#[derive(Debug)]
pub struct OfEntry {
    pub name: String,
    pub data: Option<Vec<u8>>,
}

/// What was found at the path of a device: whether it is a directory, and the
/// property files in it where they could be listed.
#[derive(Debug)]
pub struct OfNode {
    pub is_dir: bool,
    pub entries: Option<Vec<OfEntry>>,
}

/// The devices that can be passed through.
#[derive(Debug, Clone, Copy, PartialEq, Eq, Structural)]
pub enum Passthrough {
    Edgetpu,
    Rknpu,
}

/// The device that lives at `path`.
pub open spec fn device_at(path: Seq<char>) -> Option<Passthrough> {
    if path == "/sys/bus/platform/devices/1ce00000.abrolhos-guest"@ {
        Some(Passthrough::Edgetpu)
    } else if path == "/sys/bus/platform/devices/fdab0000.npu-guest"@ {
        Some(Passthrough::Rknpu)
    } else {
        None
    }
}

/// Finds the device that lives at `path`.
pub fn known_device(path: &str) -> (device: Option<Passthrough>)
    ensures
        device == device_at(path@),
{
    if text::same_text(path, "/sys/bus/platform/devices/1ce00000.abrolhos-guest") {
        Some(Passthrough::Edgetpu)
    } else if text::same_text(path, "/sys/bus/platform/devices/fdab0000.npu-guest") {
        Some(Passthrough::Rknpu)
    } else {
        None
    }
}

/// Which properties of a device are copied.
pub open spec fn copy_table(device: Passthrough) -> Seq<(Seq<char>, PropertyAction)> {
    match device {
        Passthrough::Edgetpu => seq![
            ("name"@, PropertyAction::PropIgnore),
            ("compatible"@, PropertyAction::PropCopy),
            ("reg"@, PropertyAction::PropIgnore),
            ("reg-names"@, PropertyAction::PropCopy),
            ("interrupts"@, PropertyAction::PropIgnore),
        ],
        Passthrough::Rknpu => seq![
            ("name"@, PropertyAction::PropIgnore),
            ("compatible"@, PropertyAction::PropIgnore),
            ("reg"@, PropertyAction::PropIgnore),
            ("interrupts"@, PropertyAction::PropIgnore),
            ("interrupt-names"@, PropertyAction::PropCopy),
            ("resets"@, PropertyAction::PropIgnore),
            ("reset-names"@, PropertyAction::PropCopy),
        ],
    }
}

/// The rows of a table.
pub open spec fn rows_of(table: Seq<DTCopyProperty>) -> Seq<(Seq<char>, PropertyAction)> {
    table.map_values(|property: DTCopyProperty| property.row())
}

/// The table of a device.
pub fn prop_table(device: Passthrough) -> (table: Vec<DTCopyProperty<'static>>)
    ensures
        rows_of(table@) == copy_table(device),
{
    let table = match device {
        Passthrough::Edgetpu => vec![
            DTCopyProperty::new("name", PropertyAction::PropIgnore),
            DTCopyProperty::new("compatible", PropertyAction::PropCopy),
            DTCopyProperty::new("reg", PropertyAction::PropIgnore),
            DTCopyProperty::new("reg-names", PropertyAction::PropCopy),
            DTCopyProperty::new("interrupts", PropertyAction::PropIgnore),
        ],
        Passthrough::Rknpu => vec![
            DTCopyProperty::new("name", PropertyAction::PropIgnore),
            DTCopyProperty::new("compatible", PropertyAction::PropIgnore),
            DTCopyProperty::new("reg", PropertyAction::PropIgnore),
            DTCopyProperty::new("interrupts", PropertyAction::PropIgnore),
            DTCopyProperty::new("interrupt-names", PropertyAction::PropCopy),
            DTCopyProperty::new("resets", PropertyAction::PropIgnore),
            DTCopyProperty::new("reset-names", PropertyAction::PropCopy),
        ],
    };
    assert(rows_of(table@) =~= copy_table(device));
    table
}

/// The action of the first row for a property of the given name.
pub open spec fn action_of(
    rows: Seq<(Seq<char>, PropertyAction)>,
    name: Seq<char>,
) -> Option<PropertyAction>
    decreases rows.len(),
{
    if rows.len() == 0 {
        None
    } else if rows[0].0 == name {
        Some(rows[0].1)
    } else {
        action_of(rows.skip(1), name)
    }
}

/// What happens to the property in the file `entry_name` of a device. White
/// space around the name does not count.
pub fn property_action(device: Passthrough, entry_name: &str) -> (action: Option<PropertyAction>)
    ensures
        action == action_of(copy_table(device), text::trimmed(entry_name@)),
{
    let table = prop_table(device);
    let name = text::trim(entry_name);
    let ghost rows = copy_table(device);
    assert(rows.skip(0) =~= rows);
    for i in 0..table.len()
        invariant
            rows == copy_table(device),
            rows == rows_of(table@),
            name@ == text::trimmed(entry_name@),
            action_of(rows, name@) == action_of(rows.skip(i as int), name@),
    {
        assert(rows[i as int] == table@[i as int].row());
        assert(rows.skip(i as int).skip(1) =~= rows.skip(i + 1));
        if text::same_text(name, table[i].name) {
            return Some(table[i].action);
        }
    }
    None
}

/// What the first `count` rows of a table make of a property file: the
/// properties that are written, and the error that stops the work.
pub open spec fn copied_entry(
    rows: Seq<(Seq<char>, PropertyAction)>,
    entry: OfEntry,
    count: nat,
) -> (Seq<Op>, Option<Error>)
    decreases count,
{
    if count == 0 {
        (Seq::empty(), None)
    } else {
        let (ops, error) = copied_entry(rows, entry, (count - 1) as nat);
        let (name, action) = rows[count - 1];
        if error is Some || text::trimmed(entry.name@) != name || action
            == PropertyAction::PropIgnore {
            (ops, error)
        } else {
            match entry.data {
                Some(data) => (ops.push(Op::Property(entry.name@, data@)), None),
                None => (ops, Some(Error::ReadFileError)),
            }
        }
    }
}

/// What a table makes of the first `count` property files.
pub open spec fn copied_entries(
    rows: Seq<(Seq<char>, PropertyAction)>,
    entries: Seq<OfEntry>,
    count: nat,
) -> (Seq<Op>, Option<Error>)
    decreases count,
{
    if count == 0 {
        (Seq::empty(), None)
    } else {
        let (ops, error) = copied_entries(rows, entries, (count - 1) as nat);
        if error is Some {
            (ops, error)
        } else {
            let (more, error) = copied_entry(rows, entries[count - 1], rows.len());
            (ops + more, error)
        }
    }
}

/// A property file is copied at most once, whole and under its own name, and
/// only where the table of the device says so.
#[verifier::rlimit(40)]
pub proof fn lemma_entry_copied_once(device: Passthrough, entry: OfEntry)
    ensures
        copied_entry(copy_table(device), entry, copy_table(device).len()) == if action_of(
            copy_table(device),
            text::trimmed(entry.name@),
        ) == Some(PropertyAction::PropCopy) {
            match entry.data {
                Some(data) => (seq![Op::Property(entry.name@, data@)], None::<Error>),
                None => (Seq::<Op>::empty(), Some(Error::ReadFileError)),
            }
        } else {
            (Seq::<Op>::empty(), None::<Error>)
        },
{
    reveal_strlit("name");
    reveal_strlit("compatible");
    reveal_strlit("reg");
    reveal_strlit("reg-names");
    reveal_strlit("interrupts");
    reveal_strlit("interrupt-names");
    reveal_strlit("resets");
    reveal_strlit("reset-names");
    assert("name"@.len() == 4);
    assert("compatible"@.len() == 10 && "compatible"@[0] == 'c');
    assert("reg"@.len() == 3);
    assert("reg-names"@.len() == 9);
    assert("interrupts"@.len() == 10 && "interrupts"@[0] == 'i');
    assert("interrupt-names"@.len() == 15);
    assert("resets"@.len() == 6);
    assert("reset-names"@.len() == 11);
    reveal_with_fuel(copied_entry, 8);
    reveal_with_fuel(action_of, 8);
    match entry.data {
        Some(data) => {
            assert(Seq::<Op>::empty().push(Op::Property(entry.name@, data@)) =~= seq![
                Op::Property(entry.name@, data@),
            ]);
        },
        None => {},
    }
}

/// Of the property files of a device, only those that its table copies have to
/// be read: the contents of the others do not matter.
pub proof fn lemma_only_copied_files_matter(
    device: Passthrough,
    left: Seq<OfEntry>,
    right: Seq<OfEntry>,
    count: nat,
)
    requires
        count <= left.len(),
        left.len() == right.len(),
        forall|i: int|
            #![trigger left[i]]
            0 <= i < left.len() ==> {
                &&& left[i].name@ == right[i].name@
                &&& action_of(copy_table(device), text::trimmed(left[i].name@)) == Some(
                    PropertyAction::PropCopy,
                ) ==> left[i].data == right[i].data
            },
    ensures
        copied_entries(copy_table(device), left, count) == copied_entries(
            copy_table(device),
            right,
            count,
        ),
    decreases count,
{
    if count > 0 {
        lemma_only_copied_files_matter(device, left, right, (count - 1) as nat);
        lemma_entry_copied_once(device, left[count - 1]);
        lemma_entry_copied_once(device, right[count - 1]);
    }
}

/// Writes the properties that a table copies out of one property file.
fn copy_entry(
    fdt: &mut FdtScript,
    table: &Vec<DTCopyProperty>,
    entry: &OfEntry,
) -> (result: Result<(), Error>)
    ensures
        ({
            let (ops, error) = copied_entry(rows_of(table@), *entry, table@.len());
            final(fdt)@ == old(fdt)@ + ops && board::reports(result, error)
        }),
{
    let ghost rows = rows_of(table@);
    let name = text::trim(entry.name.as_str());
    assert(fdt@ =~= old(fdt)@ + copied_entry(rows, *entry, 0).0);
    for i in 0..table.len()
        invariant
            rows == rows_of(table@),
            name@ == text::trimmed(entry.name@),
            fdt@ == old(fdt)@ + copied_entry(rows, *entry, i as nat).0,
            copied_entry(rows, *entry, i as nat).1 is None,
    {
        assert(rows[i as int] == table@[i as int].row());
        let ghost before = copied_entry(rows, *entry, i as nat);
        let ghost after = copied_entry(rows, *entry, (i + 1) as nat);
        if text::same_text(name, table[i].name) && table[i].action == PropertyAction::PropCopy {
            match &entry.data {
                Some(data) => {
                    fdt.property(entry.name.as_str(), data.as_slice());
                    assert(fdt@ =~= old(fdt)@ + after.0);
                },
                None => {
                    proof {
                        lemma_entry_stops(rows, *entry, (i + 1) as nat, rows.len());
                    }
                    return Err(Error::ReadFileError);
                },
            }
        }
    }
    Ok(())
}

/// Rows behind an error change nothing.
proof fn lemma_entry_stops(
    rows: Seq<(Seq<char>, PropertyAction)>,
    entry: OfEntry,
    count: nat,
    total: nat,
)
    requires
        count <= total,
        copied_entry(rows, entry, count).1 is Some,
    ensures
        copied_entry(rows, entry, total) == copied_entry(rows, entry, count),
    decreases total,
{
    if count < total {
        lemma_entry_stops(rows, entry, count, (total - 1) as nat);
    }
}

/// Property files behind an error change nothing.
pub proof fn lemma_entries_stop(
    rows: Seq<(Seq<char>, PropertyAction)>,
    entries: Seq<OfEntry>,
    count: nat,
    total: nat,
)
    requires
        count <= total,
        copied_entries(rows, entries, count).1 is Some,
    ensures
        copied_entries(rows, entries, total) == copied_entries(rows, entries, count),
    decreases total,
{
    if count < total {
        lemma_entries_stop(rows, entries, count, (total - 1) as nat);
    }
}

/// Writes the properties that a table copies out of all property files.
fn copy_entries(
    fdt: &mut FdtScript,
    table: &Vec<DTCopyProperty>,
    entries: &Vec<OfEntry>,
) -> (result: Result<(), Error>)
    ensures
        ({
            let (ops, error) = copied_entries(rows_of(table@), entries@, entries@.len());
            final(fdt)@ == old(fdt)@ + ops && board::reports(result, error)
        }),
{
    let ghost rows = rows_of(table@);
    assert(fdt@ =~= old(fdt)@ + copied_entries(rows, entries@, 0).0);
    for i in 0..entries.len()
        invariant
            rows == rows_of(table@),
            fdt@ == old(fdt)@ + copied_entries(rows, entries@, i as nat).0,
            copied_entries(rows, entries@, i as nat).1 is None,
    {
        let result = copy_entry(fdt, table, &entries[i]);
        let ghost after = copied_entries(rows, entries@, (i + 1) as nat);
        assert(fdt@ =~= old(fdt)@ + after.0);
        if result.is_err() {
            proof {
                lemma_entries_stop(rows, entries@, (i + 1) as nat, entries@.len());
            }
            return result;
        }
    }
    Ok(())
}

/// The cells that give the interrupts of a device, as far as the first `count`
/// of them go.
pub open spec fn interrupt_cells(irqs: Seq<(u32, u32)>, count: nat) -> Seq<u32>
    decreases count,
{
    if count == 0 {
        Seq::empty()
    } else {
        interrupt_cells(irqs, (count - 1) as nat) + seq![
            board::GIC_FDT_IRQ_TYPE_SPI,
            irqs[count - 1].0,
            board::IRQ_TYPE_LEVEL_HIGH,
        ]
    }
}

/// The cells that give the ranges from index `from` up to index `to`, as
/// offsets from `plat_device_base`.
pub open spec fn range_cells(
    ranges: Seq<(u64, u64)>,
    plat_device_base: u64,
    from: nat,
    to: nat,
) -> Seq<u64>
    decreases to,
{
    if to <= from {
        Seq::empty()
    } else {
        range_cells(ranges, plat_device_base, from, (to - 1) as nat) + seq![
            (ranges[to - 1].0 - plat_device_base) as u64,
            ranges[to - 1].1,
        ]
    }
}

/// A list of cells as a property, or nothing where the list is empty.
pub open spec fn cells_if_any(name: Seq<char>, cells: Seq<u32>) -> Seq<Op> {
    if cells.len() == 0 {
        Seq::empty()
    } else {
        seq![Op::PropertyArrayU32(name, cells)]
    }
}

/// A list of double cells as a property, or nothing where the list is empty.
pub open spec fn wide_cells_if_any(name: Seq<char>, cells: Seq<u64>) -> Seq<Op> {
    if cells.len() == 0 {
        Seq::empty()
    } else {
        seq![Op::PropertyArrayU64(name, cells)]
    }
}

/// How many of its ranges a device has for itself. The ranges behind the third
/// of an RKNPU belong to its clock controller.
pub open spec fn own_ranges(device: Passthrough, ranges: Seq<(u64, u64)>) -> nat {
    match device {
        Passthrough::Edgetpu => ranges.len(),
        Passthrough::Rknpu => if ranges.len() < 3 {
            ranges.len()
        } else {
            3
        },
    }
}

/// The properties that only depend on which device it is.
pub open spec fn specific_properties(device: Passthrough) -> Seq<Op> {
    match device {
        Passthrough::Edgetpu => seq![
            Op::PropertyU32("iommus"@, board::PHANDLE_EDGETPU_IOMMU),
            Op::PropertyU32("samsung,iommu-group"@, board::PHANDLE_EDGETPU_IOMMU_GROUP),
            Op::PropertyU32("memory-region"@, board::PHANDLE_EDGETPU_TPU_FW),
        ],
        Passthrough::Rknpu => seq![
            Op::PropertyString("compatible"@, "rockchip,rk3588-rknpu"@),
            Op::PropertyU32("iommus"@, board::PHANDLE_RKNPU_IOMMU),
            Op::PropertyU32("clocks"@, board::PHANDLE_RKNPU_FAKE_CLOCK),
            Op::PropertyArrayU32(
                "resets"@,
                seq![
                    board::PHANDLE_RKNPU_CLOCK,
                    486,
                    board::PHANDLE_RKNPU_CLOCK,
                    432,
                    board::PHANDLE_RKNPU_CLOCK,
                    448,
                    board::PHANDLE_RKNPU_CLOCK,
                    488,
                    board::PHANDLE_RKNPU_CLOCK,
                    434,
                    board::PHANDLE_RKNPU_CLOCK,
                    450,
                ],
            ),
        ],
    }
}

/// The properties that a device gets besides those that are copied.
pub open spec fn device_properties(
    device: Passthrough,
    ranges: Seq<(u64, u64)>,
    plat_device_base: u64,
) -> Seq<Op> {
    wide_cells_if_any(
        "reg"@,
        range_cells(ranges, plat_device_base, 0, own_ranges(device, ranges)),
    ) + specific_properties(device)
}

/// The clock controller that follows each device.
pub open spec fn clock_controller(
    device: Passthrough,
    ranges: Seq<(u64, u64)>,
    plat_device_base: u64,
) -> Seq<Op> {
    nesting::node(
        "clock-controller"@,
        seq![
            Op::PropertyString("compatible"@, "rockchip,rk3588-cru"@),
            Op::PropertyU32("#clock-cells"@, 0),
            Op::PropertyU32("#reset-cells"@, 1),
            Op::PropertyU32("phandle"@, board::PHANDLE_RKNPU_CLOCK),
        ] + wide_cells_if_any(
            "reg"@,
            range_cells(ranges, plat_device_base, own_ranges(device, ranges), ranges.len()),
        ),
        Seq::empty(),
    )
}

/// What is written for a device, and the error that stops the work.
pub open spec fn vfio_platform_node(
    sysfspath: Seq<char>,
    ranges: Seq<(u64, u64)>,
    irqs: Seq<(u32, u32)>,
    plat_device_base: u64,
    of_node: OfNode,
) -> (Seq<Op>, Option<Error>) {
    match text::file_name_of(sysfspath) {
        None => (Seq::empty(), Some(Error::PathNotValidFormatError)),
        Some(file_name) => {
            let name = file_name + "@"@ + text::hex(ranges[0].0 as nat);
            let begin = seq![Op::BeginNode(name)];
            let interrupts = cells_if_any("interrupts"@, interrupt_cells(irqs, irqs.len()));
            if !of_node.is_dir {
                (begin, Some(Error::PathNotDirError))
            } else {
                match (device_at(sysfspath), of_node.entries) {
                    (None, _) => (begin + interrupts, Some(Error::FdtGuestMemoryWriteError)),
                    (Some(device), None) => (
                        begin + interrupts + device_properties(device, ranges, plat_device_base),
                        Some(Error::ReadDirError),
                    ),
                    (Some(device), Some(entries)) => {
                        let own = interrupts + device_properties(device, ranges, plat_device_base);
                        let (copied, error) = copied_entries(
                            copy_table(device),
                            entries@,
                            entries@.len(),
                        );
                        if error is Some {
                            (begin + own + copied, error)
                        } else {
                            (
                                nesting::node(name, own + copied, Seq::empty()) + clock_controller(
                                    device,
                                    ranges,
                                    plat_device_base,
                                ),
                                None,
                            )
                        }
                    },
                }
            }
        },
    }
}

/// The ranges of a device can be described: there is a first one to name the
/// node after, they can be counted, and none lies below `plat_device_base`.
/// Where an error comes first, they do not matter.
pub open spec fn describable(
    sysfspath: Seq<char>,
    ranges: Seq<(u64, u64)>,
    plat_device_base: u64,
    of_node: OfNode,
) -> bool {
    text::file_name_of(sysfspath) is Some ==> {
        &&& ranges.len() > 0
        &&& of_node.is_dir && device_at(sysfspath) is Some ==> forall|i: int|
            0 <= i < ranges.len() ==> plat_device_base <= (#[trigger] ranges[i]).0
        &&& of_node.is_dir && device_at(sysfspath) == Some(Passthrough::Rknpu) ==> ranges.len()
            <= i32::MAX
    }
}

/// The cells of the interrupts of a device.
fn irq_cells(irqs: &Vec<(u32, u32)>) -> (cells: Vec<u32>)
    ensures
        cells@ == interrupt_cells(irqs@, irqs@.len()),
{
    let mut cells: Vec<u32> = Vec::new();
    for i in 0..irqs.len()
        invariant
            cells@ == interrupt_cells(irqs@, i as nat),
    {
        cells.push(board::GIC_FDT_IRQ_TYPE_SPI);
        cells.push(irqs[i].0);
        cells.push(board::IRQ_TYPE_LEVEL_HIGH);
        assert(cells@ =~= interrupt_cells(irqs@, (i + 1) as nat));
    }
    cells
}

/// The cells of the ranges of a device: its own, and those of its clock
/// controller.
fn reg_cells(device: Passthrough, ranges: &Vec<(u64, u64)>, plat_device_base: u64) -> (cells: (
    Vec<u64>,
    Vec<u64>,
))
    requires
        forall|i: int| 0 <= i < ranges.len() ==> plat_device_base <= (#[trigger] ranges[i]).0,
        device == Passthrough::Rknpu ==> ranges.len() <= i32::MAX,
    ensures
        cells.0@ == range_cells(ranges@, plat_device_base, 0, own_ranges(device, ranges@)),
        cells.1@ == range_cells(
            ranges@,
            plat_device_base,
            own_ranges(device, ranges@),
            ranges@.len(),
        ),
{
    let mut vfio_platform_reg: Vec<u64> = Vec::new();
    let mut rockchip_clock_reg: Vec<u64> = Vec::new();
    let mut counter: i32 = 0;
    let ghost own = own_ranges(device, ranges@);
    for i in 0..ranges.len()
        invariant
            own == own_ranges(device, ranges@),
            forall|k: int| 0 <= k < ranges.len() ==> plat_device_base <= (#[trigger] ranges[k]).0,
            device == Passthrough::Rknpu ==> ranges.len() <= i32::MAX,
            device == Passthrough::Rknpu ==> counter == i,
            vfio_platform_reg@ == range_cells(
                ranges@,
                plat_device_base,
                0,
                if i < own {
                    i as nat
                } else {
                    own
                },
            ),
            rockchip_clock_reg@ == range_cells(ranges@, plat_device_base, own, i as nat),
    {
        let base = ranges[i].0 - plat_device_base;
        let size = ranges[i].1;
        match device {
            Passthrough::Edgetpu => {
                vfio_platform_reg.push(base);
                vfio_platform_reg.push(size);
            },
            Passthrough::Rknpu => {
                if counter < 3 {
                    vfio_platform_reg.push(base);
                    vfio_platform_reg.push(size);
                } else {
                    rockchip_clock_reg.push(base);
                    rockchip_clock_reg.push(size);
                }
                counter += 1;
            },
        }
        assert(if i < own {
            vfio_platform_reg@ =~= range_cells(ranges@, plat_device_base, 0, (i + 1) as nat)
        } else {
            rockchip_clock_reg@ =~= range_cells(ranges@, plat_device_base, own, (i + 1) as nat)
        });
    }
    (vfio_platform_reg, rockchip_clock_reg)
}

/// Describes a device that is passed through, below the node that is open.
///
/// `of_node` is what was found at `sysfspath`. Of the property files in it,
/// only those that the table of the device copies need to have been read.
#[verifier::spinoff_prover]
#[verifier::rlimit(80)]
pub fn create_vfio_platform_node(
    fdt: &mut FdtScript,
    sysfspath: &str,
    ranges: &Vec<(u64, u64)>,
    irqs: &Vec<(u32, u32)>,
    plat_device_base: u64,
    of_node: &OfNode,
) -> (result: Result<(), Error>)
    requires
        describable(sysfspath@, ranges@, plat_device_base, *of_node),
    ensures
        ({
            let (ops, error) = vfio_platform_node(
                sysfspath@,
                ranges@,
                irqs@,
                plat_device_base,
                *of_node,
            );
            final(fdt)@ == old(fdt)@ + ops && board::reports(result, error)
        }),
{
    let ghost start = fdt@;
    let file_name = match text::file_name(sysfspath) {
        None => {
            assert(fdt@ =~= start + Seq::<Op>::empty());
            return Err(Error::PathNotValidFormatError);
        },
        Some(file_name) => file_name,
    };
    let prefix = file_name.concat("@");
    let node_name = text::hex_name(prefix.as_str(), ranges[0].0);
    let ghost begin = seq![Op::BeginNode(node_name@)];
    fdt.begin_node(node_name.as_str());
    assert(fdt@ =~= start + begin);
    if !of_node.is_dir {
        return Err(Error::PathNotDirError);
    }
    let irq = irq_cells(irqs);
    let ghost interrupts = cells_if_any("interrupts"@, irq@);
    if irq.len() > 0 {
        fdt.property_array_u32("interrupts", irq.as_slice());
    }
    assert(fdt@ =~= start + (begin + interrupts));
    let device = match known_device(sysfspath) {
        None => {
            return Err(Error::FdtGuestMemoryWriteError);
        },
        Some(device) => device,
    };
    let (vfio_platform_reg, rockchip_clock_reg) = reg_cells(device, ranges, plat_device_base);
    write_device_properties(fdt, device, &vfio_platform_reg, ranges, plat_device_base);
    let ghost own = interrupts + device_properties(device, ranges@, plat_device_base);
    assert(fdt@ =~= start + (begin + own));
    assert(begin + own =~= begin + interrupts + device_properties(
        device,
        ranges@,
        plat_device_base,
    ));
    let entries = match &of_node.entries {
        None => {
            return Err(Error::ReadDirError);
        },
        Some(entries) => entries,
    };
    let table = prop_table(device);
    let result = copy_entries(fdt, &table, entries);
    let ghost copied = copied_entries(copy_table(device), entries@, entries@.len()).0;
    assert(fdt@ =~= start + (begin + own + copied));
    if result.is_err() {
        return result;
    }
    fdt.end_node();
    let ghost whole = nesting::node(node_name@, own + copied, Seq::empty());
    assert(fdt@ =~= start + whole);
    write_clock_controller(fdt, device, &rockchip_clock_reg, ranges, plat_device_base);
    assert(fdt@ =~= start + (whole + clock_controller(device, ranges@, plat_device_base)));
    Ok(())
}

/// Writes the clock controller that follows a device.
fn write_clock_controller(
    fdt: &mut FdtScript,
    device: Passthrough,
    rockchip_clock_reg: &Vec<u64>,
    ranges: &Vec<(u64, u64)>,
    plat_device_base: u64,
)
    requires
        rockchip_clock_reg@ == range_cells(
            ranges@,
            plat_device_base,
            own_ranges(device, ranges@),
            ranges@.len(),
        ),
    ensures
        final(fdt)@ == old(fdt)@ + clock_controller(device, ranges@, plat_device_base),
{
    fdt.begin_node("clock-controller");
    fdt.property_string("compatible", "rockchip,rk3588-cru");
    fdt.property_u32("#clock-cells", 0);
    fdt.property_u32("#reset-cells", 1);
    fdt.property_u32("phandle", board::PHANDLE_RKNPU_CLOCK);
    if rockchip_clock_reg.len() > 0 {
        fdt.property_array_u64("reg", rockchip_clock_reg.as_slice());
    }
    fdt.end_node();
    assert(fdt@ =~= old(fdt)@ + clock_controller(device, ranges@, plat_device_base));
}

/// Writes the properties that a device gets besides those that are copied.
fn write_device_properties(
    fdt: &mut FdtScript,
    device: Passthrough,
    vfio_platform_reg: &Vec<u64>,
    ranges: &Vec<(u64, u64)>,
    plat_device_base: u64,
)
    requires
        vfio_platform_reg@ == range_cells(
            ranges@,
            plat_device_base,
            0,
            own_ranges(device, ranges@),
        ),
    ensures
        final(fdt)@ == old(fdt)@ + device_properties(device, ranges@, plat_device_base),
{
    if vfio_platform_reg.len() > 0 {
        fdt.property_array_u64("reg", vfio_platform_reg.as_slice());
    }
    match device {
        Passthrough::Edgetpu => {
            fdt.property_u32("iommus", board::PHANDLE_EDGETPU_IOMMU);
            fdt.property_u32("samsung,iommu-group", board::PHANDLE_EDGETPU_IOMMU_GROUP);
            fdt.property_u32("memory-region", board::PHANDLE_EDGETPU_TPU_FW);
        },
        Passthrough::Rknpu => {
            let reset: [u32; 12] = [
                board::PHANDLE_RKNPU_CLOCK,
                486,
                board::PHANDLE_RKNPU_CLOCK,
                432,
                board::PHANDLE_RKNPU_CLOCK,
                448,
                board::PHANDLE_RKNPU_CLOCK,
                488,
                board::PHANDLE_RKNPU_CLOCK,
                434,
                board::PHANDLE_RKNPU_CLOCK,
                450,
            ];
            fdt.property_string("compatible", "rockchip,rk3588-rknpu");
            fdt.property_u32("iommus", board::PHANDLE_RKNPU_IOMMU);
            fdt.property_u32("clocks", board::PHANDLE_RKNPU_FAKE_CLOCK);
            fdt.property_array_u32("resets", reset.as_slice());
        },
    }
    assert(fdt@ =~~= old(fdt)@ + device_properties(device, ranges@, plat_device_base));
}

/// What is written for the first `count` devices, and the error that stops the
/// work.
pub open spec fn vfio_platform_nodes(
    platform_info: Seq<PlatformInfo>,
    of_nodes: Seq<OfNode>,
    plat_device_base: u64,
    count: nat,
) -> (Seq<Op>, Option<Error>)
    decreases count,
{
    if count == 0 {
        (Seq::empty(), None)
    } else {
        let (ops, error) = vfio_platform_nodes(
            platform_info,
            of_nodes,
            plat_device_base,
            (count - 1) as nat,
        );
        if error is Some {
            (ops, error)
        } else {
            let info = platform_info[count - 1];
            let (more, error) = vfio_platform_node(
                info.0@,
                info.1@,
                info.2@,
                plat_device_base,
                of_nodes[count - 1],
            );
            (ops + more, error)
        }
    }
}

/// The properties of the bus that the devices are on.
pub open spec fn bus_properties(plat_device_base: u64, plat_device_size: u64) -> Seq<Op> {
    seq![
        Op::PropertyString("compatible"@, "simple-bus"@),
        Op::PropertyU32("#address-cells"@, 2),
        Op::PropertyU32("#size-cells"@, 2),
        Op::PropertyArrayU32(
            "ranges"@,
            seq![
                0,
                0,
                cells::high(plat_device_base),
                cells::low(plat_device_base),
                cells::high(plat_device_size),
                cells::low(plat_device_size),
            ],
        ),
        Op::PropertyU32("interrupt-parent"@, board::PHANDLE_GIC),
    ]
}

/// What is written for the bus with all its devices, and the error that stops
/// the work.
pub open spec fn vfio_platform_bus(
    platform_info: Seq<PlatformInfo>,
    of_nodes: Seq<OfNode>,
    plat_device_base: u64,
    plat_device_size: u64,
) -> (Seq<Op>, Option<Error>) {
    let name = "/platform@"@ + text::hex(plat_device_base as nat);
    let properties = bus_properties(plat_device_base, plat_device_size);
    let (devices, error) = vfio_platform_nodes(
        platform_info,
        of_nodes,
        plat_device_base,
        platform_info.len(),
    );
    if error is Some {
        (seq![Op::BeginNode(name)] + properties + devices, error)
    } else {
        (nesting::node(name, properties, devices), None)
    }
}

/// The ranges of all devices can be described. Devices behind an error do not
/// matter.
pub open spec fn all_describable(
    platform_info: Seq<PlatformInfo>,
    of_nodes: Seq<OfNode>,
    plat_device_base: u64,
) -> bool {
    &&& of_nodes.len() == platform_info.len()
    &&& forall|i: int|
        #![trigger platform_info[i]]
        0 <= i < platform_info.len() && vfio_platform_nodes(
            platform_info,
            of_nodes,
            plat_device_base,
            i as nat,
        ).1 is None ==> describable(
            platform_info[i].0@,
            platform_info[i].1@,
            plat_device_base,
            of_nodes[i],
        )
}

/// Devices behind an error change nothing.
pub proof fn lemma_nodes_stop(
    platform_info: Seq<PlatformInfo>,
    of_nodes: Seq<OfNode>,
    plat_device_base: u64,
    count: nat,
    total: nat,
)
    requires
        count <= total,
        vfio_platform_nodes(platform_info, of_nodes, plat_device_base, count).1 is Some,
    ensures
        vfio_platform_nodes(platform_info, of_nodes, plat_device_base, total)
            == vfio_platform_nodes(platform_info, of_nodes, plat_device_base, count),
    decreases total,
{
    if count < total {
        lemma_nodes_stop(platform_info, of_nodes, plat_device_base, count, (total - 1) as nat);
    }
}

/// Opens the bus and writes its properties.
fn begin_bus(fdt: &mut FdtScript, plat_device_base: u64, plat_device_size: u64)
    ensures
        final(fdt)@ == old(fdt)@ + (seq![
            Op::BeginNode("/platform@"@ + text::hex(plat_device_base as nat)),
        ] + bus_properties(plat_device_base, plat_device_size)),
{
    let ranges_array: [u32; 6] = [
        0,
        0,
        cells::high_cell(plat_device_base),
        cells::low_cell(plat_device_base),
        cells::high_cell(plat_device_size),
        cells::low_cell(plat_device_size),
    ];
    let platform_name = text::hex_name("/platform@", plat_device_base);
    fdt.begin_node(platform_name.as_str());
    fdt.property_string("compatible", "simple-bus");
    fdt.property_u32("#address-cells", 0x2);
    fdt.property_u32("#size-cells", 0x2);
    fdt.property_array_u32("ranges", ranges_array.as_slice());
    fdt.property_u32("interrupt-parent", board::PHANDLE_GIC);
    let ghost properties = bus_properties(plat_device_base, plat_device_size);
    assert(ranges_array@ =~= properties[3]->PropertyArrayU32_1);
    assert(fdt@ =~= old(fdt)@ + (seq![Op::BeginNode(platform_name@)] + properties));
}

/// Whether the ranges of a device can be described.
fn check_device(
    sysfspath: &str,
    ranges: &Vec<(u64, u64)>,
    plat_device_base: u64,
    of_node: &OfNode,
) -> (result: bool)
    ensures
        result == describable(sysfspath@, ranges@, plat_device_base, *of_node),
{
    if text::file_name(sysfspath).is_none() {
        return true;
    }
    if ranges.len() == 0 {
        return false;
    }
    let device = known_device(sysfspath);
    if !of_node.is_dir || device.is_none() {
        return true;
    }
    for i in 0..ranges.len()
        invariant
            forall|k: int| 0 <= k < i ==> plat_device_base <= (#[trigger] ranges[k]).0,
            text::file_name_of(sysfspath@) is Some,
            of_node.is_dir,
            device_at(sysfspath@) is Some,
    {
        if ranges[i].0 < plat_device_base {
            assert(ranges@[i as int].0 < plat_device_base);
            return false;
        }
    }
    match device {
        Some(Passthrough::Rknpu) => ranges.len() <= i32::MAX as usize,
        _ => true,
    }
}

/// Whether the ranges of all devices can be described, as
/// [`create_vfio_platform_bus`] requires.
pub fn check_devices(
    platform_info: &Vec<PlatformInfo>,
    of_nodes: &Vec<OfNode>,
    plat_device_base: u64,
) -> (result: bool)
    ensures
        result == all_describable(platform_info@, of_nodes@, plat_device_base),
{
    if of_nodes.len() != platform_info.len() {
        return false;
    }
    for i in 0..platform_info.len()
        invariant
            of_nodes.len() == platform_info.len(),
            vfio_platform_nodes(platform_info@, of_nodes@, plat_device_base, i as nat).1 is None,
            forall|k: int|
                #![trigger platform_info@[k]]
                0 <= k < i ==> describable(
                    platform_info@[k].0@,
                    platform_info@[k].1@,
                    plat_device_base,
                    of_nodes@[k],
                ),
    {
        let info = &platform_info[i];
        if !check_device(info.0.as_str(), &info.1, plat_device_base, &of_nodes[i]) {
            assert(!describable(
                platform_info@[i as int].0@,
                platform_info@[i as int].1@,
                plat_device_base,
                of_nodes@[i as int],
            ));
            return false;
        }
        let mut scratch = FdtScript::new();
        let result = create_vfio_platform_node(
            &mut scratch,
            info.0.as_str(),
            &info.1,
            &info.2,
            plat_device_base,
            &of_nodes[i],
        );
        if result.is_err() {
            assert forall|k: int|
                #![trigger platform_info@[k]]
                0 <= k < platform_info@.len() && vfio_platform_nodes(
                    platform_info@,
                    of_nodes@,
                    plat_device_base,
                    k as nat,
                ).1 is None implies describable(
                platform_info@[k].0@,
                platform_info@[k].1@,
                plat_device_base,
                of_nodes@[k],
            ) by {
                if k > i {
                    lemma_nodes_stop(
                        platform_info@,
                        of_nodes@,
                        plat_device_base,
                        (i + 1) as nat,
                        k as nat,
                    );
                }
            }
            return true;
        }
    }
    true
}

/// Describes the devices that are passed through and the bus that they are on.
///
/// `of_nodes` holds, for each device, what was found at its path.
#[verifier::spinoff_prover]
#[verifier::rlimit(80)]
pub fn create_vfio_platform_bus(
    fdt: &mut FdtScript,
    platform_info: &Vec<PlatformInfo>,
    plat_device_base: u64,
    plat_device_size: u64,
    of_nodes: &Vec<OfNode>,
) -> (result: Result<(), Error>)
    requires
        all_describable(platform_info@, of_nodes@, plat_device_base),
    ensures
        ({
            let (ops, error) = vfio_platform_bus(
                platform_info@,
                of_nodes@,
                plat_device_base,
                plat_device_size,
            );
            final(fdt)@ == old(fdt)@ + ops && board::reports(result, error)
        }),
{
    let ghost name = "/platform@"@ + text::hex(plat_device_base as nat);
    let ghost properties = bus_properties(plat_device_base, plat_device_size);
    let ghost head = old(fdt)@ + (seq![Op::BeginNode(name)] + properties);
    begin_bus(fdt, plat_device_base, plat_device_size);
    let ghost written = vfio_platform_nodes(platform_info@, of_nodes@, plat_device_base, 0).0;
    assert(fdt@ =~= head + written);
    for i in 0..platform_info.len()
        invariant
            all_describable(platform_info@, of_nodes@, plat_device_base),
            fdt@ == head + vfio_platform_nodes(
                platform_info@,
                of_nodes@,
                plat_device_base,
                i as nat,
            ).0,
            vfio_platform_nodes(platform_info@, of_nodes@, plat_device_base, i as nat).1 is None,
            head == old(fdt)@ + (seq![Op::BeginNode(name)] + properties),
            properties == bus_properties(plat_device_base, plat_device_size),
            name == "/platform@"@ + text::hex(plat_device_base as nat),
    {
        let ghost info = platform_info@[i as int];
        let ghost before = vfio_platform_nodes(
            platform_info@,
            of_nodes@,
            plat_device_base,
            i as nat,
        );
        let ghost more = vfio_platform_node(
            info.0@,
            info.1@,
            info.2@,
            plat_device_base,
            of_nodes@[i as int],
        );
        let result = create_vfio_platform_node(
            fdt,
            platform_info[i].0.as_str(),
            &platform_info[i].1,
            &platform_info[i].2,
            plat_device_base,
            &of_nodes[i],
        );
        let ghost after = vfio_platform_nodes(
            platform_info@,
            of_nodes@,
            plat_device_base,
            (i + 1) as nat,
        );
        proof {
            nesting::lemma_grouping(head, before.0, more.0);
        }
        assert(after == (before.0 + more.0, more.1));
        if result.is_err() {
            proof {
                lemma_nodes_stop(
                    platform_info@,
                    of_nodes@,
                    plat_device_base,
                    (i + 1) as nat,
                    platform_info@.len(),
                );
                nesting::lemma_grouping(
                    old(fdt)@,
                    seq![Op::BeginNode(name)] + properties,
                    after.0,
                );
            }
            return result;
        }
    }
    let ghost devices = vfio_platform_nodes(
        platform_info@,
        of_nodes@,
        plat_device_base,
        platform_info@.len(),
    ).0;
    fdt.end_node();
    assert(fdt@ =~= old(fdt)@ + nesting::node(name, properties, devices));
    Ok(())
}

/// The path that remains when each device path is taken from the one before.
pub open spec fn platform_path(platform_info: Seq<PlatformInfo>, count: nat) -> Seq<char>
    decreases count,
{
    if count == 0 {
        Seq::empty()
    } else {
        text::joined(
            platform_path(platform_info, (count - 1) as nat),
            platform_info[count - 1].0@,
        )
    }
}

/// The device that the platform is taken to have.
pub open spec fn platform_device(platform_info: Seq<PlatformInfo>) -> Option<Passthrough> {
    device_at(platform_path(platform_info, platform_info.len()))
}

/// An absolute path replaces all that came before it: where the last device has
/// one, the platform is taken to have that device.
pub proof fn lemma_last_absolute_path_wins(platform_info: Seq<PlatformInfo>)
    requires
        platform_info.len() > 0,
        platform_info.last().0@.len() > 0,
        platform_info.last().0@[0] == '/',
    ensures
        platform_device(platform_info) == device_at(platform_info.last().0@),
{
}

/// A platform without devices is taken to have none, and one with one device to
/// have that one.
pub proof fn lemma_platform_of_one(platform_info: Seq<PlatformInfo>)
    requires
        platform_info.len() <= 1,
    ensures
        platform_device(platform_info) == if platform_info.len() == 0 {
            None
        } else {
            device_at(platform_info[0].0@)
        },
{
    reveal_with_fuel(platform_path, 2);
    reveal_strlit("/sys/bus/platform/devices/1ce00000.abrolhos-guest");
    reveal_strlit("/sys/bus/platform/devices/fdab0000.npu-guest");
    assert("/sys/bus/platform/devices/1ce00000.abrolhos-guest"@.len() == 49);
    assert("/sys/bus/platform/devices/fdab0000.npu-guest"@.len() == 44);
    assert(platform_path(platform_info, 0).len() == 0);
    if platform_info.len() == 1 {
        assert(platform_path(platform_info, 1) =~= platform_info[0].0@);
    }
}

/// A path that is not absolute is taken from the paths before it.
pub proof fn lemma_relative_path_is_joined(platform_info: Seq<PlatformInfo>, last: PlatformInfo)
    requires
        last.0@.len() > 0,
        last.0@[0] != '/',
    ensures
        ({
            let before = platform_path(platform_info, platform_info.len());
            platform_device(platform_info.push(last)) == device_at(
                if before.len() == 0 || before.last() == '/' {
                    before + last.0@
                } else {
                    before + "/"@ + last.0@
                },
            )
        }),
{
    lemma_path_of_first(platform_info, last, platform_info.len());
}

proof fn lemma_path_of_first(platform_info: Seq<PlatformInfo>, last: PlatformInfo, count: nat)
    requires
        count <= platform_info.len(),
    ensures
        platform_path(platform_info.push(last), count) == platform_path(platform_info, count),
    decreases count,
{
    if count > 0 {
        lemma_path_of_first(platform_info, last, (count - 1) as nat);
    }
}

/// Finds the device that the platform is taken to have.
pub fn find_platform_device(platform_info: &Vec<PlatformInfo>) -> (device: Option<Passthrough>)
    ensures
        device == platform_device(platform_info@),
{
    let mut path = String::new();
    for i in 0..platform_info.len()
        invariant
            path@ == platform_path(platform_info@, i as nat),
    {
        path = text::join_path(path.as_str(), platform_info[i].0.as_str());
    }
    known_device(path.as_str())
}

/// The IOMMUs that the platform's device goes through.
pub open spec fn iommu_nodes(device: Option<Passthrough>) -> Seq<Op> {
    match device {
        Some(Passthrough::Edgetpu) => nesting::node(
            "sysmmu"@,
            seq![
                Op::PropertyString("compatible"@, "samsung,sysmmu-v8"@),
                Op::PropertyArrayU64("reg"@, seq![0, 0, 0]),
                Op::PropertyU32("#iommu-cells"@, 0),
                Op::PropertyU32("phandle"@, board::PHANDLE_EDGETPU_IOMMU),
            ],
            Seq::empty(),
        ) + nesting::node(
            "iommu_group_tpu"@,
            seq![
                Op::PropertyString("compatible"@, "samsung,sysmmu-group"@),
                Op::PropertyU32("phandle"@, board::PHANDLE_EDGETPU_IOMMU_GROUP),
            ],
            Seq::empty(),
        ),
        Some(Passthrough::Rknpu) => nesting::node(
            "iommu"@,
            seq![
                Op::PropertyString("compatible"@, "rockchip,iommu-v2"@),
                Op::PropertyArrayU64("reg"@, seq![0, 0, 0, 0]),
                Op::PropertyU32("#iommu-cells"@, 0),
                Op::PropertyU32("phandle"@, board::PHANDLE_RKNPU_IOMMU),
            ],
            Seq::empty(),
        ),
        None => Seq::empty(),
    }
}

/// Describes the IOMMUs that the platform's device goes through.
#[verifier::rlimit(40)]
pub fn create_iommu_node(fdt: &mut FdtScript, platform_info: &Vec<PlatformInfo>)
    ensures
        final(fdt)@ == old(fdt)@ + iommu_nodes(platform_device(platform_info@)),
{
    let device = find_platform_device(platform_info);
    match device {
        Some(Passthrough::Edgetpu) => {
            let reg: [u64; 3] = [0, 0, 0];

            fdt.begin_node("sysmmu");
            fdt.property_string("compatible", "samsung,sysmmu-v8");
            fdt.property_array_u64("reg", reg.as_slice());
            fdt.property_u32("#iommu-cells", 0);
            fdt.property_u32("phandle", board::PHANDLE_EDGETPU_IOMMU);
            fdt.end_node();

            fdt.begin_node("iommu_group_tpu");
            fdt.property_string("compatible", "samsung,sysmmu-group");
            fdt.property_u32("phandle", board::PHANDLE_EDGETPU_IOMMU_GROUP);
            fdt.end_node();
        },
        Some(Passthrough::Rknpu) => {
            let reg: [u64; 4] = [0, 0, 0, 0];

            fdt.begin_node("iommu");
            fdt.property_string("compatible", "rockchip,iommu-v2");
            fdt.property_array_u64("reg", reg.as_slice());
            fdt.property_u32("#iommu-cells", 0);
            fdt.property_u32("phandle", board::PHANDLE_RKNPU_IOMMU);
            fdt.end_node();
        },
        None => {},
    }
    assert(fdt@ =~~= old(fdt)@ + iommu_nodes(device));
}

/// The clock that stands in for the one of an RKNPU.
pub open spec fn fake_clock_nodes(device: Option<Passthrough>) -> Seq<Op> {
    match device {
        Some(Passthrough::Rknpu) => nesting::node(
            "fake-clock-controller"@,
            seq![
                Op::PropertyString("compatible"@, "fixed-clock"@),
                Op::PropertyU32("clock-frequency"@, 1000000000),
                Op::PropertyU32("#clock-cells"@, 0),
                Op::PropertyU32("phandle"@, board::PHANDLE_RKNPU_FAKE_CLOCK),
            ],
            Seq::empty(),
        ),
        _ => Seq::empty(),
    }
}

/// Describes the clock that stands in for the one of an RKNPU.
pub fn create_fake_clock_node(fdt: &mut FdtScript, platform_info: &Vec<PlatformInfo>)
    ensures
        final(fdt)@ == old(fdt)@ + fake_clock_nodes(platform_device(platform_info@)),
{
    let device = find_platform_device(platform_info);
    match device {
        Some(Passthrough::Rknpu) => {
            fdt.begin_node("fake-clock-controller");
            fdt.property_string("compatible", "fixed-clock");
            fdt.property_u32("clock-frequency", 1000000000);
            fdt.property_u32("#clock-cells", 0);
            fdt.property_u32("phandle", board::PHANDLE_RKNPU_FAKE_CLOCK);
            fdt.end_node();
        },
        _ => {},
    }
    assert(fdt@ =~= old(fdt)@ + fake_clock_nodes(device));
}

} // verus!
