//! What the whole tree says: which nodes it has, and that each holds what the
//! guest was given.

use vstd::prelude::*;

use crate::board;
use crate::board::Error;
use crate::cells;
use crate::chosen;
use crate::contents;
use crate::cpu;
use crate::interrupts;
use crate::lookup;
use crate::memory;
use crate::nesting;
use crate::passthrough;
use crate::pci;
use crate::peripherals;
use crate::platform;
use crate::platform::{OfNode, Passthrough, PlatformInfo};
use crate::psci;
use crate::script::Op;
use crate::shape;
use crate::text;
use crate::tree;
use crate::tree::Guest;

verus! {

/// The name of the node of a device.
spec fn device_name(info: PlatformInfo) -> Seq<char> {
    (text::file_name_of(info.0@)->0) + "@"@ + text::hex(info.1@[0].0 as nat)
}

/// What is written for one device.
spec fn device_part(
    platform_info: Seq<PlatformInfo>,
    of_nodes: Seq<OfNode>,
    plat_device_base: u64,
    i: int,
) -> (Seq<Op>, Option<Error>) {
    let info = platform_info[i];
    platform::vfio_platform_node(info.0@, info.1@, info.2@, plat_device_base, of_nodes[i])
}

/// The error that stops the work at the bus is that of the first device that
/// cannot be described.
pub proof fn lemma_first_error(
    platform_info: Seq<PlatformInfo>,
    of_nodes: Seq<OfNode>,
    plat_device_base: u64,
    plat_device_size: u64,
    first: nat,
)
    requires
        first <= platform_info.len(),
        forall|i: int|
            0 <= i < first ==> platform::vfio_platform_node(
                (#[trigger] platform_info[i]).0@,
                platform_info[i].1@,
                platform_info[i].2@,
                plat_device_base,
                of_nodes[i],
            ).1 is None,
        first < platform_info.len() ==> platform::vfio_platform_node(
            platform_info[first as int].0@,
            platform_info[first as int].1@,
            platform_info[first as int].2@,
            plat_device_base,
            of_nodes[first as int],
        ).1 is Some,
    ensures
        platform::vfio_platform_bus(
            platform_info,
            of_nodes,
            plat_device_base,
            plat_device_size,
        ).1 == if first == platform_info.len() {
            None
        } else {
            platform::vfio_platform_node(
                platform_info[first as int].0@,
                platform_info[first as int].1@,
                platform_info[first as int].2@,
                plat_device_base,
                of_nodes[first as int],
            ).1
        },
{
    lemma_none_before(platform_info, of_nodes, plat_device_base, first);
    if first < platform_info.len() {
        platform::lemma_nodes_stop(
            platform_info,
            of_nodes,
            plat_device_base,
            first + 1,
            platform_info.len(),
        );
    }
}

proof fn lemma_none_before(
    platform_info: Seq<PlatformInfo>,
    of_nodes: Seq<OfNode>,
    plat_device_base: u64,
    count: nat,
)
    requires
        count <= platform_info.len(),
        forall|i: int|
            0 <= i < count ==> platform::vfio_platform_node(
                (#[trigger] platform_info[i]).0@,
                platform_info[i].1@,
                platform_info[i].2@,
                plat_device_base,
                of_nodes[i],
            ).1 is None,
    ensures
        platform::vfio_platform_nodes(platform_info, of_nodes, plat_device_base, count).1 is None,
    decreases count,
{
    if count > 0 {
        lemma_none_before(platform_info, of_nodes, plat_device_base, (count - 1) as nat);
        assert(platform_info[count - 1] == platform_info[count - 1]);
    }
}

/// A device that no error stops writes two nodes: its own, and its clock
/// controller.
proof fn lemma_device_tops(
    platform_info: Seq<PlatformInfo>,
    of_nodes: Seq<OfNode>,
    plat_device_base: u64,
    i: int,
)
    requires
        device_part(platform_info, of_nodes, plat_device_base, i).1 is None,
    ensures
        ({
            let ops = device_part(platform_info, of_nodes, plat_device_base, i).0;
            &&& nesting::is_forest(ops)
            &&& lookup::at(ops, Seq::empty()) == seq![
                Op::BeginNode(device_name(platform_info[i])),
                Op::BeginNode("clock-controller"@),
            ]
        }),
{
    let info = platform_info[i];
    passthrough::lemma_device_errors(
        info.0@,
        info.1@,
        info.2@,
        plat_device_base,
        of_nodes[i],
    );
    passthrough::lemma_known_devices();
    passthrough::lemma_device_nodes(
        info.0@,
        info.1@,
        info.2@,
        plat_device_base,
        of_nodes[i],
        platform::device_at(info.0@)->0,
        text::file_name_of(info.0@)->0,
    );
}

/// The nodes of the devices, in a row.
proof fn lemma_devices_tops(
    platform_info: Seq<PlatformInfo>,
    of_nodes: Seq<OfNode>,
    plat_device_base: u64,
    count: nat,
)
    requires
        count <= platform_info.len(),
        platform::vfio_platform_nodes(platform_info, of_nodes, plat_device_base, count).1 is None,
    ensures
        ({
            let ops = platform::vfio_platform_nodes(
                platform_info,
                of_nodes,
                plat_device_base,
                count,
            ).0;
            &&& nesting::is_forest(ops)
            &&& lookup::at(ops, Seq::empty()) == Seq::new(
                2 * count,
                |k: int|
                    if k % 2 == 0 {
                        Op::BeginNode(device_name(platform_info[k / 2]))
                    } else {
                        Op::BeginNode("clock-controller"@)
                    },
            )
        }),
    decreases count,
{
    let names = |k: int|
        if k % 2 == 0 {
            Op::BeginNode(device_name(platform_info[k / 2]))
        } else {
            Op::BeginNode("clock-controller"@)
        };
    if count == 0 {
        contents::lemma_at_empty(Seq::empty());
        assert(Seq::new(0, names) =~= Seq::<Op>::empty());
    } else {
        let rest = (count - 1) as nat;
        let front = platform::vfio_platform_nodes(
            platform_info,
            of_nodes,
            plat_device_base,
            rest,
        ).0;
        let last = device_part(platform_info, of_nodes, plat_device_base, count - 1).0;
        lemma_devices_tops(platform_info, of_nodes, plat_device_base, rest);
        lemma_device_tops(platform_info, of_nodes, plat_device_base, count - 1);
        nesting::lemma_forests_join(front, last);
        lookup::lemma_at_join(front, last, Seq::empty());
        assert(lookup::at(front + last, Seq::empty()) =~= Seq::new(2 * count, names));
    }
}

/// The bus of the devices that are passed through: it maps its addresses to
/// those of the guest, from the base, over the size, and has for each device the
/// node of the device and that of a clock controller.
#[verifier::rlimit(40)]
pub proof fn lemma_bus(
    platform_info: Seq<PlatformInfo>,
    of_nodes: Seq<OfNode>,
    plat_device_base: u64,
    plat_device_size: u64,
) -> (ranges: Seq<u32>)
    requires
        platform::vfio_platform_bus(
            platform_info,
            of_nodes,
            plat_device_base,
            plat_device_size,
        ).1 is None,
    ensures
        ({
            let ops = platform::vfio_platform_bus(
                platform_info,
                of_nodes,
                plat_device_base,
                plat_device_size,
            ).0;
            let name = "/platform@"@ + text::hex(plat_device_base as nat);
            &&& nesting::is_forest(ops)
            &&& lookup::at(ops, Seq::empty()) == seq![Op::BeginNode(name)]
            &&& lookup::at(ops, seq![name]) == seq![
                Op::BeginNode(name),
                Op::PropertyString("compatible"@, "simple-bus"@),
                Op::PropertyU32("#address-cells"@, 2),
                Op::PropertyU32("#size-cells"@, 2),
                Op::PropertyArrayU32("ranges"@, ranges),
                Op::PropertyU32("interrupt-parent"@, board::PHANDLE_GIC),
            ] + Seq::new(
                2 * platform_info.len(),
                |k: int|
                    if k % 2 == 0 {
                        Op::BeginNode(
                            (text::file_name_of(platform_info[k / 2].0@)->0) + "@"@ + text::hex(
                                platform_info[k / 2].1@[0].0 as nat,
                            ),
                        )
                    } else {
                        Op::BeginNode("clock-controller"@)
                    },
            )
        }),
        ranges.len() == 6,
        ranges[0] == 0 && ranges[1] == 0,
        ranges[2] * 0x1_0000_0000 + ranges[3] == plat_device_base,
        ranges[4] * 0x1_0000_0000 + ranges[5] == plat_device_size,
{
    let name = "/platform@"@ + text::hex(plat_device_base as nat);
    let properties = platform::bus_properties(plat_device_base, plat_device_size);
    let count = platform_info.len();
    let none = Seq::<Seq<char>>::empty();
    let devices = platform::vfio_platform_nodes(
        platform_info,
        of_nodes,
        plat_device_base,
        count,
    ).0;
    lemma_devices_tops(platform_info, of_nodes, plat_device_base, count);
    nesting::lemma_node_is_forest(name, properties, devices);
    lookup::lemma_at_node(name, properties, devices, none);
    lookup::lemma_at_node(name, properties, devices, seq![name]);
    cells::lemma_halves(plat_device_base);
    cells::lemma_halves(plat_device_size);
    assert(lookup::at(devices, none) =~= Seq::new(
        2 * count,
        |k: int|
            if k % 2 == 0 {
                Op::BeginNode(
                    (text::file_name_of(platform_info[k / 2].0@)->0) + "@"@ + text::hex(
                        platform_info[k / 2].1@[0].0 as nat,
                    ),
                )
            } else {
                Op::BeginNode("clock-controller"@)
            },
    ));
    properties[3]->PropertyArrayU32_1
}

/// What is found of a device is found below the bus, as long as no other device
/// has the same name.
proof fn lemma_devices_below(
    platform_info: Seq<PlatformInfo>,
    of_nodes: Seq<OfNode>,
    plat_device_base: u64,
    count: nat,
    i: int,
    path: Seq<Seq<char>>,
)
    requires
        count <= platform_info.len(),
        platform::vfio_platform_nodes(platform_info, of_nodes, plat_device_base, count).1 is None,
        path.len() > 0,
        path[0] != "clock-controller"@ || platform_info.len() == 1,
        0 <= i < platform_info.len(),
        forall|j: int|
            0 <= j < platform_info.len() && j != i ==> device_name(#[trigger] platform_info[j])
                != path[0],
    ensures
        lookup::at(
            platform::vfio_platform_nodes(platform_info, of_nodes, plat_device_base, count).0,
            path,
        ) == if i < count {
            lookup::at(device_part(platform_info, of_nodes, plat_device_base, i).0, path)
        } else {
            Seq::empty()
        },
    decreases count,
{
    if count == 0 {
        contents::lemma_at_empty(path);
    } else {
        let rest = (count - 1) as nat;
        let front = platform::vfio_platform_nodes(
            platform_info,
            of_nodes,
            plat_device_base,
            rest,
        ).0;
        let last = device_part(platform_info, of_nodes, plat_device_base, count - 1).0;
        lemma_devices_below(platform_info, of_nodes, plat_device_base, rest, i, path);
        lemma_devices_tops(platform_info, of_nodes, plat_device_base, rest);
        lemma_device_tops(platform_info, of_nodes, plat_device_base, count - 1);
        lookup::lemma_at_join(front, last, path);
        if i != count - 1 {
            assert(device_name(platform_info[count - 1]) != path[0]);
            lookup::lemma_at_elsewhere(last, path);
        }
        assert(lookup::at(front + last, path) =~= if i < count {
            lookup::at(device_part(platform_info, of_nodes, plat_device_base, i).0, path)
        } else {
            Seq::empty()
        });
    }
}

/// A device is found below the bus by its name, as long as no other device has
/// the same, and a clock controller where there is one device.
pub proof fn lemma_bus_device(
    platform_info: Seq<PlatformInfo>,
    of_nodes: Seq<OfNode>,
    plat_device_base: u64,
    plat_device_size: u64,
    i: int,
    path: Seq<Seq<char>>,
)
    requires
        platform::vfio_platform_bus(
            platform_info,
            of_nodes,
            plat_device_base,
            plat_device_size,
        ).1 is None,
        path.len() > 0,
        path[0] != "clock-controller"@ || platform_info.len() == 1,
        0 <= i < platform_info.len(),
        forall|j: int|
            0 <= j < platform_info.len() && j != i ==> path[0] != (text::file_name_of(
                (#[trigger] platform_info[j]).0@,
            )->0) + "@"@ + text::hex(platform_info[j].1@[0].0 as nat),
    ensures
        lookup::at(
            platform::vfio_platform_bus(
                platform_info,
                of_nodes,
                plat_device_base,
                plat_device_size,
            ).0,
            seq!["/platform@"@ + text::hex(plat_device_base as nat)] + path,
        ) == lookup::at(
            platform::vfio_platform_node(
                platform_info[i].0@,
                platform_info[i].1@,
                platform_info[i].2@,
                plat_device_base,
                of_nodes[i],
            ).0,
            path,
        ),
{
    let name = "/platform@"@ + text::hex(plat_device_base as nat);
    let properties = platform::bus_properties(plat_device_base, plat_device_size);
    let count = platform_info.len();
    let devices = platform::vfio_platform_nodes(
        platform_info,
        of_nodes,
        plat_device_base,
        count,
    ).0;
    let whole = seq![name] + path;
    assert forall|j: int| 0 <= j < platform_info.len() && j != i implies device_name(
        #[trigger] platform_info[j],
    ) != path[0] by {}
    lemma_devices_tops(platform_info, of_nodes, plat_device_base, count);
    lemma_devices_below(platform_info, of_nodes, plat_device_base, count, i, path);
    lookup::lemma_at_node(name, properties, devices, whole);
    assert(whole.skip(1) =~= path);
}

/// The parts of the tree, in order.
#[verifier::opaque]
spec fn parts(guest: Guest) -> Seq<Seq<Op>> {
    seq![
        chosen::chosen_node(guest.layout, guest.cmdline, guest.seeds, guest.initrd).0,
        memory::memory_node(guest.layout, guest.mem_size, guest.second_vm),
        memory::resv_memory_node(
            guest.layout,
            guest.swiotlb,
            guest.page_size,
            platform::platform_device(guest.platform_info),
            guest.second_vm,
        ),
        cpu::cpus_node(guest.num_cpus, guest.cpu_clusters, guest.cpu_capacity),
        interrupts::gic_node(guest.layout, guest.is_gicv3, guest.num_cpus as u64),
        interrupts::timer_node(guest.num_cpus),
        tree::pmu_nodes(guest),
        peripherals::serial_nodes(guest.layout),
        psci::psci_node(guest.psci_version),
        pci::pci_node(
            guest.pci_irqs,
            guest.pci_cfg,
            guest.pci_ranges,
            memory::dma_pool_phandle(guest.swiotlb),
        ),
        peripherals::rtc_nodes(guest.layout),
        platform::vfio_platform_bus(
            guest.platform_info,
            guest.of_nodes,
            guest.plat_device_base,
            guest.plat_device_size,
        ).0,
        platform::iommu_nodes(platform::platform_device(guest.platform_info)),
        platform::fake_clock_nodes(platform::platform_device(guest.platform_info)),
    ]
}

/// Which part of the tree a node below the root belongs to.
#[verifier::opaque]
spec fn group(name: Seq<char>) -> int {
    if name == "chosen"@ {
        0
    } else if name == "memory"@ {
        1
    } else if name == "reserved-memory"@ {
        2
    } else if name == "cpus"@ {
        3
    } else if name == "intc"@ {
        4
    } else if name == "timer"@ {
        5
    } else if name == "pmu"@ {
        6
    } else if name.len() > 0 && name[0] == 'U' {
        7
    } else if name == "psci"@ {
        8
    } else if name == "pci"@ {
        9
    } else if name == "pclk@3M"@ || (name.len() > 1 && name[0] == 'r' && name[1] == 't') {
        10
    } else if name.len() > 0 && name[0] == '/' {
        11
    } else if name == "sysmmu"@ || name == "iommu_group_tpu"@ || name == "iommu"@ {
        12
    } else if name == "fake-clock-controller"@ {
        13
    } else {
        14
    }
}

/// Which part each name belongs to.
proof fn lemma_groups()
    ensures
        group("chosen"@) == 0,
        group("memory"@) == 1,
        group("reserved-memory"@) == 2,
        group("cpus"@) == 3,
        group("intc"@) == 4,
        group("timer"@) == 5,
        group("pmu"@) == 6,
        forall|rest: Seq<char>| #[trigger] group("U6_16550A@"@ + rest) == 7,
        group("psci"@) == 8,
        group("pci"@) == 9,
        group("pclk@3M"@) == 10,
        forall|rest: Seq<char>| #[trigger] group("rtc@"@ + rest) == 10,
        forall|rest: Seq<char>| #[trigger] group("/platform@"@ + rest) == 11,
        group("sysmmu"@) == 12,
        group("iommu_group_tpu"@) == 12,
        group("iommu"@) == 12,
        group("fake-clock-controller"@) == 13,
{
    reveal(group);
    reveal_strlit("chosen");
    reveal_strlit("memory");
    reveal_strlit("reserved-memory");
    reveal_strlit("cpus");
    reveal_strlit("intc");
    reveal_strlit("timer");
    reveal_strlit("pmu");
    reveal_strlit("U6_16550A@");
    reveal_strlit("psci");
    reveal_strlit("pci");
    reveal_strlit("pclk@3M");
    reveal_strlit("rtc@");
    reveal_strlit("/platform@");
    reveal_strlit("sysmmu");
    reveal_strlit("iommu_group_tpu");
    reveal_strlit("iommu");
    reveal_strlit("fake-clock-controller");
    assert("chosen"@.len() == 6 && "chosen"@[0] == 'c' && "chosen"@[1] == 'h');
    assert("memory"@.len() == 6 && "memory"@[0] == 'm');
    assert("reserved-memory"@.len() == 15 && "reserved-memory"@[0] == 'r'
        && "reserved-memory"@[1] == 'e');
    assert("cpus"@.len() == 4 && "cpus"@[0] == 'c' && "cpus"@[1] == 'p');
    assert("intc"@.len() == 4 && "intc"@[0] == 'i' && "intc"@[1] == 'n');
    assert("timer"@.len() == 5 && "timer"@[0] == 't');
    assert("pmu"@.len() == 3 && "pmu"@[0] == 'p' && "pmu"@[1] == 'm');
    assert("U6_16550A@"@.len() == 10 && "U6_16550A@"@[0] == 'U');
    assert("psci"@.len() == 4 && "psci"@[0] == 'p' && "psci"@[1] == 's');
    assert("pci"@.len() == 3 && "pci"@[0] == 'p' && "pci"@[1] == 'c');
    assert("pclk@3M"@.len() == 7 && "pclk@3M"@[0] == 'p' && "pclk@3M"@[1] == 'c');
    assert("rtc@"@.len() == 4 && "rtc@"@[0] == 'r' && "rtc@"@[1] == 't');
    assert("/platform@"@.len() == 10 && "/platform@"@[0] == '/');
    assert("sysmmu"@.len() == 6 && "sysmmu"@[0] == 's');
    assert("iommu_group_tpu"@.len() == 15 && "iommu_group_tpu"@[0] == 'i');
    assert("iommu"@.len() == 5 && "iommu"@[0] == 'i' && "iommu"@[1] == 'o');
    assert("fake-clock-controller"@.len() == 21 && "fake-clock-controller"@[0] == 'f');
    assert forall|rest: Seq<char>| #[trigger] group("U6_16550A@"@ + rest) == 7 by {
        assert(("U6_16550A@"@ + rest)[0] == 'U');
    }
    assert forall|rest: Seq<char>| #[trigger] group("rtc@"@ + rest) == 10 by {
        assert(("rtc@"@ + rest)[0] == 'r');
        assert(("rtc@"@ + rest)[1] == 't');
    }
    assert forall|rest: Seq<char>| #[trigger] group("/platform@"@ + rest) == 11 by {
        assert(("/platform@"@ + rest)[0] == '/');
    }
}

/// The nodes at the top of a part.
#[verifier::opaque]
spec fn tops(guest: Guest, part: int) -> Seq<Op> {
    let device = platform::platform_device(guest.platform_info);
    if part == 0 {
        seq![Op::BeginNode("chosen"@)]
    } else if part == 1 {
        seq![Op::BeginNode("memory"@)]
    } else if part == 2 {
        seq![Op::BeginNode("reserved-memory"@)]
    } else if part == 3 {
        seq![Op::BeginNode("cpus"@)]
    } else if part == 4 {
        seq![Op::BeginNode("intc"@)]
    } else if part == 5 {
        seq![Op::BeginNode("timer"@)]
    } else if part == 6 {
        if guest.use_pmu {
            seq![Op::BeginNode("pmu"@)]
        } else {
            Seq::empty()
        }
    } else if part == 7 {
        seq![
            Op::BeginNode("U6_16550A@"@ + text::hex(guest.layout.serial_addr[0] as nat)),
            Op::BeginNode("U6_16550A@"@ + text::hex(guest.layout.serial_addr[1] as nat)),
            Op::BeginNode("U6_16550A@"@ + text::hex(guest.layout.serial_addr[2] as nat)),
            Op::BeginNode("U6_16550A@"@ + text::hex(guest.layout.serial_addr[3] as nat)),
        ]
    } else if part == 8 {
        seq![Op::BeginNode("psci"@)]
    } else if part == 9 {
        seq![Op::BeginNode("pci"@)]
    } else if part == 10 {
        seq![
            Op::BeginNode("pclk@3M"@),
            Op::BeginNode("rtc@"@ + text::hex(guest.layout.rtc_addr as nat)),
        ]
    } else if part == 11 {
        seq![Op::BeginNode("/platform@"@ + text::hex(guest.plat_device_base as nat))]
    } else if part == 12 {
        match device {
            Some(Passthrough::Edgetpu) => seq![
                Op::BeginNode("sysmmu"@),
                Op::BeginNode("iommu_group_tpu"@),
            ],
            Some(Passthrough::Rknpu) => seq![Op::BeginNode("iommu"@)],
            None => Seq::empty(),
        }
    } else {
        if device == Some(Passthrough::Rknpu) {
            seq![Op::BeginNode("fake-clock-controller"@)]
        } else {
            Seq::empty()
        }
    }
}

/// The parts of the tree nest properly, and their nodes are those at their tops.
#[verifier::rlimit(60)]
proof fn lemma_part(guest: Guest, part: int)
    requires
        tree::guest_tree(guest).1 is None,
        0 <= part < 14,
    ensures
        nesting::is_forest(parts(guest)[part]),
        lookup::at(parts(guest)[part], Seq::empty()) == tops(guest, part),
{
    reveal(parts);
    reveal(tops);
    let none = Seq::<Seq<char>>::empty();
    let ops = parts(guest)[part];
    let device = platform::platform_device(guest.platform_info);
    if part == 2 {
        contents::lemma_resv_memory_top(
            guest.layout,
            guest.swiotlb,
            guest.page_size,
            device,
            guest.second_vm,
        );
    } else if part == 3 {
        contents::lemma_cpus_top(guest.num_cpus, guest.cpu_clusters, guest.cpu_capacity);
    } else if part == 7 {
        shape::lemma_peripherals_are_forests(guest.layout);
        contents::lemma_serial_top(guest.layout);
    } else if part == 10 {
        shape::lemma_peripherals_are_forests(guest.layout);
        contents::lemma_rtc(guest.layout);
    } else if part == 11 {
        lemma_bus(
            guest.platform_info,
            guest.of_nodes,
            guest.plat_device_base,
            guest.plat_device_size,
        );
    } else if part == 12 {
        passthrough::lemma_iommus(device);
        shape::lemma_companion_parts_are_forests(device);
    } else if part == 13 {
        passthrough::lemma_fake_clock(device);
        shape::lemma_companion_parts_are_forests(device);
    } else if part == 6 && !guest.use_pmu {
        contents::lemma_at_empty(none);
    } else {
        lemma_leaf_part(guest, part);
        contents::lemma_at_leaf(ops, none);
    }
}

/// The parts that are one node with properties only.
#[verifier::rlimit(60)]
proof fn lemma_leaf_part(guest: Guest, part: int)
    requires
        tree::guest_tree(guest).1 is None,
        part == 0 || part == 1 || part == 4 || part == 5 || (part == 6 && guest.use_pmu) || part
            == 8 || part == 9,
    ensures
        shape::is_leaf(parts(guest)[part]),
        seq![parts(guest)[part][0]] == tops(guest, part),
{
    reveal(parts);
    reveal(tops);
}

/// The parts up to `count`, in a row.
spec fn row(parts: Seq<Seq<Op>>, count: nat) -> Seq<Op>
    decreases count,
{
    if count == 0 {
        Seq::empty()
    } else {
        row(parts, (count - 1) as nat) + parts[count - 1]
    }
}

/// What is found of a path in a row of parts is what is found in its own part.
proof fn lemma_row(guest: Guest, count: nat, path: Seq<Seq<char>>)
    requires
        tree::guest_tree(guest).1 is None,
        count <= 14,
        path.len() > 0,
    ensures
        nesting::is_forest(row(parts(guest), count)),
        lookup::at(row(parts(guest), count), path) == if 0 <= group(path[0]) < count {
            lookup::at(parts(guest)[group(path[0])], path)
        } else {
            Seq::empty()
        },
    decreases count,
{
    if count == 0 {
        contents::lemma_at_empty(path);
    } else {
        let rest = (count - 1) as nat;
        let front = row(parts(guest), rest);
        let last = parts(guest)[count - 1];
        lemma_row(guest, rest, path);
        lemma_part(guest, count - 1);
        nesting::lemma_forests_join(front, last);
        lookup::lemma_at_join(front, last, path);
        if group(path[0]) != count - 1 {
            lemma_top_groups(guest, count - 1);
            lookup::lemma_at_elsewhere(last, path);
        }
        assert(lookup::at(front + last, path) =~= if 0 <= group(path[0]) < count {
            lookup::at(parts(guest)[group(path[0])], path)
        } else {
            Seq::empty()
        });
    }
}

proof fn lemma_top_groups(guest: Guest, part: int)
    requires
        0 <= part < 14,
    ensures
        forall|i: int|
            0 <= i < tops(guest, part).len() ==> (#[trigger] tops(guest, part)[i]) is BeginNode
                && group(tops(guest, part)[i]->BeginNode_0) == part,
{
    reveal(tops);
    lemma_groups();
}

/// The nodes at the tops of all parts up to `count`.
spec fn all_tops(guest: Guest, count: nat) -> Seq<Op>
    decreases count,
{
    if count == 0 {
        Seq::empty()
    } else {
        all_tops(guest, (count - 1) as nat) + tops(guest, count - 1)
    }
}

proof fn lemma_row_tops(guest: Guest, count: nat)
    requires
        tree::guest_tree(guest).1 is None,
        count <= 14,
    ensures
        nesting::is_forest(row(parts(guest), count)),
        lookup::at(row(parts(guest), count), Seq::empty()) == all_tops(guest, count),
    decreases count,
{
    if count == 0 {
        contents::lemma_at_empty(Seq::empty());
    } else {
        let rest = (count - 1) as nat;
        lemma_row_tops(guest, rest);
        lemma_part(guest, count - 1);
        nesting::lemma_forests_join(row(parts(guest), rest), parts(guest)[count - 1]);
        lookup::lemma_at_join(row(parts(guest), rest), parts(guest)[count - 1], Seq::empty());
    }
}

/// Parts in a row can be grouped.
#[verifier::spinoff_prover]
proof fn lemma_row_groups(android: Seq<Op>, p: Seq<Seq<Op>>)
    requires
        p.len() == 14,
    ensures
        android + p[0] + (p[1] + p[2] + p[3] + p[4] + p[5] + p[6]) + (p[7] + p[8] + p[9] + p[10])
            + p[11] + (p[12] + p[13]) == android + row(p, 14),
{
    reveal_with_fuel(row, 15);
    let core = p[1] + p[2] + p[3] + p[4] + p[5] + p[6];
    let devices = p[7] + p[8] + p[9] + p[10];
    assert(row(p, 7) =~= p[0] + core);
    assert(row(p, 11) =~= row(p, 7) + devices);
    assert(row(p, 14) =~= row(p, 11) + p[11] + (p[12] + p[13]));
    nesting::lemma_grouping(android, p[0], core);
    nesting::lemma_grouping(android, row(p, 7), devices);
    nesting::lemma_grouping(android, row(p, 11), p[11]);
    nesting::lemma_grouping(android, row(p, 11) + p[11], p[12] + p[13]);
}

/// The children of the root are the parts in a row.
#[verifier::spinoff_prover]
#[verifier::rlimit(60)]
proof fn lemma_children_are_row(guest: Guest)
    requires
        tree::guest_tree(guest).1 is None,
    ensures
        tree::root_children(guest) == tree::android_nodes(guest.android_fstab) + row(
            parts(guest),
            14,
        ),
{
    reveal(parts);
    lemma_row_groups(tree::android_nodes(guest.android_fstab), parts(guest));
}

/// The part that a path belongs to.
#[verifier::rlimit(60)]
proof fn lemma_tree_below(guest: Guest, path: Seq<Seq<char>>)
    requires
        tree::guest_tree(guest).1 is None,
        path.len() > 0,
        0 <= group(path[0]) < 14,
    ensures
        lookup::at(tree::guest_tree(guest).0, seq![""@] + path) == lookup::at(
            parts(guest)[group(path[0])],
            path,
        ),
{
    let android = tree::android_nodes(guest.android_fstab);
    let whole = seq![""@] + path;
    lemma_row(guest, 14, path);
    lemma_children_are_row(guest);
    lemma_android(guest.android_fstab, path);
    nesting::lemma_forests_join(android, row(parts(guest), 14));
    lookup::lemma_at_join(android, row(parts(guest), 14), path);
    lookup::lemma_at_node(""@, tree::root_properties(), tree::root_children(guest), whole);
    assert(whole.skip(1) =~= path);
    assert(Seq::<Op>::empty() + lookup::at(row(parts(guest), 14), path) =~= lookup::at(
        row(parts(guest), 14),
        path,
    ));
}

/// Nothing is found in the Android nodes.
proof fn lemma_android(android_fstab: bool, path: Seq<Seq<char>>)
    ensures
        nesting::is_forest(tree::android_nodes(android_fstab)),
        lookup::at(tree::android_nodes(android_fstab), path) == Seq::<Op>::empty(),
{
    nesting::lemma_android_is_forest();
    contents::lemma_at_empty(path);
    assert(seq![Op::AndroidFstab].drop_last() =~= Seq::<Op>::empty());
    assert(lookup::at(seq![Op::AndroidFstab], path) =~= Seq::<Op>::empty());
}

/// The root and its children: nothing else is below it but the Android nodes,
/// and each is there once.
#[verifier::rlimit(60)]
pub proof fn lemma_root(guest: Guest)
    requires
        tree::guest_tree(guest).1 is None,
    ensures
        ({
            let device = platform::platform_device(guest.platform_info);
            lookup::at(tree::guest_tree(guest).0, seq![""@]) == seq![
                Op::BeginNode(""@),
                Op::PropertyU32("interrupt-parent"@, board::PHANDLE_GIC),
                Op::PropertyString("compatible"@, "linux,dummy-virt"@),
                Op::PropertyU32("#address-cells"@, 2),
                Op::PropertyU32("#size-cells"@, 2),
                Op::BeginNode("chosen"@),
                Op::BeginNode("memory"@),
                Op::BeginNode("reserved-memory"@),
                Op::BeginNode("cpus"@),
                Op::BeginNode("intc"@),
                Op::BeginNode("timer"@),
            ] + (if guest.use_pmu {
                seq![Op::BeginNode("pmu"@)]
            } else {
                Seq::empty()
            }) + seq![
                Op::BeginNode("U6_16550A@"@ + text::hex(guest.layout.serial_addr[0] as nat)),
                Op::BeginNode("U6_16550A@"@ + text::hex(guest.layout.serial_addr[1] as nat)),
                Op::BeginNode("U6_16550A@"@ + text::hex(guest.layout.serial_addr[2] as nat)),
                Op::BeginNode("U6_16550A@"@ + text::hex(guest.layout.serial_addr[3] as nat)),
                Op::BeginNode("psci"@),
                Op::BeginNode("pci"@),
                Op::BeginNode("pclk@3M"@),
                Op::BeginNode("rtc@"@ + text::hex(guest.layout.rtc_addr as nat)),
                Op::BeginNode("/platform@"@ + text::hex(guest.plat_device_base as nat)),
            ] + (match device {
                Some(Passthrough::Edgetpu) => seq![
                    Op::BeginNode("sysmmu"@),
                    Op::BeginNode("iommu_group_tpu"@),
                ],
                Some(Passthrough::Rknpu) => seq![
                    Op::BeginNode("iommu"@),
                    Op::BeginNode("fake-clock-controller"@),
                ],
                None => Seq::empty(),
            })
        }),
{
    reveal(tops);
    let none = Seq::<Seq<char>>::empty();
    let android = tree::android_nodes(guest.android_fstab);
    let children = row(parts(guest), 14);
    lemma_row_tops(guest, 14);
    lemma_children_are_row(guest);
    lemma_android(guest.android_fstab, none);
    nesting::lemma_forests_join(android, children);
    lookup::lemma_at_join(android, children, none);
    lookup::lemma_at_node(
        ""@,
        tree::root_properties(),
        tree::root_children(guest),
        seq![""@],
    );
    reveal_with_fuel(all_tops, 15);
    assert(Seq::<Op>::empty() + all_tops(guest, 14) =~= all_tops(guest, 14));
}

/// Each node below the root is described from what the guest was given, and from
/// nothing else: what is found of it in the tree is what is found of it in its
/// own description.
#[verifier::rlimit(60)]
pub proof fn lemma_tree_parts(guest: Guest, path: Seq<Seq<char>>)
    requires
        tree::guest_tree(guest).1 is None,
        path.len() > 0,
    ensures
        ({
            let here = lookup::at(tree::guest_tree(guest).0, seq![""@] + path);
            let name = path[0];
            let device = platform::platform_device(guest.platform_info);
            let pool = if guest.swiotlb is Some {
                Some(board::PHANDLE_RESTRICTED_DMA_POOL)
            } else {
                None
            };
            &&& name == "chosen"@ ==> here == lookup::at(
                chosen::chosen_node(guest.layout, guest.cmdline, guest.seeds, guest.initrd).0,
                path,
            )
            &&& name == "memory"@ ==> here == lookup::at(
                memory::memory_node(guest.layout, guest.mem_size, guest.second_vm),
                path,
            )
            &&& name == "reserved-memory"@ ==> here == lookup::at(
                memory::resv_memory_node(
                    guest.layout,
                    guest.swiotlb,
                    guest.page_size,
                    device,
                    guest.second_vm,
                ),
                path,
            )
            &&& name == "cpus"@ ==> here == lookup::at(
                cpu::cpus_node(guest.num_cpus, guest.cpu_clusters, guest.cpu_capacity),
                path,
            )
            &&& name == "intc"@ ==> here == lookup::at(
                interrupts::gic_node(guest.layout, guest.is_gicv3, guest.num_cpus as u64),
                path,
            )
            &&& name == "timer"@ ==> here == lookup::at(
                interrupts::timer_node(guest.num_cpus),
                path,
            )
            &&& name == "pmu"@ && guest.use_pmu ==> here == lookup::at(
                interrupts::pmu_node(guest.layout, guest.num_cpus),
                path,
            )
            &&& name.len() > 0 && name[0] == 'U' ==> here == lookup::at(
                peripherals::serial_nodes(guest.layout),
                path,
            )
            &&& name == "psci"@ ==> here == lookup::at(psci::psci_node(guest.psci_version), path)
            &&& name == "pci"@ ==> here == lookup::at(
                pci::pci_node(guest.pci_irqs, guest.pci_cfg, guest.pci_ranges, pool),
                path,
            )
            &&& name == "pclk@3M"@ || name == "rtc@"@ + text::hex(guest.layout.rtc_addr as nat)
                ==> here == lookup::at(peripherals::rtc_nodes(guest.layout), path)
            &&& name == "/platform@"@ + text::hex(guest.plat_device_base as nat) ==> here
                == lookup::at(
                platform::vfio_platform_bus(
                    guest.platform_info,
                    guest.of_nodes,
                    guest.plat_device_base,
                    guest.plat_device_size,
                ).0,
                path,
            )
            &&& name == "sysmmu"@ || name == "iommu_group_tpu"@ || name == "iommu"@ ==> here
                == lookup::at(platform::iommu_nodes(device), path)
            &&& name == "fake-clock-controller"@ ==> here == lookup::at(
                platform::fake_clock_nodes(device),
                path,
            )
        }),
{
    reveal(parts);
    lemma_groups();
    let name = path[0];
    if name.len() > 0 && name[0] == 'U' {
        lemma_serial_group(name);
    }
    if 0 <= group(name) < 14 {
        lemma_tree_below(guest, path);
    }
}

/// Names that start as those of serial ports belong to these.
proof fn lemma_serial_group(name: Seq<char>)
    requires
        name.len() > 0,
        name[0] == 'U',
    ensures
        group(name) == 7,
{
    reveal(group);
    reveal_strlit("chosen");
    reveal_strlit("memory");
    reveal_strlit("reserved-memory");
    reveal_strlit("cpus");
    reveal_strlit("intc");
    reveal_strlit("timer");
    reveal_strlit("pmu");
    assert("chosen"@[0] == 'c');
    assert("memory"@[0] == 'm');
    assert("reserved-memory"@[0] == 'r');
    assert("cpus"@[0] == 'c');
    assert("intc"@[0] == 'i');
    assert("timer"@[0] == 't');
    assert("pmu"@[0] == 'p');
}

/// A tree is described without error where both seeds were read and every device
/// can be described. Without a seed that is the error; otherwise it is that of
/// the first device, `first`, that cannot be described.
pub proof fn lemma_tree_errors(guest: Guest, first: nat)
    requires
        first <= guest.platform_info.len(),
        forall|i: int|
            0 <= i < first ==> platform::vfio_platform_node(
                (#[trigger] guest.platform_info[i]).0@,
                guest.platform_info[i].1@,
                guest.platform_info[i].2@,
                guest.plat_device_base,
                guest.of_nodes[i],
            ).1 is None,
        first < guest.platform_info.len() ==> platform::vfio_platform_node(
            guest.platform_info[first as int].0@,
            guest.platform_info[first as int].1@,
            guest.platform_info[first as int].2@,
            guest.plat_device_base,
            guest.of_nodes[first as int],
        ).1 is Some,
    ensures
        tree::guest_tree(guest).1 == if guest.seeds.kaslr_seed is None || guest.seeds.rng_seed
            is None {
            Some(Error::FdtIoError)
        } else if first == guest.platform_info.len() {
            None
        } else {
            platform::vfio_platform_node(
                guest.platform_info[first as int].0@,
                guest.platform_info[first as int].1@,
                guest.platform_info[first as int].2@,
                guest.plat_device_base,
                guest.of_nodes[first as int],
            ).1
        },
{
    lemma_first_error(
        guest.platform_info,
        guest.of_nodes,
        guest.plat_device_base,
        guest.plat_device_size,
        first,
    );
}

/// The seeds of a tree that is described without error were read.
proof fn lemma_seeds_read(guest: Guest)
    requires
        tree::guest_tree(guest).1 is None,
    ensures
        guest.seeds.kaslr_seed is Some,
        guest.seeds.rng_seed is Some,
{
}

/// The kernel gets the command line that the guest was given: the root has one
/// child `chosen`, whose `bootargs` are the command line, character for
/// character.
#[verifier::rlimit(60)]
pub proof fn lemma_command_line(guest: Guest)
    requires
        tree::guest_tree(guest).1 is None,
        guest.initrd matches Some((addr, size)) ==> addr as nat % 0x1_0000_0000 + size as nat
            % 0x1_0000_0000 <= u32::MAX,
    ensures
        ({
            let ops = tree::guest_tree(guest).0;
            let root = lookup::at(ops, seq![""@]);
            let path = seq![""@, "chosen"@];
            &&& lookup::tells(ops, path, Op::PropertyString("bootargs"@, guest.cmdline))
            &&& root.contains(Op::BeginNode("chosen"@))
            &&& forall|i: int, j: int|
                0 <= i < j < root.len() ==> !(#[trigger] root[i] == Op::BeginNode("chosen"@)
                    && #[trigger] root[j] == Op::BeginNode("chosen"@))
        }),
{
    let ops = tree::guest_tree(guest).0;
    let root = lookup::at(ops, seq![""@]);
    let path = seq![""@, "chosen"@];
    lemma_seeds_read(guest);
    contents::lemma_chosen(
        guest.layout,
        guest.cmdline,
        guest.seeds.kaslr_seed->0,
        guest.seeds.rng_seed->0,
        guest.initrd,
    );
    lemma_tree_parts(guest, seq!["chosen"@]);
    assert(seq![""@] + seq!["chosen"@] =~= path);
    let steps = lookup::at(ops, path);
    assert(steps[2] == Op::PropertyString("bootargs"@, guest.cmdline));
    lemma_boot_names();
    lemma_root(guest);
    assert(root[5] == Op::BeginNode("chosen"@));
    lemma_root_names(guest);
}

/// The names of the properties that the kernel gets differ from that of its
/// command line.
proof fn lemma_boot_names()
    ensures
        "bootargs"@ != "linux,pci-probe-only"@,
        "bootargs"@ != "stdout-path"@,
        "bootargs"@ != "kaslr-seed"@,
        "bootargs"@ != "rng-seed"@,
        "bootargs"@ != "linux,initrd-start"@,
        "bootargs"@ != "linux,initrd-end"@,
{
    reveal_strlit("bootargs");
    reveal_strlit("linux,pci-probe-only");
    reveal_strlit("stdout-path");
    reveal_strlit("kaslr-seed");
    reveal_strlit("rng-seed");
    reveal_strlit("linux,initrd-start");
    reveal_strlit("linux,initrd-end");
    assert("bootargs"@[0] == 'b');
    assert("linux,pci-probe-only"@[0] == 'l');
    assert("stdout-path"@[0] == 's');
    assert("kaslr-seed"@[0] == 'k');
    assert("rng-seed"@[0] == 'r');
    assert("linux,initrd-start"@[0] == 'l');
    assert("linux,initrd-end"@[0] == 'l');
}

/// No child of the root but the sixth step is named `chosen`.
#[verifier::rlimit(60)]
proof fn lemma_root_names(guest: Guest)
    requires
        tree::guest_tree(guest).1 is None,
    ensures
        ({
            let root = lookup::at(tree::guest_tree(guest).0, seq![""@]);
            forall|i: int|
                0 <= i < root.len() && i != 5 ==> #[trigger] root[i] != Op::BeginNode("chosen"@)
        }),
{
    lemma_groups();
    lemma_root(guest);
    reveal_strlit("");
    reveal_strlit("chosen");
    assert(""@.len() == 0 && "chosen"@.len() == 6);
    let root = lookup::at(tree::guest_tree(guest).0, seq![""@]);
    assert forall|i: int| 0 <= i < root.len() && i != 5 implies #[trigger] root[i]
        != Op::BeginNode("chosen"@) by {
        if i > 5 {
            assert(root[i] is BeginNode);
            assert(group(root[i]->BeginNode_0) != 0);
        }
    }
}

/// The kernel gets the random bytes that were read, the console, and where its
/// initial RAM disk starts and ends.
#[verifier::rlimit(60)]
pub proof fn lemma_tree_chosen(guest: Guest) -> (seed: u64)
    requires
        tree::guest_tree(guest).1 is None,
        guest.initrd matches Some((addr, size)) ==> addr as nat % 0x1_0000_0000 + size as nat
            % 0x1_0000_0000 <= u32::MAX,
    ensures
        lookup::at(tree::guest_tree(guest).0, seq![""@, "chosen"@]) == seq![
            Op::BeginNode("chosen"@),
            Op::PropertyU32("linux,pci-probe-only"@, 1),
            Op::PropertyString("bootargs"@, guest.cmdline),
            Op::PropertyString(
                "stdout-path"@,
                "/U6_16550A@"@ + text::hex(guest.layout.serial_addr[0] as nat),
            ),
            Op::PropertyU64("kaslr-seed"@, seed),
            Op::Property("rng-seed"@, (guest.seeds.rng_seed->0)@),
        ] + match guest.initrd {
            Some((addr, size)) => seq![
                Op::PropertyU32("linux,initrd-start"@, (addr % 0x1_0000_0000) as u32),
                Op::PropertyU32(
                    "linux,initrd-end"@,
                    (addr as nat % 0x1_0000_0000 + size as nat % 0x1_0000_0000) as u32,
                ),
            ],
            None => Seq::empty(),
        },
        ({
            let bytes = guest.seeds.kaslr_seed->0;
            seed == bytes[0] + bytes[1] * 0x100 + bytes[2] * 0x1_0000 + bytes[3] * 0x100_0000
                + bytes[4] * 0x1_0000_0000 + bytes[5] * 0x100_0000_0000 + bytes[6]
                * 0x1_0000_0000_0000 + bytes[7] * 0x100_0000_0000_0000
        }),
{
    lemma_seeds_read(guest);
    let seed = contents::lemma_chosen(
        guest.layout,
        guest.cmdline,
        guest.seeds.kaslr_seed->0,
        guest.seeds.rng_seed->0,
        guest.initrd,
    );
    lemma_tree_parts(guest, seq!["chosen"@]);
    assert(seq![""@] + seq!["chosen"@] =~= seq![""@, "chosen"@]);
    seed
}

/// The kernel is told of the memory that the guest has: where it starts, and all
/// of its size.
#[verifier::rlimit(60)]
pub proof fn lemma_tree_memory(guest: Guest) -> (reg: Seq<u64>)
    requires
        tree::guest_tree(guest).1 is None,
    ensures
        lookup::tells(
            tree::guest_tree(guest).0,
            seq![""@, "memory"@],
            Op::PropertyArrayU64("reg"@, reg),
        ),
        reg.len() == 2,
        reg[0] == if guest.second_vm {
            guest.layout.phys_mem_start_second
        } else {
            guest.layout.phys_mem_start
        },
        reg[1] == guest.mem_size,
{
    lemma_tree_parts(guest, seq!["memory"@]);
    assert(seq![""@] + seq!["memory"@] =~= seq![""@, "memory"@]);
    contents::lemma_memory_size(guest.layout, guest.mem_size, guest.second_vm)
}

/// In the tree, too, each core of each cluster refers to its own CPU.
#[verifier::rlimit(60)]
pub proof fn lemma_tree_core(guest: Guest, cluster_idx: nat, core_idx: nat)
    requires
        tree::guest_tree(guest).1 is None,
        cluster_idx < guest.cpu_clusters.len(),
        core_idx < guest.cpu_clusters[cluster_idx as int]@.len(),
        guest.cpu_clusters[cluster_idx as int]@[core_idx as int] as nat % 0x1_0000_0000 <= u32::MAX
            - 0x100,
    ensures
        lookup::tells(
            tree::guest_tree(guest).0,
            seq![
                ""@,
                "cpus"@,
                "cpu-map"@,
                "cluster"@ + text::decimal(cluster_idx),
                "core"@ + text::decimal(core_idx),
            ],
            Op::PropertyU32(
                "cpu"@,
                (0x100 + guest.cpu_clusters[cluster_idx as int]@[core_idx as int] as nat
                    % 0x1_0000_0000) as u32,
            ),
        ),
{
    let path = seq![
        "cpus"@,
        "cpu-map"@,
        "cluster"@ + text::decimal(cluster_idx),
        "core"@ + text::decimal(core_idx),
    ];
    lemma_tree_parts(guest, path);
    assert(seq![""@] + path =~= seq![
        ""@,
        "cpus"@,
        "cpu-map"@,
        "cluster"@ + text::decimal(cluster_idx),
        "core"@ + text::decimal(core_idx),
    ]);
    contents::lemma_core(
        guest.num_cpus,
        guest.cpu_clusters,
        guest.cpu_capacity,
        cluster_idx,
        core_idx,
    );
}

/// The interrupt map of the tree: ten cells for each PCI interrupt of the guest,
/// in order.
#[verifier::rlimit(60)]
pub proof fn lemma_tree_interrupt_map(guest: Guest) -> (map: Seq<u32>)
    requires
        tree::guest_tree(guest).1 is None,
        forall|i: int|
            0 <= i < guest.pci_irqs.len() ==> (#[trigger] guest.pci_irqs[i]).pin < u32::MAX,
    ensures
        lookup::tells(
            tree::guest_tree(guest).0,
            seq![""@, "pci"@],
            Op::PropertyArrayU32("interrupt-map"@, map),
        ),
        map.len() == 10 * guest.pci_irqs.len(),
        forall|i: int|
            0 <= i < guest.pci_irqs.len() ==> map.subrange(10 * i, 10 * i + 10) == seq![
                (#[trigger] guest.pci_irqs[i]).config_address,
                0,
                0,
                (guest.pci_irqs[i].pin + 1) as u32,
                board::PHANDLE_GIC,
                0,
                0,
                0,
                guest.pci_irqs[i].irq_num,
                4,
            ],
{
    let path = seq![""@, "pci"@];
    lemma_tree_parts(guest, seq!["pci"@]);
    assert(seq![""@] + seq!["pci"@] =~= path);
    let (_, map, _) = contents::lemma_pci(
        guest.pci_irqs,
        guest.pci_cfg,
        guest.pci_ranges,
        memory::dma_pool_phandle(guest.swiotlb),
    );
    let steps = lookup::at(tree::guest_tree(guest).0, path);
    assert(steps[9] == Op::PropertyArrayU32("interrupt-map"@, map));
    lemma_pci_names();
    map
}

/// The names of the properties of the host controller differ from that of its
/// interrupt map.
proof fn lemma_pci_names()
    ensures
        "interrupt-map"@ != "compatible"@,
        "interrupt-map"@ != "device_type"@,
        "interrupt-map"@ != "ranges"@,
        "interrupt-map"@ != "bus-range"@,
        "interrupt-map"@ != "#address-cells"@,
        "interrupt-map"@ != "#size-cells"@,
        "interrupt-map"@ != "reg"@,
        "interrupt-map"@ != "#interrupt-cells"@,
        "interrupt-map"@ != "interrupt-map-mask"@,
        "interrupt-map"@ != "dma-coherent"@,
        "interrupt-map"@ != "memory-region"@,
{
    reveal_strlit("interrupt-map");
    reveal_strlit("compatible");
    reveal_strlit("device_type");
    reveal_strlit("ranges");
    reveal_strlit("bus-range");
    reveal_strlit("#address-cells");
    reveal_strlit("#size-cells");
    reveal_strlit("reg");
    reveal_strlit("#interrupt-cells");
    reveal_strlit("interrupt-map-mask");
    reveal_strlit("dma-coherent");
    reveal_strlit("memory-region");
    assert("interrupt-map"@.len() == 13 && "interrupt-map"@[0] == 'i');
    assert("compatible"@.len() == 10);
    assert("device_type"@.len() == 11);
    assert("ranges"@.len() == 6);
    assert("bus-range"@.len() == 9);
    assert("#address-cells"@.len() == 14);
    assert("#size-cells"@.len() == 11);
    assert("reg"@.len() == 3);
    assert("#interrupt-cells"@.len() == 16);
    assert("interrupt-map-mask"@.len() == 18);
    assert("dma-coherent"@.len() == 12);
    assert("memory-region"@.len() == 13 && "memory-region"@[0] == 'm');
}

/// In the tree, too, the node of a device holds its interrupts, as long as no
/// other device has the same name.
#[verifier::rlimit(60)]
pub proof fn lemma_tree_device_interrupts(guest: Guest, i: int) -> (cells: Seq<u32>)
    requires
        tree::guest_tree(guest).1 is None,
        0 <= i < guest.platform_info.len(),
        guest.platform_info[i].2@.len() > 0,
        forall|j: int|
            0 <= j < guest.platform_info.len() && j != i ==> (text::file_name_of(
                (#[trigger] guest.platform_info[j]).0@,
            )->0) + "@"@ + text::hex(guest.platform_info[j].1@[0].0 as nat) != (text::file_name_of(
                guest.platform_info[i].0@,
            )->0) + "@"@ + text::hex(guest.platform_info[i].1@[0].0 as nat),
    ensures
        lookup::tells(
            tree::guest_tree(guest).0,
            seq![
                ""@,
                "/platform@"@ + text::hex(guest.plat_device_base as nat),
                (text::file_name_of(guest.platform_info[i].0@)->0) + "@"@ + text::hex(
                    guest.platform_info[i].1@[0].0 as nat,
                ),
            ],
            Op::PropertyArrayU32("interrupts"@, cells),
        ),
        cells.len() == 3 * guest.platform_info[i].2@.len(),
        forall|k: int|
            0 <= k < guest.platform_info[i].2@.len() ==> cells.subrange(3 * k, 3 * k + 3) == seq![
                0,
                (#[trigger] guest.platform_info[i].2@[k]).0,
                4,
            ],
{
    let info = guest.platform_info[i];
    let bus = "/platform@"@ + text::hex(guest.plat_device_base as nat);
    let name = device_name(info);
    let path = seq![name];
    let count = guest.platform_info.len();
    lemma_device_described(
        guest.platform_info,
        guest.of_nodes,
        guest.plat_device_base,
        count,
        i,
    );
    passthrough::lemma_device_errors(
        info.0@,
        info.1@,
        info.2@,
        guest.plat_device_base,
        guest.of_nodes[i],
    );
    passthrough::lemma_known_devices();
    reveal_strlit("1ce00000.abrolhos-guest");
    reveal_strlit("fdab0000.npu-guest");
    reveal_strlit("clock-controller");
    assert("1ce00000.abrolhos-guest"@[0] == '1' && "1ce00000.abrolhos-guest"@.len() == 23);
    assert("fdab0000.npu-guest"@[0] == 'f' && "fdab0000.npu-guest"@.len() == 18);
    assert("clock-controller"@[0] == 'c');
    assert(name[0] == (text::file_name_of(info.0@)->0)[0]);
    lemma_bus_device(
        guest.platform_info,
        guest.of_nodes,
        guest.plat_device_base,
        guest.plat_device_size,
        i,
        path,
    );
    lemma_tree_parts(guest, seq![bus] + path);
    assert(seq![""@] + (seq![bus] + path) =~= seq![""@, bus, name]);
    passthrough::lemma_device_interrupts(
        info.0@,
        info.1@,
        info.2@,
        guest.plat_device_base,
        guest.of_nodes[i],
        text::file_name_of(info.0@)->0,
    )
}

/// Where no error stops the work, every device is described.
proof fn lemma_device_described(
    platform_info: Seq<PlatformInfo>,
    of_nodes: Seq<OfNode>,
    plat_device_base: u64,
    count: nat,
    i: int,
)
    requires
        platform::vfio_platform_nodes(platform_info, of_nodes, plat_device_base, count).1 is None,
        0 <= i < count,
    ensures
        device_part(platform_info, of_nodes, plat_device_base, i).1 is None,
    decreases count,
{
    if i < count - 1 {
        lemma_device_described(
            platform_info,
            of_nodes,
            plat_device_base,
            (count - 1) as nat,
            i,
        );
    }
}

/// Which parameters a tree can be described from: the end of the initial RAM disk
/// and the numbers of all CPUs fit a cell, there are less than 32 CPUs, the
/// redistributors fit below the distributor, and pins can be counted from one.
/// Where a seed is missing, none of this matters.
pub proof fn lemma_parameters(guest: Guest)
    ensures
        tree::parameters_fit(
            guest.layout,
            guest.pci_irqs,
            guest.num_cpus,
            guest.cpu_clusters,
            guest.seeds,
            guest.initrd,
            guest.is_gicv3,
            guest.platform_info,
            guest.of_nodes,
            guest.plat_device_base,
        ) <==> {
            ||| guest.seeds.kaslr_seed is None
            ||| guest.seeds.rng_seed is None
            ||| {
                &&& guest.initrd matches Some((addr, size)) ==> addr as nat % 0x1_0000_0000
                    + size as nat % 0x1_0000_0000 <= u32::MAX
                &&& guest.num_cpus < 32
                &&& forall|i: int, k: int|
                    0 <= i < guest.cpu_clusters.len() && 0 <= k < guest.cpu_clusters[i]@.len()
                        ==> (#[trigger] guest.cpu_clusters[i]@[k]) as nat % 0x1_0000_0000
                        <= u32::MAX - 0x100
                &&& guest.is_gicv3 ==> guest.layout.gic_redist_size * guest.num_cpus
                    <= guest.layout.gic_dist_base
                &&& forall|i: int|
                    0 <= i < guest.pci_irqs.len() ==> (#[trigger] guest.pci_irqs[i]).pin < u32::MAX
                &&& platform::all_describable(
                    guest.platform_info,
                    guest.of_nodes,
                    guest.plat_device_base,
                )
            }
        },
{
    assert(forall|i: int, k: int|
        0 <= i < guest.cpu_clusters.len() && 0 <= k < guest.cpu_clusters[i]@.len()
            ==> #[trigger] guest.cpu_clusters[i]@[k] == guest.cpu_clusters[i][k]);
    if cpu::cpus_fit(guest.num_cpus, guest.cpu_clusters) {
        assert forall|i: int, k: int|
            0 <= i < guest.cpu_clusters.len() && 0 <= k < guest.cpu_clusters[i]@.len() implies (
        #[trigger] guest.cpu_clusters[i]@[k]) as nat % 0x1_0000_0000 <= u32::MAX - 0x100 by {
            assert(cpu::low_cell(guest.cpu_clusters[i][k] as nat) <= u32::MAX
                - board::PHANDLE_CPU0);
        }
    }
    if forall|i: int, k: int|
        0 <= i < guest.cpu_clusters.len() && 0 <= k < guest.cpu_clusters[i]@.len() ==> (
        #[trigger] guest.cpu_clusters[i]@[k]) as nat % 0x1_0000_0000 <= u32::MAX - 0x100 {
        assert forall|i: int, k: int|
            0 <= i < guest.cpu_clusters.len() && 0 <= k
                < guest.cpu_clusters[i].len() implies cpu::low_cell(
            (#[trigger] guest.cpu_clusters[i][k]) as nat,
        ) <= u32::MAX - board::PHANDLE_CPU0 by {
            assert(guest.cpu_clusters[i]@[k] as nat % 0x1_0000_0000 <= u32::MAX - 0x100);
        }
    }
}

/// Which devices can be described: something is known of each, and each has
/// ranges to be named after, none of which lies below the bus.
pub proof fn lemma_devices_describable(
    platform_info: Seq<PlatformInfo>,
    of_nodes: Seq<OfNode>,
    plat_device_base: u64,
)
    requires
        of_nodes.len() == platform_info.len(),
        forall|i: int|
            #![trigger platform_info[i]]
            0 <= i < platform_info.len() ==> {
                &&& 0 < platform_info[i].1@.len() <= i32::MAX
                &&& forall|k: int|
                    0 <= k < platform_info[i].1@.len() ==> plat_device_base
                        <= (#[trigger] platform_info[i].1@[k]).0
            },
    ensures
        platform::all_describable(platform_info, of_nodes, plat_device_base),
{
}

/// Whether one device can be described matters only as far as its description
/// goes: ranges count where the device has a name, is there and is known.
pub proof fn lemma_device_describable(
    sysfspath: Seq<char>,
    ranges: Seq<(u64, u64)>,
    plat_device_base: u64,
    of_node: OfNode,
)
    ensures
        platform::describable(sysfspath, ranges, plat_device_base, of_node) <==> {
            let edgetpu = sysfspath == "/sys/bus/platform/devices/1ce00000.abrolhos-guest"@;
            let rknpu = sysfspath == "/sys/bus/platform/devices/fdab0000.npu-guest"@;
            ||| text::file_name_of(sysfspath) is None
            ||| ranges.len() > 0 && !of_node.is_dir
            ||| ranges.len() > 0 && !edgetpu && !rknpu
            ||| {
                &&& ranges.len() > 0
                &&& rknpu ==> ranges.len() <= i32::MAX
                &&& forall|k: int| 0 <= k < ranges.len() ==> plat_device_base <= (
                    #[trigger] ranges[k]).0
            }
        },
{
    passthrough::lemma_known_devices();
}

/// How every tree begins, whether or not an error stops it: with the root, then
/// the Android nodes where there is a table for them, then what the kernel is
/// handed.
#[verifier::rlimit(40)]
pub proof fn lemma_tree_begins(guest: Guest)
    ensures
        ({
            let ops = tree::guest_tree(guest).0;
            &&& ops.len() > 6
            &&& ops.take(5) == seq![
                Op::BeginNode(""@),
                Op::PropertyU32("interrupt-parent"@, board::PHANDLE_GIC),
                Op::PropertyString("compatible"@, "linux,dummy-virt"@),
                Op::PropertyU32("#address-cells"@, 2),
                Op::PropertyU32("#size-cells"@, 2),
            ]
            &&& ops[5] == if guest.android_fstab {
                Op::AndroidFstab
            } else {
                Op::BeginNode("chosen"@)
            }
            &&& guest.android_fstab ==> ops[6] == Op::BeginNode("chosen"@)
        }),
{
    let begin = seq![Op::BeginNode(""@)] + tree::root_properties() + tree::android_nodes(
        guest.android_fstab,
    );
    let part = chosen::chosen_node(guest.layout, guest.cmdline, guest.seeds, guest.initrd).0;
    let ops = tree::guest_tree(guest).0;
    assert(part.len() > 3 && part[0] == Op::BeginNode("chosen"@));
    let rest = ops.skip((begin + part).len() as int);
    if tree::guest_tree(guest).1 is None {
        assert(ops.take((begin + part).len() as int) =~= begin + part);
    }
    assert(ops =~= begin + part + rest);
}

/// Where device `first` stops the work, the bus is written as it is without that
/// device and those behind it, but for its end, and then as far as that device
/// goes.
pub proof fn lemma_bus_stops(
    platform_info: Seq<PlatformInfo>,
    of_nodes: Seq<OfNode>,
    plat_device_base: u64,
    plat_device_size: u64,
    first: nat,
)
    requires
        first < platform_info.len() == of_nodes.len(),
        forall|i: int|
            0 <= i < first ==> platform::vfio_platform_node(
                (#[trigger] platform_info[i]).0@,
                platform_info[i].1@,
                platform_info[i].2@,
                plat_device_base,
                of_nodes[i],
            ).1 is None,
        platform::vfio_platform_node(
            platform_info[first as int].0@,
            platform_info[first as int].1@,
            platform_info[first as int].2@,
            plat_device_base,
            of_nodes[first as int],
        ).1 is Some,
    ensures
        platform::vfio_platform_bus(
            platform_info,
            of_nodes,
            plat_device_base,
            plat_device_size,
        ).0 == platform::vfio_platform_bus(
            platform_info.take(first as int),
            of_nodes.take(first as int),
            plat_device_base,
            plat_device_size,
        ).0.drop_last() + platform::vfio_platform_node(
            platform_info[first as int].0@,
            platform_info[first as int].1@,
            platform_info[first as int].2@,
            plat_device_base,
            of_nodes[first as int],
        ).0,
{
    let some = platform_info.take(first as int);
    let nodes = of_nodes.take(first as int);
    let name = "/platform@"@ + text::hex(plat_device_base as nat);
    let head = seq![Op::BeginNode(name)] + platform::bus_properties(
        plat_device_base,
        plat_device_size,
    );
    let devices = platform::vfio_platform_nodes(
        platform_info,
        of_nodes,
        plat_device_base,
        first,
    );
    let last = device_part(platform_info, of_nodes, plat_device_base, first as int);
    lemma_none_before(platform_info, of_nodes, plat_device_base, first);
    lemma_nodes_before(platform_info, of_nodes, some, nodes, plat_device_base, first);
    platform::lemma_nodes_stop(
        platform_info,
        of_nodes,
        plat_device_base,
        first + 1,
        platform_info.len(),
    );
    lemma_head_and_last(head, devices.0, last.0);
}

/// A bus that is cut short.
proof fn lemma_head_and_last(head: Seq<Op>, devices: Seq<Op>, last: Seq<Op>)
    ensures
        head + (devices + last) == (head + devices + seq![Op::EndNode]).drop_last() + last,
{
    assert(head + (devices + last) =~= (head + devices + seq![Op::EndNode]).drop_last() + last);
}

/// What is written for devices depends on the devices so far.
proof fn lemma_nodes_before(
    platform_info: Seq<PlatformInfo>,
    of_nodes: Seq<OfNode>,
    some: Seq<PlatformInfo>,
    nodes: Seq<OfNode>,
    plat_device_base: u64,
    count: nat,
)
    requires
        count <= some.len() == nodes.len(),
        some.len() <= platform_info.len() == of_nodes.len(),
        some == platform_info.take(some.len() as int),
        nodes == of_nodes.take(some.len() as int),
    ensures
        platform::vfio_platform_nodes(platform_info, of_nodes, plat_device_base, count)
            == platform::vfio_platform_nodes(some, nodes, plat_device_base, count),
    decreases count,
{
    if count > 0 {
        lemma_nodes_before(
            platform_info,
            of_nodes,
            some,
            nodes,
            plat_device_base,
            (count - 1) as nat,
        );
        assert(some[count - 1] == platform_info[count - 1]);
        assert(nodes[count - 1] == of_nodes[count - 1]);
    }
}

/// Where the seeds or a device stop the work, the tree ends as the description of
/// what was stopped does.
#[verifier::rlimit(60)]
pub proof fn lemma_tree_stops(guest: Guest)
    ensures
        ({
            let (ops, error) = tree::guest_tree(guest);
            let part = chosen::chosen_node(
                guest.layout,
                guest.cmdline,
                guest.seeds,
                guest.initrd,
            ).0;
            let bus = platform::vfio_platform_bus(
                guest.platform_info,
                guest.of_nodes,
                guest.plat_device_base,
                guest.plat_device_size,
            ).0;
            let begin = 5 + if guest.android_fstab {
                1int
            } else {
                0
            };
            let read = guest.seeds.kaslr_seed is Some && guest.seeds.rng_seed is Some;
            &&& !read ==> ops.len() == begin + part.len() && part == ops.skip(begin)
            &&& error is Some && read ==> ops.len() >= begin + part.len() + bus.len() && part
                == ops.subrange(begin, begin + part.len()) && bus == ops.skip(ops.len() - bus.len())
        }),
{
    let (ops, error) = tree::guest_tree(guest);
    let begin = seq![Op::BeginNode(""@)] + tree::root_properties() + tree::android_nodes(
        guest.android_fstab,
    );
    let part = chosen::chosen_node(guest.layout, guest.cmdline, guest.seeds, guest.initrd).0;
    let bus = tree::platform_part(guest).0;
    if !tree::seeds_read(guest.seeds) {
        lemma_split(begin, part, Seq::empty(), Seq::empty());
        assert(begin + part + Seq::<Op>::empty() + Seq::<Op>::empty() =~= begin + part);
    } else if error is Some {
        let middle = tree::core_nodes(guest) + tree::device_nodes(guest);
        nesting::lemma_grouping(
            begin + part,
            tree::core_nodes(guest),
            tree::device_nodes(guest),
        );
        lemma_split(begin, part, middle, bus);
    }
}

/// Pieces of a script are found where they stand.
proof fn lemma_split(begin: Seq<Op>, part: Seq<Op>, middle: Seq<Op>, bus: Seq<Op>)
    ensures
        ({
            let ops = begin + part + middle + bus;
            &&& part == ops.subrange(begin.len() as int, (begin.len() + part.len()) as int)
            &&& bus == ops.skip(ops.len() - bus.len())
            &&& middle.len() == 0 && bus.len() == 0 ==> part == ops.skip(begin.len() as int)
        }),
{
    let ops = begin + part + middle + bus;
    assert(part =~= ops.subrange(begin.len() as int, (begin.len() + part.len()) as int));
    assert(bus =~= ops.skip(ops.len() - bus.len()));
    if middle.len() == 0 && bus.len() == 0 {
        assert(part =~= ops.skip(begin.len() as int));
    }
}

} // verus!
