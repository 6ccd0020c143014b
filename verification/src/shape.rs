//! Every part of a device tree nests properly, and so does the whole.

use vstd::prelude::*;

use crate::board::Layout;
use crate::cpu;
use crate::interrupts;
use crate::memory;
use crate::nesting;
use crate::pci;
use crate::peripherals;
use crate::platform;
use crate::platform::{OfEntry, OfNode, Passthrough, PlatformInfo, PropertyAction};
use crate::psci;
use crate::script::Op;
use crate::text;
use crate::tree;
use crate::tree::Guest;

verus! {

/// The script is one node that has properties only.
pub open spec fn is_leaf(ops: Seq<Op>) -> bool {
    &&& ops.len() >= 2
    &&& ops[0] is BeginNode
    &&& ops.last() is EndNode
    &&& forall|i: int| 0 < i < ops.len() - 1 ==> nesting::is_property(#[trigger] ops[i])
}

/// A node that has properties only nests properly.
pub proof fn lemma_leaf_is_forest(ops: Seq<Op>)
    requires
        is_leaf(ops),
    ensures
        nesting::is_forest(ops),
{
    let name = ops[0]->BeginNode_0;
    let properties = ops.subrange(1, ops.len() - 1);
    assert forall|i: int| 0 <= i < properties.len() implies nesting::is_property(
        #[trigger] properties[i],
    ) by {
        assert(properties[i] == ops[i + 1]);
    }
    assert(ops =~= nesting::node(name, properties, Seq::empty()));
    nesting::lemma_empty_is_forest();
    nesting::lemma_node_is_forest(name, properties, Seq::empty());
}

/// Memory and reserved memory nest properly.
pub proof fn lemma_memory_is_forest(guest: Guest)
    ensures
        nesting::is_forest(
            memory::memory_node(guest.layout, guest.mem_size, guest.second_vm),
        ),
        nesting::is_forest(
            memory::resv_memory_node(
                guest.layout,
                guest.swiotlb,
                guest.page_size,
                platform::platform_device(guest.platform_info),
                guest.second_vm,
            ),
        ),
{
    lemma_leaf_is_forest(memory::memory_node(guest.layout, guest.mem_size, guest.second_vm));
    let device = platform::platform_device(guest.platform_info);
    let pool = memory::dma_pool(guest.swiotlb, guest.page_size);
    let inference = memory::inference_io(guest.layout, guest.second_vm);
    let firmware = memory::tpu_firmware(device);
    nesting::lemma_empty_is_forest();
    if guest.swiotlb is Some {
        lemma_leaf_is_forest(pool);
    }
    lemma_leaf_is_forest(inference);
    if device == Some(Passthrough::Edgetpu) {
        lemma_leaf_is_forest(firmware);
    }
    nesting::lemma_forests_join(pool, inference);
    nesting::lemma_forests_join(pool + inference, firmware);
    nesting::lemma_node_is_forest(
        "reserved-memory"@,
        seq![
            Op::PropertyU32("#address-cells"@, 2),
            Op::PropertyU32("#size-cells"@, 2),
            Op::PropertyNull("ranges"@),
        ],
        pool + inference + firmware,
    );
}

proof fn lemma_cpu_nodes(num_cpus: u32, cpu_capacity: Map<usize, u32>, count: nat)
    ensures
        nesting::is_forest(cpu::cpu_nodes(num_cpus, cpu_capacity, count)),
    decreases count,
{
    if count == 0 {
        nesting::lemma_empty_is_forest();
    } else {
        let rest = (count - 1) as nat;
        lemma_cpu_nodes(num_cpus, cpu_capacity, rest);
        lemma_leaf_is_forest(cpu::cpu_node(num_cpus, cpu_capacity, (count - 1) as u32));
        nesting::lemma_forests_join(
            cpu::cpu_nodes(num_cpus, cpu_capacity, rest),
            cpu::cpu_node(num_cpus, cpu_capacity, (count - 1) as u32),
        );
    }
}

proof fn lemma_core_nodes(cpus: Seq<usize>, count: nat)
    ensures
        nesting::is_forest(cpu::core_nodes(cpus, count)),
    decreases count,
{
    if count == 0 {
        nesting::lemma_empty_is_forest();
    } else {
        let rest = (count - 1) as nat;
        lemma_core_nodes(cpus, rest);
        lemma_leaf_is_forest(cpu::core_node(cpus, rest));
        nesting::lemma_forests_join(cpu::core_nodes(cpus, rest), cpu::core_node(cpus, rest));
    }
}

proof fn lemma_cluster_nodes(cpu_clusters: Seq<Vec<usize>>, count: nat)
    ensures
        nesting::is_forest(cpu::cluster_nodes(cpu_clusters, count)),
    decreases count,
{
    if count == 0 {
        nesting::lemma_empty_is_forest();
    } else {
        let rest = (count - 1) as nat;
        let cpus = cpu_clusters[count - 1]@;
        let name = "cluster"@ + text::decimal(rest);
        let cores = cpu::core_nodes(cpus, cpus.len());
        lemma_cluster_nodes(cpu_clusters, rest);
        lemma_core_nodes(cpus, cpus.len());
        nesting::lemma_node_is_forest(name, Seq::empty(), cores);
        nesting::lemma_forests_join(
            cpu::cluster_nodes(cpu_clusters, rest),
            nesting::node(name, Seq::empty(), cores),
        );
    }
}

/// CPUs and their clusters nest properly.
pub proof fn lemma_cpus_is_forest(
    num_cpus: u32,
    cpu_clusters: Seq<Vec<usize>>,
    cpu_capacity: Map<usize, u32>,
)
    ensures
        nesting::is_forest(cpu::cpus_node(num_cpus, cpu_clusters, cpu_capacity)),
{
    let cpus = cpu::cpu_nodes(num_cpus, cpu_capacity, num_cpus as nat);
    let clusters = cpu::cluster_nodes(cpu_clusters, cpu_clusters.len());
    lemma_cpu_nodes(num_cpus, cpu_capacity, num_cpus as nat);
    lemma_cluster_nodes(cpu_clusters, cpu_clusters.len());
    nesting::lemma_empty_is_forest();
    nesting::lemma_node_is_forest("cpu-map"@, Seq::empty(), clusters);
    nesting::lemma_forests_join(cpus, cpu::cpu_map(cpu_clusters));
    nesting::lemma_node_is_forest(
        "cpus"@,
        seq![Op::PropertyU32("#address-cells"@, 1), Op::PropertyU32("#size-cells"@, 0)],
        cpus + cpu::cpu_map(cpu_clusters),
    );
}

/// Memory and CPUs, with what they come with, nest properly.
pub proof fn lemma_core_is_forest(guest: Guest)
    ensures
        nesting::is_forest(tree::core_nodes(guest)),
{
    let memory_ops = memory::memory_node(guest.layout, guest.mem_size, guest.second_vm);
    let resv = memory::resv_memory_node(
        guest.layout,
        guest.swiotlb,
        guest.page_size,
        platform::platform_device(guest.platform_info),
        guest.second_vm,
    );
    let cpus = cpu::cpus_node(guest.num_cpus, guest.cpu_clusters, guest.cpu_capacity);
    let gic = interrupts::gic_node(guest.layout, guest.is_gicv3, guest.num_cpus as u64);
    let timer = interrupts::timer_node(guest.num_cpus);
    let pmu = tree::pmu_nodes(guest);
    lemma_memory_is_forest(guest);
    lemma_cpus_is_forest(guest.num_cpus, guest.cpu_clusters, guest.cpu_capacity);
    lemma_leaf_is_forest(gic);
    lemma_leaf_is_forest(timer);
    lemma_leaf_is_forest(interrupts::pmu_node(guest.layout, guest.num_cpus));
    nesting::lemma_empty_is_forest();
    nesting::lemma_forests_join(memory_ops, resv);
    nesting::lemma_forests_join(memory_ops + resv, cpus);
    nesting::lemma_forests_join(memory_ops + resv + cpus, gic);
    nesting::lemma_forests_join(memory_ops + resv + cpus + gic, timer);
    nesting::lemma_forests_join(memory_ops + resv + cpus + gic + timer, pmu);
}

/// The serial ports and the real time clock nest properly.
pub proof fn lemma_peripherals_are_forests(layout: Layout)
    ensures
        nesting::is_forest(peripherals::serial_nodes(layout)),
        nesting::is_forest(peripherals::rtc_nodes(layout)),
{
    let first = peripherals::serial_node(layout, layout.serial_addr[0], layout.serial_1_3_irq);
    let second = peripherals::serial_node(layout, layout.serial_addr[1], layout.serial_2_4_irq);
    let third = peripherals::serial_node(layout, layout.serial_addr[2], layout.serial_1_3_irq);
    let fourth = peripherals::serial_node(layout, layout.serial_addr[3], layout.serial_2_4_irq);
    lemma_leaf_is_forest(first);
    lemma_leaf_is_forest(second);
    lemma_leaf_is_forest(third);
    lemma_leaf_is_forest(fourth);
    nesting::lemma_forests_join(first, second);
    nesting::lemma_forests_join(first + second, third);
    nesting::lemma_forests_join(first + second + third, fourth);

    let clock = peripherals::rtc_clock_node();
    let rest = peripherals::rtc_nodes(layout).skip(clock.len() as int);
    lemma_leaf_is_forest(clock);
    assert(peripherals::rtc_nodes(layout) =~= clock + rest);
    lemma_leaf_is_forest(rest);
    nesting::lemma_forests_join(clock, rest);
}

/// The devices that the machine emulates nest properly.
pub proof fn lemma_devices_are_forest(guest: Guest)
    ensures
        nesting::is_forest(tree::device_nodes(guest)),
{
    let serial = peripherals::serial_nodes(guest.layout);
    let psci_ops = psci::psci_node(guest.psci_version);
    let pci_ops = pci::pci_node(
        guest.pci_irqs,
        guest.pci_cfg,
        guest.pci_ranges,
        memory::dma_pool_phandle(guest.swiotlb),
    );
    let rtc = peripherals::rtc_nodes(guest.layout);
    lemma_peripherals_are_forests(guest.layout);
    lemma_leaf_is_forest(psci_ops);
    lemma_leaf_is_forest(pci_ops);
    nesting::lemma_forests_join(serial, psci_ops);
    nesting::lemma_forests_join(serial + psci_ops, pci_ops);
    nesting::lemma_forests_join(serial + psci_ops + pci_ops, rtc);
}

/// The IOMMUs and the clock of a device nest properly.
pub proof fn lemma_companion_parts_are_forests(device: Option<Passthrough>)
    ensures
        nesting::is_forest(platform::iommu_nodes(device)),
        nesting::is_forest(platform::fake_clock_nodes(device)),
{
    let iommu = platform::iommu_nodes(device);
    let clock = platform::fake_clock_nodes(device);
    nesting::lemma_empty_is_forest();
    match device {
        Some(Passthrough::Edgetpu) => {
            let first = iommu.take(6);
            let second = iommu.skip(6);
            assert(iommu =~= first + second);
            lemma_leaf_is_forest(first);
            lemma_leaf_is_forest(second);
            nesting::lemma_forests_join(first, second);
        },
        Some(Passthrough::Rknpu) => {
            lemma_leaf_is_forest(iommu);
            lemma_leaf_is_forest(clock);
        },
        None => {},
    }
}

/// What a device that is passed through needs nests properly.
pub proof fn lemma_companions_are_forest(guest: Guest)
    ensures
        nesting::is_forest(tree::companion_nodes(guest)),
{
    let device = platform::platform_device(guest.platform_info);
    lemma_companion_parts_are_forests(device);
    nesting::lemma_forests_join(
        platform::iommu_nodes(device),
        platform::fake_clock_nodes(device),
    );
}

proof fn lemma_copied_entry(
    rows: Seq<(Seq<char>, PropertyAction)>,
    entry: OfEntry,
    count: nat,
)
    ensures
        nesting::all_properties(platform::copied_entry(rows, entry, count).0),
    decreases count,
{
    if count > 0 {
        lemma_copied_entry(rows, entry, (count - 1) as nat);
    }
}

/// What is copied is properties only.
pub proof fn lemma_copied_entries(
    rows: Seq<(Seq<char>, PropertyAction)>,
    entries: Seq<OfEntry>,
    count: nat,
)
    ensures
        nesting::all_properties(platform::copied_entries(rows, entries, count).0),
    decreases count,
{
    if count > 0 {
        lemma_copied_entries(rows, entries, (count - 1) as nat);
        lemma_copied_entry(rows, entries[count - 1], rows.len());
    }
}

/// A device that is passed through nests properly, unless an error stops the
/// work.
pub proof fn lemma_vfio_platform_node_is_forest(
    sysfspath: Seq<char>,
    ranges: Seq<(u64, u64)>,
    irqs: Seq<(u32, u32)>,
    plat_device_base: u64,
    of_node: OfNode,
)
    requires
        platform::vfio_platform_node(sysfspath, ranges, irqs, plat_device_base, of_node).1 is None,
    ensures
        nesting::is_forest(
            platform::vfio_platform_node(sysfspath, ranges, irqs, plat_device_base, of_node).0,
        ),
{
    let device = platform::device_at(sysfspath)->0;
    let rows = platform::copy_table(device);
    let entries = (of_node.entries->0)@;
    let whole = platform::vfio_platform_node(sysfspath, ranges, irqs, plat_device_base, of_node).0;
    let clock = platform::clock_controller(device, ranges, plat_device_base);
    let first = whole.take(whole.len() - clock.len());
    lemma_copied_entries(rows, entries, entries.len());
    assert(whole =~= first + clock);
    lemma_leaf_is_forest(first);
    lemma_leaf_is_forest(clock);
    nesting::lemma_forests_join(first, clock);
}

proof fn lemma_vfio_platform_nodes(
    platform_info: Seq<PlatformInfo>,
    of_nodes: Seq<OfNode>,
    plat_device_base: u64,
    count: nat,
)
    requires
        platform::vfio_platform_nodes(platform_info, of_nodes, plat_device_base, count).1 is None,
    ensures
        nesting::is_forest(
            platform::vfio_platform_nodes(platform_info, of_nodes, plat_device_base, count).0,
        ),
    decreases count,
{
    if count == 0 {
        nesting::lemma_empty_is_forest();
    } else {
        let rest = (count - 1) as nat;
        let info = platform_info[count - 1];
        lemma_vfio_platform_nodes(platform_info, of_nodes, plat_device_base, rest);
        lemma_vfio_platform_node_is_forest(
            info.0@,
            info.1@,
            info.2@,
            plat_device_base,
            of_nodes[count - 1],
        );
        nesting::lemma_forests_join(
            platform::vfio_platform_nodes(platform_info, of_nodes, plat_device_base, rest).0,
            platform::vfio_platform_node(
                info.0@,
                info.1@,
                info.2@,
                plat_device_base,
                of_nodes[count - 1],
            ).0,
        );
    }
}

/// The bus of the devices that are passed through nests properly, unless an
/// error stops the work.
pub proof fn lemma_vfio_platform_bus_is_forest(
    platform_info: Seq<PlatformInfo>,
    of_nodes: Seq<OfNode>,
    plat_device_base: u64,
    plat_device_size: u64,
)
    requires
        platform::vfio_platform_bus(
            platform_info,
            of_nodes,
            plat_device_base,
            plat_device_size,
        ).1 is None,
    ensures
        nesting::is_forest(
            platform::vfio_platform_bus(
                platform_info,
                of_nodes,
                plat_device_base,
                plat_device_size,
            ).0,
        ),
{
    let count = platform_info.len();
    lemma_vfio_platform_nodes(platform_info, of_nodes, plat_device_base, count);
    nesting::lemma_node_is_forest(
        "/platform@"@ + text::hex(plat_device_base as nat),
        platform::bus_properties(plat_device_base, plat_device_size),
        platform::vfio_platform_nodes(platform_info, of_nodes, plat_device_base, count).0,
    );
}

/// A device tree that no error stops is one tree: every node that is opened is
/// closed in turn, all nodes are below one root, and every node has its
/// properties before its children.
#[verifier::spinoff_prover]
#[verifier::rlimit(60)]
pub proof fn lemma_guest_tree_is_tree(guest: Guest)
    requires
        tree::guest_tree(guest).1 is None,
    ensures
        nesting::is_tree(tree::guest_tree(guest).0),
{
    let android = tree::android_nodes(guest.android_fstab);
    let chosen_ops = tree::chosen_part(guest).0;
    let core = tree::core_nodes(guest);
    let devices = tree::device_nodes(guest);
    let bus = tree::platform_part(guest).0;
    let companions = tree::companion_nodes(guest);
    nesting::lemma_empty_is_forest();
    nesting::lemma_android_is_forest();
    lemma_leaf_is_forest(chosen_ops);
    lemma_core_is_forest(guest);
    lemma_devices_are_forest(guest);
    lemma_vfio_platform_bus_is_forest(
        guest.platform_info,
        guest.of_nodes,
        guest.plat_device_base,
        guest.plat_device_size,
    );
    lemma_companions_are_forest(guest);
    nesting::lemma_forests_join(android, chosen_ops);
    nesting::lemma_forests_join(android + chosen_ops, core);
    nesting::lemma_forests_join(android + chosen_ops + core, devices);
    nesting::lemma_forests_join(android + chosen_ops + core + devices, bus);
    nesting::lemma_forests_join(android + chosen_ops + core + devices + bus, companions);
    nesting::lemma_node_is_tree(""@, tree::root_properties(), tree::root_children(guest));
}

} // verus!
