//! The whole device tree, and where it goes.

use std::collections::BTreeMap;

use vstd::prelude::*;

use crate::board;
use crate::board::{Error, Layout};
use crate::chosen;
use crate::chosen::Seeds;
use crate::cpu;
use crate::interrupts;
use crate::lookup;
use crate::memory;
use crate::nesting;
use crate::pci;
use crate::pci::{PciConfigRegion, PciIrq, PciRange};
use crate::peripherals;
use crate::platform;
use crate::platform::{OfNode, PlatformInfo};
use crate::psci;
use crate::psci::PsciVersion;
use crate::script::{FdtScript, Op};
use crate::whole;

verus! {

/// All that a device tree depends on.
pub struct Guest {
    pub layout: Layout,
    pub mem_size: u64,
    pub page_size: u64,
    pub pci_irqs: Seq<PciIrq>,
    pub pci_cfg: PciConfigRegion,
    pub pci_ranges: Seq<PciRange>,
    pub num_cpus: u32,
    pub cpu_clusters: Seq<Vec<usize>>,
    pub cpu_capacity: Map<usize, u32>,
    pub cmdline: Seq<char>,
    pub seeds: Seeds,
    pub initrd: Option<(u64, usize)>,
    pub android_fstab: bool,
    pub is_gicv3: bool,
    pub use_pmu: bool,
    pub psci_version: PsciVersion,
    pub swiotlb: Option<u64>,
    pub platform_info: Seq<PlatformInfo>,
    pub of_nodes: Seq<OfNode>,
    pub plat_device_base: u64,
    pub plat_device_size: u64,
    pub second_vm: bool,
}

/// The properties of the root.
pub open spec fn root_properties() -> Seq<Op> {
    seq![
        Op::PropertyU32("interrupt-parent"@, board::PHANDLE_GIC),
        Op::PropertyString("compatible"@, "linux,dummy-virt"@),
        Op::PropertyU32("#address-cells"@, 2),
        Op::PropertyU32("#size-cells"@, 2),
    ]
}

/// The nodes of the Android file system table, where there is one.
pub open spec fn android_nodes(android_fstab: bool) -> Seq<Op> {
    if android_fstab {
        seq![Op::AndroidFstab]
    } else {
        Seq::empty()
    }
}

/// The performance monitoring unit, where it is used.
pub open spec fn pmu_nodes(guest: Guest) -> Seq<Op> {
    if guest.use_pmu {
        interrupts::pmu_node(guest.layout, guest.num_cpus)
    } else {
        Seq::empty()
    }
}

/// Memory and CPUs, with what they come with.
pub open spec fn core_nodes(guest: Guest) -> Seq<Op> {
    memory::memory_node(guest.layout, guest.mem_size, guest.second_vm) + memory::resv_memory_node(
        guest.layout,
        guest.swiotlb,
        guest.page_size,
        platform::platform_device(guest.platform_info),
        guest.second_vm,
    ) + cpu::cpus_node(guest.num_cpus, guest.cpu_clusters, guest.cpu_capacity)
        + interrupts::gic_node(guest.layout, guest.is_gicv3, guest.num_cpus as u64)
        + interrupts::timer_node(guest.num_cpus) + pmu_nodes(guest)
}

/// The devices that the machine emulates.
pub open spec fn device_nodes(guest: Guest) -> Seq<Op> {
    peripherals::serial_nodes(guest.layout) + psci::psci_node(guest.psci_version) + pci::pci_node(
        guest.pci_irqs,
        guest.pci_cfg,
        guest.pci_ranges,
        memory::dma_pool_phandle(guest.swiotlb),
    ) + peripherals::rtc_nodes(guest.layout)
}

/// What a device that is passed through needs besides its own node.
pub open spec fn companion_nodes(guest: Guest) -> Seq<Op> {
    platform::iommu_nodes(platform::platform_device(guest.platform_info))
        + platform::fake_clock_nodes(platform::platform_device(guest.platform_info))
}

/// What is written for the chosen node.
pub open spec fn chosen_part(guest: Guest) -> (Seq<Op>, Option<Error>) {
    chosen::chosen_node(guest.layout, guest.cmdline, guest.seeds, guest.initrd)
}

/// What is written for the devices that are passed through.
pub open spec fn platform_part(guest: Guest) -> (Seq<Op>, Option<Error>) {
    platform::vfio_platform_bus(
        guest.platform_info,
        guest.of_nodes,
        guest.plat_device_base,
        guest.plat_device_size,
    )
}

/// All nodes below the root.
pub open spec fn root_children(guest: Guest) -> Seq<Op> {
    android_nodes(guest.android_fstab) + chosen_part(guest).0 + core_nodes(guest) + device_nodes(
        guest,
    ) + platform_part(guest).0 + companion_nodes(guest)
}

/// What is written for the whole tree, and the error that stops the work.
pub open spec fn guest_tree(guest: Guest) -> (Seq<Op>, Option<Error>) {
    let begin = seq![Op::BeginNode(""@)] + root_properties() + android_nodes(guest.android_fstab);
    let (chosen, chosen_error) = chosen_part(guest);
    let (bus, bus_error) = platform_part(guest);
    if chosen_error is Some {
        (begin + chosen, chosen_error)
    } else if bus_error is Some {
        (begin + chosen + core_nodes(guest) + device_nodes(guest) + bus, bus_error)
    } else {
        (nesting::node(""@, root_properties(), root_children(guest)), None)
    }
}

/// Both seeds were read.
pub open spec fn seeds_read(seeds: Seeds) -> bool {
    seeds.kaslr_seed is Some && seeds.rng_seed is Some
}

/// The parameters of a tree are in range. Where a seed is missing, they do not
/// matter.
pub open spec fn parameters_fit(
    layout: Layout,
    pci_irqs: Seq<PciIrq>,
    num_cpus: u32,
    cpu_clusters: Seq<Vec<usize>>,
    seeds: Seeds,
    initrd: Option<(u64, usize)>,
    is_gicv3: bool,
    platform_info: Seq<PlatformInfo>,
    of_nodes: Seq<OfNode>,
    plat_device_base: u64,
) -> bool {
    seeds_read(seeds) ==> {
        &&& chosen::initrd_fits(initrd)
        &&& cpu::cpus_fit(num_cpus, cpu_clusters)
        &&& interrupts::redistributors_fit(layout, is_gicv3, num_cpus as u64)
        &&& num_cpus < 32
        &&& pci::pins_fit(pci_irqs)
        &&& platform::all_describable(platform_info, of_nodes, plat_device_base)
    }
}

/// Whether the parameters of a tree are in range, as [`create_fdt`] requires.
pub fn check_parameters(
    layout: &Layout,
    pci_irqs: &Vec<PciIrq>,
    num_cpus: u32,
    cpu_clusters: &Vec<Vec<usize>>,
    seeds: &Seeds,
    initrd: Option<(u64, usize)>,
    is_gicv3: bool,
    platform_info: &Vec<PlatformInfo>,
    of_nodes: &Vec<OfNode>,
    plat_device_base: u64,
) -> (result: bool)
    ensures
        result == parameters_fit(
            *layout,
            pci_irqs@,
            num_cpus,
            cpu_clusters@,
            *seeds,
            initrd,
            is_gicv3,
            platform_info@,
            of_nodes@,
            plat_device_base,
        ),
{
    if seeds.kaslr_seed.is_none() || seeds.rng_seed.is_none() {
        return true;
    }
    chosen::check_initrd(initrd) && num_cpus < 32 && cpu::check_cpus(num_cpus, cpu_clusters)
        && interrupts::check_redistributors(layout, is_gicv3, num_cpus as u64)
        && pci::check_pins(pci_irqs) && platform::check_devices(
        platform_info,
        of_nodes,
        plat_device_base,
    )
}

/// Describes memory and CPUs, with what they come with. Returns what refers to
/// the pool that DMA is restricted to.
fn create_core_nodes(
    fdt: &mut FdtScript,
    Ghost(guest): Ghost<Guest>,
    layout: &Layout,
    mem_size: u64,
    page_size: u64,
    num_cpus: u32,
    cpu_clusters: &Vec<Vec<usize>>,
    cpu_capacity: &BTreeMap<usize, u32>,
    is_gicv3: bool,
    use_pmu: bool,
    swiotlb: Option<u64>,
    platform_info: &Vec<PlatformInfo>,
    second_vm: bool,
) -> (phandle: Option<u32>)
    requires
        cpu::cpus_fit(num_cpus, cpu_clusters@),
        interrupts::redistributors_fit(*layout, is_gicv3, num_cpus as u64),
        num_cpus < 32,
        guest.layout == *layout,
        guest.mem_size == mem_size,
        guest.page_size == page_size,
        guest.num_cpus == num_cpus,
        guest.cpu_clusters == cpu_clusters@,
        guest.cpu_capacity == cpu_capacity@,
        guest.is_gicv3 == is_gicv3,
        guest.use_pmu == use_pmu,
        guest.swiotlb == swiotlb,
        guest.platform_info == platform_info@,
        guest.second_vm == second_vm,
    ensures
        final(fdt)@ == old(fdt)@ + core_nodes(guest),
        phandle == memory::dma_pool_phandle(swiotlb),
{
    let ghost start = fdt@;
    let ghost memory_ops = memory::memory_node(*layout, mem_size, second_vm);
    let ghost resv = memory::resv_memory_node(
        *layout,
        swiotlb,
        page_size,
        platform::platform_device(platform_info@),
        second_vm,
    );
    let ghost cpus = cpu::cpus_node(num_cpus, cpu_clusters@, cpu_capacity@);
    let ghost gic = interrupts::gic_node(*layout, is_gicv3, num_cpus as u64);
    let ghost timer = interrupts::timer_node(num_cpus);
    memory::create_memory_node(fdt, layout, mem_size, second_vm);
    let dma_pool_phandle = memory::create_resv_memory_node(
        fdt,
        layout,
        swiotlb,
        page_size,
        platform_info,
        second_vm,
    );
    cpu::create_cpu_nodes(fdt, num_cpus, cpu_clusters, cpu_capacity);
    interrupts::create_gic_node(fdt, layout, is_gicv3, num_cpus as u64);
    interrupts::create_timer_node(fdt, num_cpus);
    if use_pmu {
        interrupts::create_pmu_node(fdt, layout, num_cpus);
    }
    proof {
        let most = memory_ops + resv + cpus + gic + timer;
        assert(start + most =~= start + memory_ops + resv + cpus + gic + timer);
        nesting::lemma_grouping(start, most, pmu_nodes(guest));
        assert(start + most + Seq::<Op>::empty() =~= start + most);
    }
    dma_pool_phandle
}

/// Opens the root and writes its properties.
fn begin_root(fdt: &mut FdtScript, android_fstab: bool)
    ensures
        final(fdt)@ == old(fdt)@ + (seq![Op::BeginNode(""@)] + root_properties() + android_nodes(
            android_fstab,
        )),
{
    // The whole thing is put into one giant node with some top level properties
    fdt.begin_node("");
    fdt.property_u32("interrupt-parent", board::PHANDLE_GIC);
    fdt.property_string("compatible", "linux,dummy-virt");
    fdt.property_u32("#address-cells", 0x2);
    fdt.property_u32("#size-cells", 0x2);
    if android_fstab {
        fdt.android_fstab();
    }
    assert(fdt@ =~= old(fdt)@ + (seq![Op::BeginNode(""@)] + root_properties() + android_nodes(
        android_fstab,
    )));
}

/// Describes the devices that the machine emulates.
fn create_device_nodes(
    fdt: &mut FdtScript,
    Ghost(guest): Ghost<Guest>,
    layout: &Layout,
    psci_version: &PsciVersion,
    pci_irqs: &Vec<PciIrq>,
    pci_cfg: PciConfigRegion,
    pci_ranges: &[PciRange],
    dma_pool_phandle: Option<u32>,
)
    requires
        pci::pins_fit(pci_irqs@),
        guest.layout == *layout,
        guest.psci_version == *psci_version,
        guest.pci_irqs == pci_irqs@,
        guest.pci_cfg == pci_cfg,
        guest.pci_ranges == pci_ranges@,
        dma_pool_phandle == memory::dma_pool_phandle(guest.swiotlb),
    ensures
        final(fdt)@ == old(fdt)@ + device_nodes(guest),
{
    let ghost start = fdt@;
    let ghost serial = peripherals::serial_nodes(guest.layout);
    let ghost psci_ops = psci::psci_node(guest.psci_version);
    let ghost pci_ops = pci::pci_node(
        guest.pci_irqs,
        guest.pci_cfg,
        guest.pci_ranges,
        dma_pool_phandle,
    );
    peripherals::create_serial_nodes(fdt, layout);
    psci::create_psci_node(fdt, psci_version);
    pci::create_pci_nodes(fdt, pci_irqs, pci_cfg, pci_ranges, dma_pool_phandle);
    peripherals::create_rtc_node(fdt, layout);
    proof {
        nesting::lemma_grouping(start, serial, psci_ops);
        nesting::lemma_grouping(start, serial + psci_ops, pci_ops);
        nesting::lemma_grouping(
            start,
            serial + psci_ops + pci_ops,
            peripherals::rtc_nodes(guest.layout),
        );
    }
}

/// All parts, written in a row and closed, are the root with its children.
proof fn lemma_root_closes(
    start: Seq<Op>,
    android: Seq<Op>,
    chosen_ops: Seq<Op>,
    core: Seq<Op>,
    devices: Seq<Op>,
    bus: Seq<Op>,
    iommu: Seq<Op>,
    clock: Seq<Op>,
)
    ensures
        (start + (seq![Op::BeginNode(""@)] + root_properties() + android + chosen_ops + core
            + devices + bus) + iommu + clock).push(Op::EndNode) == start + nesting::node(
            ""@,
            root_properties(),
            android + chosen_ops + core + devices + bus + (iommu + clock),
        ),
{
    let properties = root_properties();
    assert((start + (seq![Op::BeginNode(""@)] + properties + android + chosen_ops + core + devices
        + bus) + iommu + clock).push(Op::EndNode) =~= start + nesting::node(
        ""@,
        properties,
        android + chosen_ops + core + devices + bus + (iommu + clock),
    ));
}

/// The kernel is told of the command line and of the memory of its guest.
proof fn lemma_told(guest: Guest)
    requires
        guest_tree(guest).1 is None,
        chosen::initrd_fits(guest.initrd),
    ensures
        lookup::tells(
            guest_tree(guest).0,
            seq![""@, "chosen"@],
            Op::PropertyString("bootargs"@, guest.cmdline),
        ),
        lookup::tells(
            guest_tree(guest).0,
            seq![""@, "memory"@],
            Op::PropertyArrayU64(
                "reg"@,
                seq![
                    if guest.second_vm {
                        guest.layout.phys_mem_start_second
                    } else {
                        guest.layout.phys_mem_start
                    },
                    guest.mem_size,
                ],
            ),
        ),
{
    whole::lemma_command_line(guest);
    let reg = whole::lemma_tree_memory(guest);
    assert(reg =~= seq![
        if guest.second_vm {
            guest.layout.phys_mem_start_second
        } else {
            guest.layout.phys_mem_start
        },
        guest.mem_size,
    ]);
}

/// Describes the machine to the kernel.
///
/// # Arguments
///
/// * `fdt` - The script that the description is added to
/// * `layout` - The memory map of the board
/// * `mem_size` - The size of guest memory
/// * `page_size` - The size of the host's pages
/// * `pci_irqs` - List of PCI device address to PCI interrupt number and pin mappings
/// * `pci_cfg` - Location of the memory-mapped PCI configuration space.
/// * `pci_ranges` - Memory ranges accessible via the PCI host controller.
/// * `num_cpus` - Number of virtual CPUs the guest will have
/// * `cpu_clusters` - The CPUs of each cluster
/// * `cpu_capacity` - The capacities of the CPUs that have one
/// * `cmdline` - The kernel commandline
/// * `seeds` - Random bytes for the kernel
/// * `initrd` - An optional tuple of initrd guest physical address and size
/// * `android_fstab` - True if there is an Android file system table
/// * `is_gicv3` - True if gicv3, false if v2
/// * `use_pmu` - True if the performance monitoring unit is used
/// * `psci_version` - the current PSCI version
/// * `swiotlb` - The size of the pool that DMA is restricted to
/// * `platform_info` - The devices that are passed through
/// * `of_nodes` - What was found at the paths of these devices
/// * `plat_device_base` - Start of the memory of these devices
/// * `plat_device_size` - Size of the memory of these devices
/// * `second_vm` - True for the second virtual machine
#[verifier::spinoff_prover]
#[verifier::rlimit(60)]
pub fn create_fdt(
    fdt: &mut FdtScript,
    layout: &Layout,
    mem_size: u64,
    page_size: u64,
    pci_irqs: &Vec<PciIrq>,
    pci_cfg: PciConfigRegion,
    pci_ranges: &[PciRange],
    num_cpus: u32,
    cpu_clusters: &Vec<Vec<usize>>,
    cpu_capacity: &BTreeMap<usize, u32>,
    cmdline: &str,
    seeds: &Seeds,
    initrd: Option<(u64, usize)>,
    android_fstab: bool,
    is_gicv3: bool,
    use_pmu: bool,
    psci_version: PsciVersion,
    swiotlb: Option<u64>,
    platform_info: &Vec<PlatformInfo>,
    of_nodes: &Vec<OfNode>,
    plat_device_base: u64,
    plat_device_size: u64,
    second_vm: bool,
) -> (result: Result<(), Error>)
    requires
        parameters_fit(
            *layout,
            pci_irqs@,
            num_cpus,
            cpu_clusters@,
            *seeds,
            initrd,
            is_gicv3,
            platform_info@,
            of_nodes@,
            plat_device_base,
        ),
    ensures
        ({
            let guest = Guest {
                layout: *layout,
                mem_size,
                page_size,
                pci_irqs: pci_irqs@,
                pci_cfg,
                pci_ranges: pci_ranges@,
                num_cpus,
                cpu_clusters: cpu_clusters@,
                cpu_capacity: cpu_capacity@,
                cmdline: cmdline@,
                seeds: *seeds,
                initrd,
                android_fstab,
                is_gicv3,
                use_pmu,
                psci_version,
                swiotlb,
                platform_info: platform_info@,
                of_nodes: of_nodes@,
                plat_device_base,
                plat_device_size,
                second_vm,
            };
            let (ops, error) = guest_tree(guest);
            final(fdt)@ == old(fdt)@ + ops && board::reports(result, error)
        }),
        old(fdt)@.len() == 0 && result is Ok ==> lookup::tells(
            final(fdt)@,
            seq![""@, "chosen"@],
            Op::PropertyString("bootargs"@, cmdline@),
        ),
        old(fdt)@.len() == 0 && result is Ok ==> lookup::tells(
            final(fdt)@,
            seq![""@, "memory"@],
            Op::PropertyArrayU64(
                "reg"@,
                seq![
                    if second_vm {
                        layout.phys_mem_start_second
                    } else {
                        layout.phys_mem_start
                    },
                    mem_size,
                ],
            ),
        ),
{
    let ghost guest = Guest {
        layout: *layout,
        mem_size,
        page_size,
        pci_irqs: pci_irqs@,
        pci_cfg,
        pci_ranges: pci_ranges@,
        num_cpus,
        cpu_clusters: cpu_clusters@,
        cpu_capacity: cpu_capacity@,
        cmdline: cmdline@,
        seeds: *seeds,
        initrd,
        android_fstab,
        is_gicv3,
        use_pmu,
        psci_version,
        swiotlb,
        platform_info: platform_info@,
        of_nodes: of_nodes@,
        plat_device_base,
        plat_device_size,
        second_vm,
    };
    let ghost start = fdt@;
    let ghost begin = seq![Op::BeginNode(""@)] + root_properties() + android_nodes(android_fstab);
    begin_root(fdt, android_fstab);

    let ghost chosen_ops = chosen_part(guest).0;
    let result = chosen::create_chosen_node(fdt, layout, cmdline, seeds, initrd);
    proof {
        nesting::lemma_grouping(start, begin, chosen_ops);
    }
    if result.is_err() {
        return result;
    }
    let dma_pool_phandle = create_core_nodes(
        fdt,
        Ghost(guest),
        layout,
        mem_size,
        page_size,
        num_cpus,
        cpu_clusters,
        cpu_capacity,
        is_gicv3,
        use_pmu,
        swiotlb,
        platform_info,
        second_vm,
    );
    let ghost with_core = begin + chosen_ops + core_nodes(guest);
    proof {
        nesting::lemma_grouping(start, begin + chosen_ops, core_nodes(guest));
    }
    create_device_nodes(
        fdt,
        Ghost(guest),
        layout,
        &psci_version,
        pci_irqs,
        pci_cfg,
        pci_ranges,
        dma_pool_phandle,
    );
    let ghost with_devices = with_core + device_nodes(guest);
    proof {
        nesting::lemma_grouping(start, with_core, device_nodes(guest));
    }
    let result = platform::create_vfio_platform_bus(
        fdt,
        platform_info,
        plat_device_base,
        plat_device_size,
        of_nodes,
    );
    let ghost bus = platform_part(guest).0;
    proof {
        nesting::lemma_grouping(start, with_devices, bus);
    }
    if result.is_err() {
        return result;
    }
    platform::create_iommu_node(fdt, platform_info);
    platform::create_fake_clock_node(fdt, platform_info);
    // End giant node
    fdt.end_node();
    proof {
        let device = platform::platform_device(guest.platform_info);
        lemma_root_closes(
            start,
            android_nodes(android_fstab),
            chosen_ops,
            core_nodes(guest),
            device_nodes(guest),
            bus,
            platform::iommu_nodes(device),
            platform::fake_clock_nodes(device),
        );
        if start.len() == 0 {
            assert(start + guest_tree(guest).0 =~= guest_tree(guest).0);
            lemma_told(guest);
        }
    }
    Ok(())
}

/// The address at which the device tree is loaded, `fdt_load_offset` bytes into
/// guest memory.
pub fn fdt_address(layout: &Layout, fdt_load_offset: u64, second_vm: bool) -> (address: u64)
    requires
        memory::mem_start(*layout, second_vm) + fdt_load_offset <= u64::MAX,
    ensures
        address == memory::mem_start(*layout, second_vm) + fdt_load_offset,
        second_vm ==> address == layout.phys_mem_start_second + fdt_load_offset,
        !second_vm ==> address == layout.phys_mem_start + fdt_load_offset,
{
    if second_vm {
        layout.phys_mem_start_second + fdt_load_offset
    } else {
        layout.phys_mem_start + fdt_load_offset
    }
}

/// Whether the device tree was loaded: `written` bytes of it were written to
/// guest memory, or none where writing failed. All of the space that is reserved
/// for it has to be.
pub fn check_written(written: Option<usize>, fdt_max_size: usize) -> (result: Result<(), Error>)
    ensures
        board::reports(
            result,
            if written matches Some(count) && count >= fdt_max_size {
                None
            } else {
                Some(Error::FdtGuestMemoryWriteError)
            },
        ),
{
    match written {
        None => Err(Error::FdtGuestMemoryWriteError),
        Some(count) => if count < fdt_max_size {
            Err(Error::FdtGuestMemoryWriteError)
        } else {
            Ok(())
        },
    }
}

} // verus!
