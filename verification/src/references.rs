//! Nodes refer to each other by number: every number that is defined is defined
//! once, and every number that is referred to is defined. What the Android nodes
//! define or refer to is not counted.

use vstd::prelude::*;

use crate::board;
use crate::chosen;
use crate::cpu;
use crate::interrupts;
use crate::memory;
use crate::nesting;
use crate::pci;
use crate::peripherals;
use crate::platform;
use crate::platform::{OfEntry, OfNode, Passthrough, PlatformInfo, PropertyAction};
use crate::psci;
use crate::script::Op;
use crate::text;
use crate::tree;
use crate::tree::Guest;

verus! {

/// What a property says about the number in its one cell.
pub enum Role {
    /// The node has this number.
    Definition,
    /// The node refers to the node that has this number.
    Reference,
}

/// A property of the given name plays the role.
pub open spec fn plays(role: Role, name: Seq<char>) -> bool {
    match role {
        Role::Definition => name == "phandle"@,
        Role::Reference => {
            ||| name == "interrupt-parent"@
            ||| name == "memory-region"@
            ||| name == "iommus"@
            ||| name == "samsung,iommu-group"@
            ||| name == "clocks"@
            ||| name == "cpu"@
        },
    }
}

/// The step writes a property that plays the role.
pub open spec fn hits(role: Role, op: Op) -> bool {
    op matches Op::PropertyU32(name, _) && plays(role, name)
}

/// The numbers, in order, in the properties that play the role.
pub open spec fn numbers(role: Role, ops: Seq<Op>) -> Seq<u32>
    decreases ops.len(),
{
    if ops.len() == 0 {
        Seq::empty()
    } else if hits(role, ops.last()) {
        numbers(role, ops.drop_last()).push(ops.last()->PropertyU32_1)
    } else {
        numbers(role, ops.drop_last())
    }
}

/// The numbers of two scripts in a row.
pub proof fn lemma_numbers_concat(role: Role, first: Seq<Op>, second: Seq<Op>)
    ensures
        numbers(role, first + second) == numbers(role, first) + numbers(role, second),
    decreases second.len(),
{
    if second.len() == 0 {
        assert(first + second =~= first);
        assert(numbers(role, first) + numbers(role, second) =~= numbers(role, first));
    } else {
        lemma_numbers_concat(role, first, second.drop_last());
        assert((first + second).drop_last() =~= first + second.drop_last());
        assert(numbers(role, first + second) =~= numbers(role, first) + numbers(role, second));
    }
}

/// A script in which nothing plays the role.
proof fn lemma_numbers_none(role: Role, ops: Seq<Op>)
    requires
        forall|i: int| 0 <= i < ops.len() ==> !hits(role, #[trigger] ops[i]),
    ensures
        numbers(role, ops) == Seq::<u32>::empty(),
    decreases ops.len(),
{
    if ops.len() > 0 {
        assert forall|i: int| 0 <= i < ops.drop_last().len() implies !hits(
            role,
            #[trigger] ops.drop_last()[i],
        ) by {
            assert(ops.drop_last()[i] == ops[i]);
        }
        lemma_numbers_none(role, ops.drop_last());
        assert(!hits(role, ops[ops.len() - 1]));
    }
}

/// A script in which one step plays the role.
proof fn lemma_numbers_one(role: Role, ops: Seq<Op>, at: int)
    requires
        0 <= at < ops.len(),
        hits(role, ops[at]),
        forall|i: int| 0 <= i < ops.len() && i != at ==> !hits(role, #[trigger] ops[i]),
    ensures
        numbers(role, ops) == seq![ops[at]->PropertyU32_1],
{
    let front = ops.take(at);
    let middle = seq![ops[at]];
    let back = ops.skip(at + 1);
    assert(ops =~= front + middle + back);
    lemma_numbers_concat(role, front + middle, back);
    lemma_numbers_concat(role, front, middle);
    lemma_numbers_none(role, front);
    assert forall|i: int| 0 <= i < back.len() implies !hits(role, #[trigger] back[i]) by {
        assert(back[i] == ops[at + 1 + i]);
    }
    lemma_numbers_none(role, back);
    assert(middle.drop_last() =~= Seq::empty());
    assert(numbers(role, middle.drop_last()) =~= Seq::empty());
    assert(numbers(role, middle) =~= seq![ops[at]->PropertyU32_1]);
    assert(numbers(role, ops) =~= seq![ops[at]->PropertyU32_1]);
}

/// The numbers of a node are those of its properties and of its children.
pub proof fn lemma_numbers_node(
    role: Role,
    name: Seq<char>,
    properties: Seq<Op>,
    children: Seq<Op>,
)
    ensures
        numbers(role, nesting::node(name, properties, children)) == numbers(role, properties)
            + numbers(role, children),
{
    let begin = seq![Op::BeginNode(name)];
    let end = seq![Op::EndNode];
    lemma_numbers_none(role, begin);
    lemma_numbers_none(role, end);
    lemma_numbers_concat(role, begin + properties + children, end);
    lemma_numbers_concat(role, begin + properties, children);
    lemma_numbers_concat(role, begin, properties);
    assert(numbers(role, nesting::node(name, properties, children)) =~= numbers(role, properties)
        + numbers(role, children));
}

/// Which names play which role.
proof fn lemma_names()
    ensures
        plays(Role::Definition, "phandle"@),
        !plays(Role::Reference, "phandle"@),
        !plays(Role::Definition, "interrupt-parent"@),
        !plays(Role::Definition, "memory-region"@),
        !plays(Role::Definition, "iommus"@),
        !plays(Role::Definition, "samsung,iommu-group"@),
        !plays(Role::Definition, "clocks"@),
        !plays(Role::Definition, "cpu"@),
        forall|role: Role|
            #![trigger plays(role, "#address-cells"@)]
            !plays(role, "#address-cells"@),
        forall|role: Role| #![trigger plays(role, "#size-cells"@)] !plays(role, "#size-cells"@),
        forall|role: Role|
            #![trigger plays(role, "#interrupt-cells"@)]
            !plays(role, "#interrupt-cells"@),
        forall|role: Role| #![trigger plays(role, "#clock-cells"@)] !plays(role, "#clock-cells"@),
        forall|role: Role| #![trigger plays(role, "#reset-cells"@)] !plays(role, "#reset-cells"@),
        forall|role: Role| #![trigger plays(role, "#iommu-cells"@)] !plays(role, "#iommu-cells"@),
        forall|role: Role| #![trigger plays(role, "reg"@)] !plays(role, "reg"@),
        forall|role: Role|
            #![trigger plays(role, "capacity-dmips-mhz"@)]
            !plays(role, "capacity-dmips-mhz"@),
        forall|role: Role|
            #![trigger plays(role, "clock-frequency"@)]
            !plays(role, "clock-frequency"@),
        forall|role: Role|
            #![trigger plays(role, "arm,primecell-periphid"@)]
            !plays(role, "arm,primecell-periphid"@),
        forall|role: Role|
            #![trigger plays(role, "linux,pci-probe-only"@)]
            !plays(role, "linux,pci-probe-only"@),
        forall|role: Role|
            #![trigger plays(role, "linux,initrd-start"@)]
            !plays(role, "linux,initrd-start"@),
        forall|role: Role|
            #![trigger plays(role, "linux,initrd-end"@)]
            !plays(role, "linux,initrd-end"@),
{
    reveal_strlit("phandle");
    reveal_strlit("interrupt-parent");
    reveal_strlit("memory-region");
    reveal_strlit("iommus");
    reveal_strlit("samsung,iommu-group");
    reveal_strlit("clocks");
    reveal_strlit("cpu");
    reveal_strlit("#address-cells");
    reveal_strlit("#size-cells");
    reveal_strlit("#interrupt-cells");
    reveal_strlit("#clock-cells");
    reveal_strlit("#reset-cells");
    reveal_strlit("#iommu-cells");
    reveal_strlit("reg");
    reveal_strlit("capacity-dmips-mhz");
    reveal_strlit("clock-frequency");
    reveal_strlit("arm,primecell-periphid");
    reveal_strlit("linux,pci-probe-only");
    reveal_strlit("linux,initrd-start");
    reveal_strlit("linux,initrd-end");
    assert("phandle"@.len() == 7);
    assert("interrupt-parent"@.len() == 16);
    assert("memory-region"@.len() == 13);
    assert("iommus"@.len() == 6);
    assert("samsung,iommu-group"@.len() == 19);
    assert("clocks"@.len() == 6);
    assert("cpu"@.len() == 3);
    assert("#address-cells"@.len() == 14);
    assert("#size-cells"@.len() == 11);
    assert("#interrupt-cells"@.len() == 16);
    assert("#clock-cells"@.len() == 12);
    assert("#reset-cells"@.len() == 12);
    assert("#iommu-cells"@.len() == 12);
    assert("reg"@.len() == 3);
    assert("capacity-dmips-mhz"@.len() == 18);
    assert("clock-frequency"@.len() == 15);
    assert("arm,primecell-periphid"@.len() == 22);
    assert("linux,pci-probe-only"@.len() == 20);
    assert("linux,initrd-start"@.len() == 18);
    assert("linux,initrd-end"@.len() == 16);
    assert("reg"@[0] != "cpu"@[0]);
    assert("#interrupt-cells"@[0] != "interrupt-parent"@[0]);
    assert("linux,initrd-end"@[0] != "interrupt-parent"@[0]);
}

/// The numbers that reserved memory defines.
pub open spec fn memory_definitions(guest: Guest) -> Seq<u32> {
    (if guest.swiotlb is Some {
        seq![board::PHANDLE_RESTRICTED_DMA_POOL]
    } else {
        Seq::empty()
    }) + (if platform::platform_device(guest.platform_info) == Some(Passthrough::Edgetpu) {
        seq![board::PHANDLE_EDGETPU_TPU_FW]
    } else {
        Seq::empty()
    })
}

#[verifier::rlimit(40)]
proof fn lemma_memory_roles(guest: Guest, role: Role)
    ensures
        ({
            let device = platform::platform_device(guest.platform_info);
            let plain = memory::memory_node(guest.layout, guest.mem_size, guest.second_vm);
            let resv = memory::resv_memory_node(
                guest.layout,
                guest.swiotlb,
                guest.page_size,
                device,
                guest.second_vm,
            );
            numbers(role, plain + resv) == numbers(
                role,
                memory::dma_pool(guest.swiotlb, guest.page_size),
            ) + numbers(role, memory::tpu_firmware(device))
        }),
{
    lemma_names();
    let device = platform::platform_device(guest.platform_info);
    let plain = memory::memory_node(guest.layout, guest.mem_size, guest.second_vm);
    let resv = memory::resv_memory_node(
        guest.layout,
        guest.swiotlb,
        guest.page_size,
        device,
        guest.second_vm,
    );
    let properties = seq![
        Op::PropertyU32("#address-cells"@, 2),
        Op::PropertyU32("#size-cells"@, 2),
        Op::PropertyNull("ranges"@),
    ];
    let pool = memory::dma_pool(guest.swiotlb, guest.page_size);
    let inference = memory::inference_io(guest.layout, guest.second_vm);
    let firmware = memory::tpu_firmware(device);
    lemma_numbers_none(role, plain);
    lemma_numbers_none(role, properties);
    lemma_numbers_none(role, inference);
    lemma_numbers_concat(role, plain, resv);
    lemma_numbers_concat(role, pool, inference);
    lemma_numbers_concat(role, pool + inference, firmware);
    lemma_numbers_node(role, "reserved-memory"@, properties, pool + inference + firmware);
    assert(numbers(role, plain + resv) =~= numbers(role, pool) + numbers(role, firmware));
}

proof fn lemma_memory_numbers(guest: Guest)
    ensures
        ({
            let plain = memory::memory_node(guest.layout, guest.mem_size, guest.second_vm);
            let resv = memory::resv_memory_node(
                guest.layout,
                guest.swiotlb,
                guest.page_size,
                platform::platform_device(guest.platform_info),
                guest.second_vm,
            );
            &&& numbers(Role::Definition, plain + resv) == memory_definitions(guest)
            &&& numbers(Role::Reference, plain + resv) == Seq::<u32>::empty()
        }),
{
    lemma_names();
    let pool = memory::dma_pool(guest.swiotlb, guest.page_size);
    let firmware = memory::tpu_firmware(platform::platform_device(guest.platform_info));
    lemma_memory_roles(guest, Role::Definition);
    lemma_memory_roles(guest, Role::Reference);
    lemma_numbers_none(Role::Reference, pool);
    lemma_numbers_none(Role::Reference, firmware);
    if pool.len() > 0 {
        lemma_numbers_one(Role::Definition, pool, 1);
    }
    if firmware.len() > 0 {
        lemma_numbers_one(Role::Definition, firmware, 2);
    }
    assert(numbers(Role::Definition, pool) + numbers(Role::Definition, firmware)
        =~= memory_definitions(guest));
}

/// The numbers that the first `count` CPUs define.
pub open spec fn cpu_definitions(count: nat) -> Seq<u32> {
    Seq::new(count, |i: int| (board::PHANDLE_CPU0 + i) as u32)
}

proof fn lemma_cpu_numbers(num_cpus: u32, cpu_capacity: Map<usize, u32>, count: nat)
    requires
        count <= num_cpus,
    ensures
        numbers(Role::Definition, cpu::cpu_nodes(num_cpus, cpu_capacity, count))
            == cpu_definitions(count),
        numbers(Role::Reference, cpu::cpu_nodes(num_cpus, cpu_capacity, count))
            == Seq::<u32>::empty(),
    decreases count,
{
    if count == 0 {
        assert(cpu_definitions(count) =~= Seq::empty());
    } else {
        let rest = cpu::cpu_nodes(num_cpus, cpu_capacity, (count - 1) as nat);
        let last = cpu::cpu_node(num_cpus, cpu_capacity, (count - 1) as u32);
        lemma_names();
        lemma_cpu_numbers(num_cpus, cpu_capacity, (count - 1) as nat);
        lemma_numbers_concat(Role::Definition, rest, last);
        lemma_numbers_concat(Role::Reference, rest, last);
        lemma_numbers_none(Role::Reference, last);
        lemma_numbers_one(Role::Definition, last, if num_cpus > 1 { 5 } else { 4 });
        assert(numbers(Role::Definition, rest + last) =~= cpu_definitions(count));
        assert(numbers(Role::Reference, rest + last) =~= Seq::empty());
    }
}

/// The clusters hold only CPUs that there are.
pub open spec fn clusters_exist(num_cpus: u32, cpu_clusters: Seq<Vec<usize>>) -> bool {
    forall|i: int, k: int|
        0 <= i < cpu_clusters.len() && 0 <= k < cpu_clusters[i].len() ==> cpu::low_cell(
            (#[trigger] cpu_clusters[i][k]) as nat,
        ) < num_cpus
}

/// Every number is that of one of the first `num_cpus` CPUs.
pub open spec fn all_cpus(num_cpus: u32, found: Seq<u32>) -> bool {
    forall|i: int|
        0 <= i < found.len() ==> board::PHANDLE_CPU0 <= (#[trigger] found[i])
            < board::PHANDLE_CPU0 + num_cpus
}

proof fn lemma_core_numbers(num_cpus: u32, cpus: Seq<usize>, count: nat)
    requires
        num_cpus <= u32::MAX - board::PHANDLE_CPU0 + 1,
        count <= cpus.len(),
    ensures
        numbers(Role::Definition, cpu::core_nodes(cpus, count)) == Seq::<u32>::empty(),
        (forall|k: int|
            0 <= k < cpus.len() ==> cpu::low_cell((#[trigger] cpus[k]) as nat) < num_cpus)
            ==> all_cpus(num_cpus, numbers(Role::Reference, cpu::core_nodes(cpus, count))),
    decreases count,
{
    if count > 0 {
        let rest = cpu::core_nodes(cpus, (count - 1) as nat);
        let last = cpu::core_node(cpus, (count - 1) as nat);
        lemma_names();
        lemma_core_numbers(num_cpus, cpus, (count - 1) as nat);
        lemma_numbers_concat(Role::Definition, rest, last);
        lemma_numbers_concat(Role::Reference, rest, last);
        lemma_numbers_none(Role::Definition, last);
        lemma_numbers_one(Role::Reference, last, 1);
        assert(last[1] == Op::PropertyU32(
            "cpu"@,
            (board::PHANDLE_CPU0 + cpu::low_cell(cpus[count - 1] as nat)) as u32,
        ));
        assert(numbers(Role::Definition, rest + last) =~= Seq::empty());
    }
}

proof fn lemma_cluster_numbers(num_cpus: u32, cpu_clusters: Seq<Vec<usize>>, count: nat)
    requires
        num_cpus <= u32::MAX - board::PHANDLE_CPU0 + 1,
        count <= cpu_clusters.len(),
    ensures
        numbers(Role::Definition, cpu::cluster_nodes(cpu_clusters, count)) == Seq::<u32>::empty(),
        clusters_exist(num_cpus, cpu_clusters) ==> all_cpus(
            num_cpus,
            numbers(Role::Reference, cpu::cluster_nodes(cpu_clusters, count)),
        ),
    decreases count,
{
    if count > 0 {
        let rest = cpu::cluster_nodes(cpu_clusters, (count - 1) as nat);
        let cpus = cpu_clusters[count - 1]@;
        let name = "cluster"@ + text::decimal((count - 1) as nat);
        let cores = cpu::core_nodes(cpus, cpus.len());
        let last = nesting::node(name, Seq::empty(), cores);
        lemma_cluster_numbers(num_cpus, cpu_clusters, (count - 1) as nat);
        if clusters_exist(num_cpus, cpu_clusters) {
            assert forall|k: int| 0 <= k < cpus.len() implies cpu::low_cell(
                (#[trigger] cpus[k]) as nat,
            ) < num_cpus by {
                assert(cpu::low_cell(cpu_clusters[count - 1][k] as nat) < num_cpus);
            }
        }
        lemma_core_numbers(num_cpus, cpus, cpus.len());
        lemma_numbers_concat(Role::Definition, rest, last);
        lemma_numbers_concat(Role::Reference, rest, last);
        lemma_numbers_node(Role::Definition, name, Seq::empty(), cores);
        lemma_numbers_node(Role::Reference, name, Seq::empty(), cores);
        assert(numbers(Role::Definition, rest + last) =~= Seq::empty());
    }
}

proof fn lemma_cpus_numbers(guest: Guest)
    requires
        guest.num_cpus <= u32::MAX - board::PHANDLE_CPU0 + 1,
    ensures
        ({
            let cpus = cpu::cpus_node(guest.num_cpus, guest.cpu_clusters, guest.cpu_capacity);
            &&& numbers(Role::Definition, cpus) == cpu_definitions(guest.num_cpus as nat)
            &&& clusters_exist(guest.num_cpus, guest.cpu_clusters) ==> all_cpus(
                guest.num_cpus,
                numbers(Role::Reference, cpus),
            )
        }),
{
    lemma_names();
    let properties = seq![
        Op::PropertyU32("#address-cells"@, 1),
        Op::PropertyU32("#size-cells"@, 0),
    ];
    let cpus = cpu::cpu_nodes(guest.num_cpus, guest.cpu_capacity, guest.num_cpus as nat);
    let clusters = cpu::cluster_nodes(guest.cpu_clusters, guest.cpu_clusters.len());
    let map = cpu::cpu_map(guest.cpu_clusters);
    lemma_cpu_numbers(guest.num_cpus, guest.cpu_capacity, guest.num_cpus as nat);
    lemma_cluster_numbers(guest.num_cpus, guest.cpu_clusters, guest.cpu_clusters.len());
    lemma_numbers_none(Role::Definition, properties);
    lemma_numbers_none(Role::Reference, properties);
    lemma_numbers_node(Role::Definition, "cpu-map"@, Seq::empty(), clusters);
    lemma_numbers_node(Role::Reference, "cpu-map"@, Seq::empty(), clusters);
    lemma_numbers_concat(Role::Definition, cpus, map);
    lemma_numbers_concat(Role::Reference, cpus, map);
    lemma_numbers_node(Role::Definition, "cpus"@, properties, cpus + map);
    lemma_numbers_node(Role::Reference, "cpus"@, properties, cpus + map);
    let whole = cpu::cpus_node(guest.num_cpus, guest.cpu_clusters, guest.cpu_capacity);
    assert(numbers(Role::Definition, map) =~= Seq::empty());
    assert(numbers(Role::Definition, whole) =~= cpu_definitions(guest.num_cpus as nat));
}

/// The numbers of memory and CPUs, with what they come with.
#[verifier::rlimit(40)]
proof fn lemma_core_part_numbers(guest: Guest)
    requires
        guest.num_cpus <= u32::MAX - board::PHANDLE_CPU0 + 1,
    ensures
        numbers(Role::Definition, tree::core_nodes(guest)) == memory_definitions(guest)
            + cpu_definitions(guest.num_cpus as nat) + seq![board::PHANDLE_GIC],
        clusters_exist(guest.num_cpus, guest.cpu_clusters) ==> all_cpus(
            guest.num_cpus,
            numbers(Role::Reference, tree::core_nodes(guest)),
        ),
{
    lemma_names();
    lemma_memory_numbers(guest);
    lemma_cpus_numbers(guest);
    lemma_core_part_roles(guest, Role::Definition);
    lemma_core_part_roles(guest, Role::Reference);
    let gic = interrupts::gic_node(guest.layout, guest.is_gicv3, guest.num_cpus as u64);
    lemma_numbers_one(Role::Definition, gic, 5);
    lemma_numbers_none(Role::Reference, gic);
}

proof fn lemma_core_part_roles(guest: Guest, role: Role)
    ensures
        numbers(role, tree::core_nodes(guest)) == numbers(
            role,
            memory::memory_node(guest.layout, guest.mem_size, guest.second_vm)
                + memory::resv_memory_node(
                guest.layout,
                guest.swiotlb,
                guest.page_size,
                platform::platform_device(guest.platform_info),
                guest.second_vm,
            ),
        ) + numbers(
            role,
            cpu::cpus_node(guest.num_cpus, guest.cpu_clusters, guest.cpu_capacity),
        ) + numbers(
            role,
            interrupts::gic_node(guest.layout, guest.is_gicv3, guest.num_cpus as u64),
        ),
{
    let memory_ops = memory::memory_node(guest.layout, guest.mem_size, guest.second_vm)
        + memory::resv_memory_node(
        guest.layout,
        guest.swiotlb,
        guest.page_size,
        platform::platform_device(guest.platform_info),
        guest.second_vm,
    );
    let cpus = cpu::cpus_node(guest.num_cpus, guest.cpu_clusters, guest.cpu_capacity);
    let gic = interrupts::gic_node(guest.layout, guest.is_gicv3, guest.num_cpus as u64);
    let timer = interrupts::timer_node(guest.num_cpus);
    let pmu = tree::pmu_nodes(guest);
    lemma_numbers_none(role, timer);
    lemma_numbers_none(role, pmu);
    lemma_numbers_concat(role, memory_ops, cpus);
    lemma_numbers_concat(role, memory_ops + cpus, gic);
    lemma_numbers_concat(role, memory_ops + cpus + gic, timer);
    lemma_numbers_concat(role, memory_ops + cpus + gic + timer, pmu);
    assert(tree::core_nodes(guest) =~= memory_ops + cpus + gic + timer + pmu);
    assert(numbers(role, tree::core_nodes(guest)) =~= numbers(role, memory_ops) + numbers(
        role,
        cpus,
    ) + numbers(role, gic));
}

/// The numbers that the emulated devices refer to.
pub open spec fn device_references(guest: Guest) -> Seq<u32> {
    (if guest.swiotlb is Some {
        seq![board::PHANDLE_RESTRICTED_DMA_POOL]
    } else {
        Seq::empty()
    }) + seq![board::PHANDLE_RTC_CLOCK]
}

/// The numbers of the emulated devices.
#[verifier::rlimit(40)]
proof fn lemma_device_part_numbers(guest: Guest)
    ensures
        numbers(Role::Definition, tree::device_nodes(guest)) == seq![board::PHANDLE_RTC_CLOCK],
        numbers(Role::Reference, tree::device_nodes(guest)) == device_references(guest),
{
    lemma_names();
    lemma_device_part_roles(guest, Role::Definition);
    lemma_device_part_roles(guest, Role::Reference);
    let pci_ops = pci::pci_node(
        guest.pci_irqs,
        guest.pci_cfg,
        guest.pci_ranges,
        memory::dma_pool_phandle(guest.swiotlb),
    );
    let rtc = peripherals::rtc_nodes(guest.layout);
    lemma_numbers_none(Role::Definition, pci_ops);
    if guest.swiotlb is Some {
        lemma_numbers_one(Role::Reference, pci_ops, 12);
    } else {
        lemma_numbers_none(Role::Reference, pci_ops);
    }
    lemma_numbers_one(Role::Definition, rtc, 4);
    lemma_numbers_one(Role::Reference, rtc, 11);
    assert(numbers(Role::Definition, tree::device_nodes(guest))
        =~= seq![board::PHANDLE_RTC_CLOCK]);
    assert(numbers(Role::Reference, tree::device_nodes(guest)) =~= device_references(guest));
}

proof fn lemma_device_part_roles(guest: Guest, role: Role)
    ensures
        numbers(role, tree::device_nodes(guest)) == numbers(
            role,
            pci::pci_node(
                guest.pci_irqs,
                guest.pci_cfg,
                guest.pci_ranges,
                memory::dma_pool_phandle(guest.swiotlb),
            ),
        ) + numbers(role, peripherals::rtc_nodes(guest.layout)),
{
    lemma_names();
    let serial = peripherals::serial_nodes(guest.layout);
    let psci_ops = psci::psci_node(guest.psci_version);
    let pci_ops = pci::pci_node(
        guest.pci_irqs,
        guest.pci_cfg,
        guest.pci_ranges,
        memory::dma_pool_phandle(guest.swiotlb),
    );
    let rtc = peripherals::rtc_nodes(guest.layout);
    lemma_numbers_none(role, serial);
    lemma_numbers_none(role, psci_ops);
    lemma_numbers_concat(role, serial, psci_ops);
    lemma_numbers_concat(role, serial + psci_ops, pci_ops);
    lemma_numbers_concat(role, serial + psci_ops + pci_ops, rtc);
    assert(numbers(role, tree::device_nodes(guest)) =~= numbers(role, pci_ops) + numbers(
        role,
        rtc,
    ));
}

/// The numbers that a device which is passed through refers to.
pub open spec fn passthrough_references(device: Passthrough) -> Seq<u32> {
    match device {
        Passthrough::Edgetpu => seq![
            board::PHANDLE_EDGETPU_IOMMU,
            board::PHANDLE_EDGETPU_IOMMU_GROUP,
            board::PHANDLE_EDGETPU_TPU_FW,
        ],
        Passthrough::Rknpu => seq![board::PHANDLE_RKNPU_IOMMU, board::PHANDLE_RKNPU_FAKE_CLOCK],
    }
}

/// The numbers that the device refers to which the platform is taken to have.
pub open spec fn platform_references(device: Option<Passthrough>) -> Seq<u32> {
    match device {
        Some(device) => passthrough_references(device),
        None => Seq::empty(),
    }
}

proof fn lemma_copied_entry_hits_nothing(
    role: Role,
    rows: Seq<(Seq<char>, PropertyAction)>,
    entry: OfEntry,
    count: nat,
)
    ensures
        numbers(role, platform::copied_entry(rows, entry, count).0) == Seq::<u32>::empty(),
    decreases count,
{
    if count > 0 {
        let before = platform::copied_entry(rows, entry, (count - 1) as nat).0;
        let after = platform::copied_entry(rows, entry, count).0;
        lemma_copied_entry_hits_nothing(role, rows, entry, (count - 1) as nat);
        if after.len() > before.len() {
            assert(after.drop_last() =~= before);
        }
    }
}

proof fn lemma_copied_entries_hit_nothing(
    role: Role,
    rows: Seq<(Seq<char>, PropertyAction)>,
    entries: Seq<OfEntry>,
    count: nat,
)
    ensures
        numbers(role, platform::copied_entries(rows, entries, count).0) == Seq::<u32>::empty(),
    decreases count,
{
    if count > 0 {
        let before = platform::copied_entries(rows, entries, (count - 1) as nat);
        let more = platform::copied_entry(rows, entries[count - 1], rows.len()).0;
        lemma_copied_entries_hit_nothing(role, rows, entries, (count - 1) as nat);
        lemma_copied_entry_hits_nothing(role, rows, entries[count - 1], rows.len());
        lemma_numbers_concat(role, before.0, more);
        assert(numbers(role, before.0 + more) =~= Seq::empty());
    }
}

#[verifier::rlimit(40)]
proof fn lemma_device_properties_numbers(
    device: Passthrough,
    ranges: Seq<(u64, u64)>,
    plat_device_base: u64,
)
    ensures
        ({
            let properties = platform::device_properties(device, ranges, plat_device_base);
            &&& numbers(Role::Definition, properties) == Seq::<u32>::empty()
            &&& numbers(Role::Reference, properties) == passthrough_references(device)
        }),
{
    lemma_names();
    let reg = platform::wide_cells_if_any(
        "reg"@,
        platform::range_cells(
            ranges,
            plat_device_base,
            0,
            platform::own_ranges(device, ranges),
        ),
    );
    let specific = platform::specific_properties(device);
    lemma_numbers_none(Role::Definition, reg);
    lemma_numbers_none(Role::Reference, reg);
    lemma_numbers_none(Role::Definition, specific);
    lemma_specific_references(device);
    lemma_numbers_concat(Role::Definition, reg, specific);
    lemma_numbers_concat(Role::Reference, reg, specific);
    assert(numbers(Role::Definition, reg + specific) =~= Seq::empty());
    assert(numbers(Role::Reference, reg + specific) =~= passthrough_references(device));
}

#[verifier::rlimit(40)]
proof fn lemma_specific_references(device: Passthrough)
    ensures
        numbers(Role::Reference, platform::specific_properties(device)) == passthrough_references(
            device,
        ),
{
    lemma_names();
    let specific = platform::specific_properties(device);
    match device {
        Passthrough::Edgetpu => {
            let first = seq![specific[0]];
            let second = seq![specific[1]];
            let third = seq![specific[2]];
            assert(specific =~= first + second + third);
            lemma_numbers_concat(Role::Reference, first + second, third);
            lemma_numbers_concat(Role::Reference, first, second);
            lemma_numbers_one(Role::Reference, first, 0);
            lemma_numbers_one(Role::Reference, second, 0);
            lemma_numbers_one(Role::Reference, third, 0);
        },
        Passthrough::Rknpu => {
            let first = specific.take(2);
            let second = specific.skip(2);
            assert(specific =~= first + second);
            lemma_numbers_concat(Role::Reference, first, second);
            lemma_numbers_one(Role::Reference, first, 1);
            lemma_numbers_one(Role::Reference, second, 0);
        },
    }
    assert(numbers(Role::Reference, specific) =~= passthrough_references(device));
}

proof fn lemma_vfio_platform_node_numbers(
    sysfspath: Seq<char>,
    ranges: Seq<(u64, u64)>,
    irqs: Seq<(u32, u32)>,
    plat_device_base: u64,
    of_node: OfNode,
)
    requires
        platform::vfio_platform_node(sysfspath, ranges, irqs, plat_device_base, of_node).1 is None,
    ensures
        platform::device_at(sysfspath) is Some,
        ({
            let ops = platform::vfio_platform_node(
                sysfspath,
                ranges,
                irqs,
                plat_device_base,
                of_node,
            ).0;
            &&& numbers(Role::Definition, ops) == seq![board::PHANDLE_RKNPU_CLOCK]
            &&& numbers(Role::Reference, ops) == passthrough_references(
                platform::device_at(sysfspath)->0,
            )
        }),
{
    let device = platform::device_at(sysfspath)->0;
    lemma_names();
    lemma_device_properties_numbers(device, ranges, plat_device_base);
    lemma_vfio_platform_node_roles(
        Role::Definition,
        sysfspath,
        ranges,
        irqs,
        plat_device_base,
        of_node,
    );
    lemma_vfio_platform_node_roles(
        Role::Reference,
        sysfspath,
        ranges,
        irqs,
        plat_device_base,
        of_node,
    );
    let clock = platform::clock_controller(device, ranges, plat_device_base);
    lemma_numbers_one(Role::Definition, clock, 4);
    lemma_numbers_none(Role::Reference, clock);
    let ops = platform::vfio_platform_node(
        sysfspath,
        ranges,
        irqs,
        plat_device_base,
        of_node,
    ).0;
    assert(numbers(Role::Definition, ops) =~= seq![board::PHANDLE_RKNPU_CLOCK]);
    assert(numbers(Role::Reference, ops) =~= passthrough_references(device));
}

proof fn lemma_vfio_platform_node_roles(
    role: Role,
    sysfspath: Seq<char>,
    ranges: Seq<(u64, u64)>,
    irqs: Seq<(u32, u32)>,
    plat_device_base: u64,
    of_node: OfNode,
)
    requires
        platform::vfio_platform_node(sysfspath, ranges, irqs, plat_device_base, of_node).1 is None,
    ensures
        ({
            let device = platform::device_at(sysfspath)->0;
            numbers(
                role,
                platform::vfio_platform_node(
                    sysfspath,
                    ranges,
                    irqs,
                    plat_device_base,
                    of_node,
                ).0,
            ) == numbers(role, platform::device_properties(device, ranges, plat_device_base))
                + numbers(role, platform::clock_controller(device, ranges, plat_device_base))
        }),
{
    let device = platform::device_at(sysfspath)->0;
    let name = text::file_name_of(sysfspath)->0 + "@"@ + text::hex(ranges[0].0 as nat);
    let interrupts = platform::cells_if_any(
        "interrupts"@,
        platform::interrupt_cells(irqs, irqs.len()),
    );
    let specific = platform::device_properties(device, ranges, plat_device_base);
    let entries = (of_node.entries->0)@;
    let rows = platform::copy_table(device);
    let copied = platform::copied_entries(rows, entries, entries.len()).0;
    let clock = platform::clock_controller(device, ranges, plat_device_base);
    let first = nesting::node(name, interrupts + specific + copied, Seq::empty());
    lemma_copied_entries_hit_nothing(role, rows, entries, entries.len());
    lemma_numbers_none(role, interrupts);
    lemma_numbers_concat(role, interrupts, specific);
    lemma_numbers_concat(role, interrupts + specific, copied);
    lemma_numbers_node(role, name, interrupts + specific + copied, Seq::empty());
    lemma_numbers_concat(role, first, clock);
    assert(numbers(role, first + clock) =~= numbers(role, specific) + numbers(role, clock));
}

/// Every device that is passed through is the one that the platform is taken to
/// have.
pub open spec fn devices_agree(platform_info: Seq<PlatformInfo>) -> bool {
    forall|i: int|
        0 <= i < platform_info.len() ==> platform::device_at((#[trigger] platform_info[i]).0@)
            == platform::platform_device(platform_info)
}

/// Every number that is found is one of `known`.
pub open spec fn all_known(found: Seq<u32>, known: Seq<u32>) -> bool {
    forall|i: int| 0 <= i < found.len() ==> known.contains(#[trigger] found[i])
}

proof fn lemma_vfio_platform_nodes_numbers(
    platform_info: Seq<PlatformInfo>,
    of_nodes: Seq<OfNode>,
    plat_device_base: u64,
    count: nat,
)
    requires
        count <= platform_info.len(),
        platform::vfio_platform_nodes(platform_info, of_nodes, plat_device_base, count).1 is None,
    ensures
        ({
            let ops = platform::vfio_platform_nodes(
                platform_info,
                of_nodes,
                plat_device_base,
                count,
            ).0;
            &&& numbers(Role::Definition, ops) == Seq::new(
                count,
                |i: int| board::PHANDLE_RKNPU_CLOCK,
            )
            &&& devices_agree(platform_info) ==> all_known(
                numbers(Role::Reference, ops),
                platform_references(platform::platform_device(platform_info)),
            )
        }),
    decreases count,
{
    if count == 0 {
        assert(Seq::new(count, |i: int| board::PHANDLE_RKNPU_CLOCK) =~= Seq::empty());
    } else {
        let rest = (count - 1) as nat;
        let info = platform_info[count - 1];
        let before = platform::vfio_platform_nodes(
            platform_info,
            of_nodes,
            plat_device_base,
            rest,
        ).0;
        let last = platform::vfio_platform_node(
            info.0@,
            info.1@,
            info.2@,
            plat_device_base,
            of_nodes[count - 1],
        ).0;
        lemma_vfio_platform_nodes_numbers(platform_info, of_nodes, plat_device_base, rest);
        lemma_vfio_platform_node_numbers(
            info.0@,
            info.1@,
            info.2@,
            plat_device_base,
            of_nodes[count - 1],
        );
        lemma_numbers_concat(Role::Definition, before, last);
        lemma_numbers_concat(Role::Reference, before, last);
        assert(numbers(Role::Definition, before + last) =~= Seq::new(
            count,
            |i: int| board::PHANDLE_RKNPU_CLOCK,
        ));
    }
}

/// The numbers of the bus of the devices that are passed through.
proof fn lemma_platform_part_numbers(guest: Guest)
    requires
        tree::platform_part(guest).1 is None,
    ensures
        numbers(Role::Definition, tree::platform_part(guest).0) == Seq::new(
            guest.platform_info.len(),
            |i: int| board::PHANDLE_RKNPU_CLOCK,
        ),
        devices_agree(guest.platform_info) ==> all_known(
            numbers(Role::Reference, tree::platform_part(guest).0),
            seq![board::PHANDLE_GIC] + platform_references(
                platform::platform_device(guest.platform_info),
            ),
        ),
{
    lemma_names();
    let name = "/platform@"@ + text::hex(guest.plat_device_base as nat);
    let properties = platform::bus_properties(guest.plat_device_base, guest.plat_device_size);
    let devices = platform::vfio_platform_nodes(
        guest.platform_info,
        guest.of_nodes,
        guest.plat_device_base,
        guest.platform_info.len(),
    ).0;
    let bus = tree::platform_part(guest).0;
    lemma_vfio_platform_nodes_numbers(
        guest.platform_info,
        guest.of_nodes,
        guest.plat_device_base,
        guest.platform_info.len(),
    );
    lemma_numbers_none(Role::Definition, properties);
    lemma_numbers_one(Role::Reference, properties, 4);
    lemma_numbers_node(Role::Definition, name, properties, devices);
    lemma_numbers_node(Role::Reference, name, properties, devices);
    assert(numbers(Role::Definition, bus) =~= Seq::new(
        guest.platform_info.len(),
        |i: int| board::PHANDLE_RKNPU_CLOCK,
    ));
    let found = numbers(Role::Reference, bus);
    let inner = numbers(Role::Reference, devices);
    let own = platform_references(platform::platform_device(guest.platform_info));
    let known = seq![board::PHANDLE_GIC] + own;
    if devices_agree(guest.platform_info) {
        assert forall|i: int| 0 <= i < found.len() implies known.contains(#[trigger] found[i]) by {
            if i == 0 {
                assert(known[0] == board::PHANDLE_GIC);
            } else {
                assert(found[i] == inner[i - 1]);
                let at = choose|at: int| 0 <= at < own.len() && own[at] == inner[i - 1];
                assert(known[at + 1] == own[at]);
            }
        }
    }
}

/// The numbers that the companions of a device define.
pub open spec fn companion_definitions(device: Option<Passthrough>) -> Seq<u32> {
    match device {
        Some(Passthrough::Edgetpu) => seq![
            board::PHANDLE_EDGETPU_IOMMU,
            board::PHANDLE_EDGETPU_IOMMU_GROUP,
        ],
        Some(Passthrough::Rknpu) => seq![
            board::PHANDLE_RKNPU_IOMMU,
            board::PHANDLE_RKNPU_FAKE_CLOCK,
        ],
        None => Seq::empty(),
    }
}

#[verifier::rlimit(40)]
proof fn lemma_companion_part_numbers(guest: Guest)
    ensures
        numbers(Role::Definition, tree::companion_nodes(guest)) == companion_definitions(
            platform::platform_device(guest.platform_info),
        ),
        numbers(Role::Reference, tree::companion_nodes(guest)) == Seq::<u32>::empty(),
{
    lemma_names();
    let device = platform::platform_device(guest.platform_info);
    let whole = tree::companion_nodes(guest);
    lemma_numbers_none(Role::Reference, whole);
    if device is Some {
        let first = whole.take(6);
        let second = whole.skip(6);
        assert(whole =~= first + second);
        lemma_numbers_concat(Role::Definition, first, second);
        lemma_numbers_one(Role::Definition, first, 4);
        lemma_numbers_one(
            Role::Definition,
            second,
            if device == Some(Passthrough::Edgetpu) {
                2
            } else {
                4
            },
        );
    }
    assert(numbers(Role::Definition, whole) =~= companion_definitions(device));
}

proof fn lemma_chosen_hits_nothing(role: Role, guest: Guest)
    requires
        tree::chosen_part(guest).1 is None,
    ensures
        numbers(role, tree::chosen_part(guest).0) == Seq::<u32>::empty(),
{
    lemma_names();
    let boot = chosen::boot_properties(guest.layout, guest.cmdline);
    let initrd = chosen::initrd_properties(guest.initrd);
    let whole = tree::chosen_part(guest).0;
    let seeds = whole.subrange(1 + boot.len() as int, whole.len() - 1 - initrd.len());
    lemma_numbers_none(role, boot);
    lemma_numbers_none(role, seeds);
    lemma_numbers_none(role, initrd);
    lemma_numbers_concat(role, boot, seeds);
    lemma_numbers_concat(role, boot + seeds, initrd);
    assert(whole =~= nesting::node("chosen"@, boot + seeds + initrd, Seq::empty()));
    lemma_numbers_node(role, "chosen"@, boot + seeds + initrd, Seq::empty());
    assert(numbers(role, whole) =~= Seq::empty());
}

/// The numbers of a tree are those of its parts.
proof fn lemma_tree_roles(guest: Guest, role: Role)
    requires
        tree::guest_tree(guest).1 is None,
    ensures
        numbers(role, tree::guest_tree(guest).0) == numbers(role, tree::root_properties())
            + numbers(role, tree::core_nodes(guest)) + numbers(role, tree::device_nodes(guest))
            + numbers(role, tree::platform_part(guest).0) + numbers(
            role,
            tree::companion_nodes(guest),
        ),
{
    lemma_numbers_none(role, tree::android_nodes(guest.android_fstab));
    lemma_chosen_hits_nothing(role, guest);
    lemma_root_roles(
        role,
        tree::root_properties(),
        tree::android_nodes(guest.android_fstab),
        tree::chosen_part(guest).0,
        tree::core_nodes(guest),
        tree::device_nodes(guest),
        tree::platform_part(guest).0,
        tree::companion_nodes(guest),
    );
}

proof fn lemma_root_roles(
    role: Role,
    properties: Seq<Op>,
    android: Seq<Op>,
    chosen_ops: Seq<Op>,
    core: Seq<Op>,
    devices: Seq<Op>,
    bus: Seq<Op>,
    companions: Seq<Op>,
)
    requires
        numbers(role, android) == Seq::<u32>::empty(),
        numbers(role, chosen_ops) == Seq::<u32>::empty(),
    ensures
        numbers(
            role,
            nesting::node(
                ""@,
                properties,
                android + chosen_ops + core + devices + bus + companions,
            ),
        ) == numbers(role, properties) + numbers(role, core) + numbers(role, devices) + numbers(
            role,
            bus,
        ) + numbers(role, companions),
{
    let children = android + chosen_ops + core + devices + bus + companions;
    lemma_numbers_concat(role, android, chosen_ops);
    lemma_numbers_concat(role, android + chosen_ops, core);
    lemma_numbers_concat(role, android + chosen_ops + core, devices);
    lemma_numbers_concat(role, android + chosen_ops + core + devices, bus);
    lemma_numbers_concat(role, android + chosen_ops + core + devices + bus, companions);
    lemma_numbers_node(role, ""@, properties, children);
    assert(numbers(role, properties) + numbers(role, children) =~= numbers(role, properties)
        + numbers(role, core) + numbers(role, devices) + numbers(role, bus) + numbers(
        role,
        companions,
    ));
}

/// The numbers that a tree defines.
pub open spec fn definitions(guest: Guest) -> Seq<u32> {
    memory_definitions(guest) + cpu_definitions(guest.num_cpus as nat) + seq![
        board::PHANDLE_GIC,
        board::PHANDLE_RTC_CLOCK,
    ] + Seq::new(guest.platform_info.len(), |i: int| board::PHANDLE_RKNPU_CLOCK)
        + companion_definitions(platform::platform_device(guest.platform_info))
}

/// A device tree that no error stops defines the numbers of `definitions`, in
/// this order.
#[verifier::rlimit(60)]
pub proof fn lemma_tree_definitions(guest: Guest)
    requires
        tree::guest_tree(guest).1 is None,
        guest.num_cpus <= u32::MAX - board::PHANDLE_CPU0 + 1,
    ensures
        numbers(Role::Definition, tree::guest_tree(guest).0) == definitions(guest),
{
    lemma_names();
    lemma_tree_roles(guest, Role::Definition);
    lemma_numbers_none(Role::Definition, tree::root_properties());
    lemma_core_part_numbers(guest);
    lemma_device_part_numbers(guest);
    lemma_platform_part_numbers(guest);
    lemma_companion_part_numbers(guest);
    lemma_definitions_grouping(
        memory_definitions(guest),
        cpu_definitions(guest.num_cpus as nat),
        Seq::new(guest.platform_info.len(), |i: int| board::PHANDLE_RKNPU_CLOCK),
        companion_definitions(platform::platform_device(guest.platform_info)),
    );
}

#[verifier::rlimit(60)]
proof fn lemma_definitions_grouping(
    memory_numbers: Seq<u32>,
    cpus: Seq<u32>,
    clocks: Seq<u32>,
    companions: Seq<u32>,
)
    ensures
        Seq::<u32>::empty() + (memory_numbers + cpus + seq![board::PHANDLE_GIC]) + seq![
            board::PHANDLE_RTC_CLOCK,
        ] + clocks + companions == memory_numbers + cpus + seq![
            board::PHANDLE_GIC,
            board::PHANDLE_RTC_CLOCK,
        ] + clocks + companions,
{
    assert(Seq::<u32>::empty() + (memory_numbers + cpus + seq![board::PHANDLE_GIC]) + seq![
        board::PHANDLE_RTC_CLOCK,
    ] + clocks + companions =~= memory_numbers + cpus + seq![
        board::PHANDLE_GIC,
        board::PHANDLE_RTC_CLOCK,
    ] + clocks + companions);
}

/// No two nodes of a device tree have the same number, as long as at most one
/// device is passed through: each comes with a clock controller of one and the
/// same number.
#[verifier::rlimit(60)]
pub proof fn lemma_definitions_unique(guest: Guest)
    requires
        tree::guest_tree(guest).1 is None,
        guest.num_cpus <= u32::MAX - board::PHANDLE_CPU0 + 1,
        guest.platform_info.len() <= 1,
    ensures
        numbers(Role::Definition, tree::guest_tree(guest).0).no_duplicates(),
{
    lemma_tree_definitions(guest);
    let front = memory_definitions(guest);
    let cpus = cpu_definitions(guest.num_cpus as nat);
    let back = other_definitions(guest);
    assert(definitions(guest) =~= front + cpus + back);
    lemma_small_definitions(guest);
    lemma_blocks_unique(front, cpus, back);
}

/// The numbers that are defined after those of the CPUs.
spec fn other_definitions(guest: Guest) -> Seq<u32> {
    seq![board::PHANDLE_GIC, board::PHANDLE_RTC_CLOCK] + Seq::new(
        guest.platform_info.len(),
        |i: int| board::PHANDLE_RKNPU_CLOCK,
    ) + companion_definitions(platform::platform_device(guest.platform_info))
}

/// Numbers of CPUs are apart from all others.
proof fn lemma_blocks_unique(front: Seq<u32>, cpus: Seq<u32>, back: Seq<u32>)
    requires
        front.no_duplicates(),
        cpus.no_duplicates(),
        back.no_duplicates(),
        forall|i: int| 0 <= i < front.len() ==> (#[trigger] front[i]) < board::PHANDLE_CPU0,
        forall|i: int| 0 <= i < cpus.len() ==> (#[trigger] cpus[i]) >= board::PHANDLE_CPU0,
        forall|i: int| 0 <= i < back.len() ==> (#[trigger] back[i]) < board::PHANDLE_CPU0,
        forall|i: int, j: int|
            0 <= i < front.len() && 0 <= j < back.len() ==> (#[trigger] front[i])
                != #[trigger] back[j],
    ensures
        (front + cpus + back).no_duplicates(),
{
    let all = front + cpus + back;
    let m = front.len() as int;
    let n = cpus.len() as int;
    assert forall|i: int, j: int|
        0 <= i < all.len() && 0 <= j < all.len() && i != j implies all[i] != all[j] by {
        assert(all[i] == if i < m {
            front[i]
        } else if i < m + n {
            cpus[i - m]
        } else {
            back[i - m - n]
        });
        assert(all[j] == if j < m {
            front[j]
        } else if j < m + n {
            cpus[j - m]
        } else {
            back[j - m - n]
        });
    }
}

#[verifier::rlimit(40)]
proof fn lemma_small_definitions(guest: Guest)
    requires
        guest.num_cpus <= u32::MAX - board::PHANDLE_CPU0 + 1,
        guest.platform_info.len() <= 1,
    ensures
        ({
            let front = memory_definitions(guest);
            let cpus = cpu_definitions(guest.num_cpus as nat);
            let back = other_definitions(guest);
            &&& front.no_duplicates()
            &&& cpus.no_duplicates()
            &&& back.no_duplicates()
            &&& forall|i: int| 0 <= i < front.len() ==> (#[trigger] front[i]) < board::PHANDLE_CPU0
            &&& forall|i: int| 0 <= i < cpus.len() ==> (#[trigger] cpus[i]) >= board::PHANDLE_CPU0
            &&& forall|i: int| 0 <= i < back.len() ==> (#[trigger] back[i]) < board::PHANDLE_CPU0
            &&& forall|i: int, j: int|
                0 <= i < front.len() && 0 <= j < back.len() ==> (#[trigger] front[i])
                    != #[trigger] back[j]
        }),
{
    let device = platform::platform_device(guest.platform_info);
    let clocks = Seq::new(guest.platform_info.len(), |i: int| board::PHANDLE_RKNPU_CLOCK);
    let fixed = seq![board::PHANDLE_GIC, board::PHANDLE_RTC_CLOCK];
    let companions = companion_definitions(device);
    let back = other_definitions(guest);
    assert(back =~= fixed + clocks + companions);
    assert forall|i: int, j: int|
        0 <= i < back.len() && 0 <= j < back.len() && i != j implies back[i] != back[j] by {
        assert(i < 2 + clocks.len() || back[i] == companions[i - 2 - clocks.len()]);
        assert(j < 2 + clocks.len() || back[j] == companions[j - 2 - clocks.len()]);
    }
}

/// Every number that a node of a device tree refers to is that of a node of the
/// tree, provided that the clusters hold only CPUs that there are, and that the
/// devices which are passed through are all the one that the platform is taken
/// to have. The references are those in the properties that [`plays`] lists.
#[verifier::rlimit(40)]
pub proof fn lemma_references_resolve(guest: Guest, number: u32)
    requires
        tree::guest_tree(guest).1 is None,
        guest.num_cpus <= u32::MAX - board::PHANDLE_CPU0 + 1,
        clusters_exist(guest.num_cpus, guest.cpu_clusters),
        devices_agree(guest.platform_info),
        numbers(Role::Reference, tree::guest_tree(guest).0).contains(number),
    ensures
        numbers(Role::Definition, tree::guest_tree(guest).0).contains(number),
{
    lemma_names();
    lemma_tree_definitions(guest);
    lemma_tree_roles(guest, Role::Reference);
    lemma_numbers_one(Role::Reference, tree::root_properties(), 0);
    lemma_core_part_numbers(guest);
    lemma_device_part_numbers(guest);
    lemma_platform_part_numbers(guest);
    lemma_companion_part_numbers(guest);
    let root = numbers(Role::Reference, tree::root_properties());
    let core = numbers(Role::Reference, tree::core_nodes(guest));
    let devices = numbers(Role::Reference, tree::device_nodes(guest));
    let bus = numbers(Role::Reference, tree::platform_part(guest).0);
    lemma_in_sum(root + core + devices + bus, Seq::empty(), number);
    lemma_in_sum(root + core + devices, bus, number);
    lemma_in_sum(root + core, devices, number);
    lemma_in_sum(root, core, number);
    if core.contains(number) {
        let at = choose|at: int| 0 <= at < core.len() && core[at] == number;
        assert(board::PHANDLE_CPU0 <= core[at] < board::PHANDLE_CPU0 + guest.num_cpus);
        lemma_cpu_defined(guest, number);
    } else if bus.contains(number) {
        let known = seq![board::PHANDLE_GIC] + platform_references(
            platform::platform_device(guest.platform_info),
        );
        let at = choose|at: int| 0 <= at < bus.len() && bus[at] == number;
        assert(known.contains(bus[at]));
        lemma_platform_defined(guest, number);
    } else {
        lemma_fixed_defined(guest, number);
    }
}

/// A number of two lists in a row is in one of them.
proof fn lemma_in_sum(first: Seq<u32>, second: Seq<u32>, number: u32)
    ensures
        (first + second).contains(number) <==> first.contains(number) || second.contains(number),
{
    vstd::seq_lib::lemma_seq_concat_contains_all_elements(first, second, number);
}

/// What a tree defines is what its parts define.
proof fn lemma_in_definitions(guest: Guest, number: u32)
    ensures
        definitions(guest).contains(number) <==> {
            ||| memory_definitions(guest).contains(number)
            ||| cpu_definitions(guest.num_cpus as nat).contains(number)
            ||| other_definitions(guest).contains(number)
        },
{
    let front = memory_definitions(guest);
    let cpus = cpu_definitions(guest.num_cpus as nat);
    let back = other_definitions(guest);
    assert(definitions(guest) =~= front + cpus + back);
    lemma_in_sum(front + cpus, back, number);
    lemma_in_sum(front, cpus, number);
}

proof fn lemma_cpu_defined(guest: Guest, number: u32)
    requires
        board::PHANDLE_CPU0 <= number < board::PHANDLE_CPU0 + guest.num_cpus,
    ensures
        definitions(guest).contains(number),
{
    lemma_in_definitions(guest, number);
    assert(cpu_definitions(guest.num_cpus as nat)[number - board::PHANDLE_CPU0] == number);
}

proof fn lemma_fixed_defined(guest: Guest, number: u32)
    requires
        seq![board::PHANDLE_GIC].contains(number) || device_references(guest).contains(number),
    ensures
        definitions(guest).contains(number),
{
    lemma_in_definitions(guest, number);
    assert(other_definitions(guest)[0] == board::PHANDLE_GIC);
    assert(other_definitions(guest)[1] == board::PHANDLE_RTC_CLOCK);
    if guest.swiotlb is Some {
        assert(memory_definitions(guest)[0] == board::PHANDLE_RESTRICTED_DMA_POOL);
    }
}

proof fn lemma_platform_defined(guest: Guest, number: u32)
    requires
        (seq![board::PHANDLE_GIC] + platform_references(
            platform::platform_device(guest.platform_info),
        )).contains(number),
    ensures
        definitions(guest).contains(number),
{
    let device = platform::platform_device(guest.platform_info);
    let companions = companion_definitions(device);
    let front = memory_definitions(guest);
    let back = other_definitions(guest);
    let head = seq![board::PHANDLE_GIC, board::PHANDLE_RTC_CLOCK] + Seq::new(
        guest.platform_info.len(),
        |i: int| board::PHANDLE_RKNPU_CLOCK,
    );
    lemma_in_definitions(guest, number);
    lemma_in_sum(seq![board::PHANDLE_GIC], platform_references(device), number);
    lemma_in_sum(head, companions, number);
    assert(back =~= head + companions);
    if number == board::PHANDLE_GIC {
        assert(head[0] == number);
    } else if number == board::PHANDLE_EDGETPU_TPU_FW {
        assert(front[front.len() - 1] == number);
    } else {
        assert(companions[0] == number || companions[1] == number);
    }
}

/// The interrupt controller that interrupts are mapped to is in the tree, and so
/// is the reset controller that devices which are passed through are reset by.
pub proof fn lemma_controllers_defined(guest: Guest)
    requires
        tree::guest_tree(guest).1 is None,
        guest.num_cpus <= u32::MAX - board::PHANDLE_CPU0 + 1,
    ensures
        ({
            let defined = numbers(Role::Definition, tree::guest_tree(guest).0);
            &&& defined.contains(board::PHANDLE_GIC)
            &&& guest.platform_info.len() > 0 ==> defined.contains(board::PHANDLE_RKNPU_CLOCK)
        }),
{
    lemma_tree_definitions(guest);
    lemma_in_definitions(guest, board::PHANDLE_GIC);
    lemma_in_definitions(guest, board::PHANDLE_RKNPU_CLOCK);
    let others = other_definitions(guest);
    assert(others[0] == board::PHANDLE_GIC);
    if guest.platform_info.len() > 0 {
        assert(others[2] == board::PHANDLE_RKNPU_CLOCK);
    }
}

/// One device that is passed through is the one that the platform is taken to
/// have.
pub proof fn lemma_one_device_agrees(platform_info: Seq<PlatformInfo>)
    requires
        platform_info.len() <= 1,
    ensures
        devices_agree(platform_info),
{
    if platform_info.len() == 1 {
        reveal_with_fuel(platform::platform_path, 2);
        let path = platform_info[0].0@;
        assert(platform::platform_path(platform_info, 0) =~= Seq::empty());
        assert(text::joined(Seq::empty(), path) =~= path);
        assert(platform::platform_path(platform_info, 1) == path);
    }
}

} // verus!
