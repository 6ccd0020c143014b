//! What each node says, as it is found by its path.

use vstd::prelude::*;

use crate::board;
use crate::board::{Error, Layout};
use crate::cells;
use crate::chosen;
use crate::chosen::Seeds;
use crate::cpu;
use crate::interrupts;
use crate::lookup;
use crate::memory;
use crate::nesting;
use crate::pci;
use crate::pci::{PciAddressSpace, PciConfigRegion, PciIrq, PciRange};
use crate::peripherals;
use crate::platform::Passthrough;
use crate::psci;
use crate::psci::PsciVersion;
use crate::script::Op;
use crate::shape;
use crate::text;

verus! {

/// A node that has properties only holds them all, and nothing else.
pub proof fn lemma_at_leaf(ops: Seq<Op>, path: Seq<Seq<char>>)
    requires
        shape::is_leaf(ops),
    ensures
        nesting::is_forest(ops),
        lookup::at(ops, path) == if path.len() == 0 {
            seq![ops[0]]
        } else if path.len() == 1 && path[0] == ops[0]->BeginNode_0 {
            ops.drop_last()
        } else {
            Seq::empty()
        },
{
    let name = ops[0]->BeginNode_0;
    let properties = ops.subrange(1, ops.len() - 1);
    assert forall|i: int| 0 <= i < properties.len() implies nesting::is_property(
        #[trigger] properties[i],
    ) by {
        assert(properties[i] == ops[i + 1]);
    }
    assert(ops =~= nesting::node(name, properties, Seq::empty()));
    assert(ops.drop_last() =~= seq![Op::BeginNode(name)] + properties);
    lookup::lemma_at_leaf(name, properties, path);
    shape::lemma_leaf_is_forest(ops);
}

/// Where nothing is written, nothing is found.
pub proof fn lemma_at_empty(path: Seq<Seq<char>>)
    ensures
        nesting::is_forest(Seq::<Op>::empty()),
        lookup::at(Seq::<Op>::empty(), path) == Seq::<Op>::empty(),
{
    nesting::lemma_empty_is_forest();
}

/// The node of guest memory gives its start, which depends on the machine, and
/// its size.
pub proof fn lemma_memory(layout: Layout, mem_size: u64, second_vm: bool)
    ensures
        lookup::at(memory::memory_node(layout, mem_size, second_vm), seq!["memory"@]) == seq![
            Op::BeginNode("memory"@),
            Op::PropertyString("device_type"@, "memory"@),
            Op::PropertyArrayU64(
                "reg"@,
                seq![
                    if second_vm {
                        layout.phys_mem_start_second
                    } else {
                        layout.phys_mem_start
                    },
                    mem_size,
                ],
            ),
        ],
{
    let ops = memory::memory_node(layout, mem_size, second_vm);
    lemma_at_leaf(ops, seq!["memory"@]);
}

/// No two sizes of guest memory have the same node: its second value is the
/// size, all of it.
pub proof fn lemma_memory_size(layout: Layout, mem_size: u64, second_vm: bool) -> (reg: Seq<u64>)
    ensures
        lookup::tells(
            memory::memory_node(layout, mem_size, second_vm),
            seq!["memory"@],
            Op::PropertyArrayU64("reg"@, reg),
        ),
        reg.len() == 2,
        reg[0] == if second_vm {
            layout.phys_mem_start_second
        } else {
            layout.phys_mem_start
        },
        reg[1] == mem_size,
        forall|other: u64|
            #![trigger memory::memory_node(layout, other, second_vm)]
            memory::memory_node(layout, other, second_vm) == memory::memory_node(
                layout,
                mem_size,
                second_vm,
            ) ==> other == mem_size,
{
    reveal_strlit("reg");
    reveal_strlit("device_type");
    assert("reg"@.len() == 3 && "device_type"@.len() == 11);
    let reg = seq![
        if second_vm {
            layout.phys_mem_start_second
        } else {
            layout.phys_mem_start
        },
        mem_size,
    ];
    let steps = lookup::at(memory::memory_node(layout, mem_size, second_vm), seq!["memory"@]);
    lemma_memory(layout, mem_size, second_vm);
    assert(steps[2] == Op::PropertyArrayU64("reg"@, reg));
    assert forall|other: u64|
        #![trigger memory::memory_node(layout, other, second_vm)]
        memory::memory_node(layout, other, second_vm) == memory::memory_node(
            layout,
            mem_size,
            second_vm,
        ) implies other == mem_size by {
        lemma_memory(layout, other, second_vm);
        let values = steps[2]->PropertyArrayU64_1;
        assert(values[1] == mem_size);
        assert(values[1] == other);
    }
    reg
}

/// The reserved parts of memory: the pool that DMA is restricted to, where one is
/// asked for, is of the size that is asked for, and starts at a page.
#[verifier::rlimit(40)]
pub proof fn lemma_resv_memory(
    layout: Layout,
    swiotlb_size: Option<u64>,
    page_size: u64,
    device: Option<Passthrough>,
    second_vm: bool,
)
    ensures
        ({
            let ops = memory::resv_memory_node(
                layout,
                swiotlb_size,
                page_size,
                device,
                second_vm,
            );
            &&& lookup::at(ops, seq!["reserved-memory"@]) == seq![
                Op::BeginNode("reserved-memory"@),
                Op::PropertyU32("#address-cells"@, 2),
                Op::PropertyU32("#size-cells"@, 2),
                Op::PropertyNull("ranges"@),
            ] + (if swiotlb_size is Some {
                seq![Op::BeginNode("restricted_dma_reserved"@)]
            } else {
                Seq::empty()
            }) + seq![Op::BeginNode("inference_io_reserved"@)] + (if device == Some(
                Passthrough::Edgetpu,
            ) {
                seq![Op::BeginNode("tpu_fw"@)]
            } else {
                Seq::empty()
            })
            &&& lookup::at(ops, seq!["reserved-memory"@, "restricted_dma_reserved"@])
                == match swiotlb_size {
                Some(size) => seq![
                    Op::BeginNode("restricted_dma_reserved"@),
                    Op::PropertyU32("phandle"@, board::PHANDLE_RESTRICTED_DMA_POOL),
                    Op::PropertyString("compatible"@, "restricted-dma-pool"@),
                    Op::PropertyU64("size"@, size),
                    Op::PropertyU64("alignment"@, page_size),
                ],
                None => Seq::empty(),
            }
            &&& lookup::at(ops, seq!["reserved-memory"@, "inference_io_reserved"@]) == seq![
                Op::BeginNode("inference_io_reserved"@),
                Op::PropertyString("compatible"@, "inference-io-memory"@),
                Op::PropertyArrayU64(
                    "reg"@,
                    seq![
                        if second_vm {
                            layout.inference_io_mem_start_second
                        } else {
                            layout.inference_io_mem_start
                        },
                        layout.inference_io_mem_max_size,
                        0,
                        0,
                    ],
                ),
            ]
            &&& lookup::at(ops, seq!["reserved-memory"@, "tpu_fw"@]) == if device == Some(
                Passthrough::Edgetpu,
            ) {
                seq![
                    Op::BeginNode("tpu_fw"@),
                    Op::PropertyArrayU64("reg"@, seq![0, 0x1000000, 0, 0]),
                    Op::PropertyU32("phandle"@, board::PHANDLE_EDGETPU_TPU_FW),
                ]
            } else {
                Seq::empty()
            }
        }),
{
    reveal_strlit("restricted_dma_reserved");
    reveal_strlit("inference_io_reserved");
    reveal_strlit("tpu_fw");
    assert("restricted_dma_reserved"@.len() == 23);
    assert("inference_io_reserved"@.len() == 21);
    assert("tpu_fw"@.len() == 6);
    let root = seq!["reserved-memory"@];
    let one = seq!["reserved-memory"@, "restricted_dma_reserved"@];
    let two = seq!["reserved-memory"@, "inference_io_reserved"@];
    let three = seq!["reserved-memory"@, "tpu_fw"@];
    lemma_resv_memory_below(layout, swiotlb_size, page_size, device, second_vm, root);
    lemma_resv_memory_below(layout, swiotlb_size, page_size, device, second_vm, one);
    lemma_resv_memory_below(layout, swiotlb_size, page_size, device, second_vm, two);
    lemma_resv_memory_below(layout, swiotlb_size, page_size, device, second_vm, three);
    assert(one.skip(1) =~= seq!["restricted_dma_reserved"@]);
    assert(two.skip(1) =~= seq!["inference_io_reserved"@]);
    assert(three.skip(1) =~= seq!["tpu_fw"@]);
}

/// The reserved parts of memory are found one by one.
proof fn lemma_resv_memory_below(
    layout: Layout,
    swiotlb_size: Option<u64>,
    page_size: u64,
    device: Option<Passthrough>,
    second_vm: bool,
    path: Seq<Seq<char>>,
)
    requires
        path.len() > 0,
        path[0] == "reserved-memory"@,
    ensures
        ({
            let rest = path.skip(1);
            lookup::at(
                memory::resv_memory_node(layout, swiotlb_size, page_size, device, second_vm),
                path,
            ) == (if path.len() == 1 {
                seq![
                    Op::BeginNode("reserved-memory"@),
                    Op::PropertyU32("#address-cells"@, 2),
                    Op::PropertyU32("#size-cells"@, 2),
                    Op::PropertyNull("ranges"@),
                ]
            } else {
                Seq::empty()
            }) + (if swiotlb_size is Some {
                found_in_leaf(memory::dma_pool(swiotlb_size, page_size), rest)
            } else {
                Seq::empty()
            }) + found_in_leaf(memory::inference_io(layout, second_vm), rest) + (if device == Some(
                Passthrough::Edgetpu,
            ) {
                found_in_leaf(memory::tpu_firmware(device), rest)
            } else {
                Seq::empty()
            })
        }),
{
    let rest = path.skip(1);
    let pool = memory::dma_pool(swiotlb_size, page_size);
    let inference = memory::inference_io(layout, second_vm);
    let firmware = memory::tpu_firmware(device);
    lemma_at_empty(rest);
    if swiotlb_size is Some {
        lemma_at_leaf(pool, rest);
    }
    lemma_at_leaf(inference, rest);
    if device == Some(Passthrough::Edgetpu) {
        lemma_at_leaf(firmware, rest);
    }
    nesting::lemma_forests_join(pool, inference);
    nesting::lemma_forests_join(pool + inference, firmware);
    lookup::lemma_at_join(pool, inference, rest);
    lookup::lemma_at_join(pool + inference, firmware, rest);
    let properties = seq![
        Op::PropertyU32("#address-cells"@, 2),
        Op::PropertyU32("#size-cells"@, 2),
        Op::PropertyNull("ranges"@),
    ];
    lookup::lemma_at_node(
        "reserved-memory"@,
        properties,
        pool + inference + firmware,
        path,
    );
    if path.len() == 1 {
        assert(rest =~= Seq::empty());
    }
}

/// What is found of a node that has properties only.
spec fn found_in_leaf(ops: Seq<Op>, path: Seq<Seq<char>>) -> Seq<Op> {
    if path.len() == 0 {
        seq![ops[0]]
    } else if path.len() == 1 && path[0] == ops[0]->BeginNode_0 {
        ops.drop_last()
    } else {
        Seq::empty()
    }
}

/// The interrupt controller: of its four values, the first two give the
/// distributor, the others the redistributors, as many as there are CPUs, right
/// below it, or the CPU interface.
#[verifier::rlimit(40)]
pub proof fn lemma_gic(layout: Layout, is_gicv3: bool, num_cpus: u64) -> (reg: Seq<u64>)
    requires
        is_gicv3 ==> layout.gic_redist_size * num_cpus <= layout.gic_dist_base,
    ensures
        lookup::at(interrupts::gic_node(layout, is_gicv3, num_cpus), seq!["intc"@]) == seq![
            Op::BeginNode("intc"@),
            Op::PropertyString(
                "compatible"@,
                if is_gicv3 {
                    "arm,gic-v3"@
                } else {
                    "arm,cortex-a15-gic"@
                },
            ),
            Op::PropertyU32("#interrupt-cells"@, 3),
            Op::PropertyNull("interrupt-controller"@),
            Op::PropertyArrayU64("reg"@, reg),
            Op::PropertyU32("phandle"@, board::PHANDLE_GIC),
            Op::PropertyU32("#address-cells"@, 2),
            Op::PropertyU32("#size-cells"@, 2),
        ],
        reg.len() == 4,
        reg[0] == layout.gic_dist_base,
        reg[1] == layout.gic_dist_size,
        is_gicv3 ==> reg[2] + reg[3] == layout.gic_dist_base && reg[3] == layout.gic_redist_size
            * num_cpus,
        !is_gicv3 ==> reg[2] == layout.gic_cpui_base && reg[3] == layout.gic_cpui_size,
{
    let ops = interrupts::gic_node(layout, is_gicv3, num_cpus);
    lemma_at_leaf(ops, seq!["intc"@]);
    assert(layout.gic_redist_size * num_cpus >= 0) by (nonlinear_arith);
    interrupts::gic_reg(layout, is_gicv3, num_cpus)
}

proof fn lemma_private_interrupt(irq: u32, num_cpus: u32, irq_type: u32)
    requires
        irq_type <= 0xff,
    ensures
        ({
            let cells = interrupts::private_interrupt(irq, num_cpus, irq_type);
            &&& cells.len() == 3
            &&& cells[0] == 1
            &&& cells[1] == irq
            &&& cells[2] <= 0xffff
            &&& cells[2] & 0xff == irq_type
            &&& forall|cpu_id: u32|
                cpu_id < 8 ==> ((#[trigger] (cells[2] >> (8 + cpu_id) as u32)) & 1 == 1 <==> cpu_id
                    < num_cpus)
        }),
{
    let cells = interrupts::private_interrupt(irq, num_cpus, irq_type);
    let bits = interrupts::cpu_bits(num_cpus) as u32;
    interrupts::lemma_cpu_bits(num_cpus, 0);
    let whole = cells[2];
    assert(whole == bits + irq_type);
    assert(bits % 0x100 == 0) by {
        vstd::arithmetic::div_mod::lemma_mod_multiples_basic(
            interrupts::cpu_bits(num_cpus) as int / 0x100,
            0x100,
        );
    }
    assert(whole & 0xff == irq_type) by (bit_vector)
        requires
            whole == bits + irq_type,
            bits % 0x100 == 0,
            irq_type <= 0xff,
            bits <= 0xff00,
    ;
    assert forall|cpu_id: u32| cpu_id < 8 implies ((#[trigger] (whole >> (8 + cpu_id) as u32)) & 1
        == 1 <==> cpu_id < num_cpus) by {
        interrupts::lemma_cpu_bits(num_cpus, cpu_id);
        let shift = (8 + cpu_id) as u32;
        assert((whole >> shift) & 1 == (bits >> shift) & 1) by (bit_vector)
            requires
                whole == bits + irq_type,
                bits % 0x100 == 0,
                irq_type <= 0xff,
                bits <= 0xff00,
                8 <= shift <= 15,
        ;
    }
}

/// The timer has four interrupts in each CPU, low level, that go to those of the
/// first eight CPUs that there are.
#[verifier::rlimit(40)]
pub proof fn lemma_timer(num_cpus: u32) -> (cells: Seq<u32>)
    ensures
        lookup::at(interrupts::timer_node(num_cpus), seq!["timer"@]) == seq![
            Op::BeginNode("timer"@),
            Op::PropertyString("compatible"@, "arm,armv8-timer"@),
            Op::PropertyArrayU32("interrupts"@, cells),
            Op::PropertyNull("always-on"@),
        ],
        cells.len() == 12,
        cells[1] == 13 && cells[4] == 14 && cells[7] == 11 && cells[10] == 10,
        forall|n: int|
            #![trigger cells[3 * n + 2]]
            0 <= n < 4 ==> cells[3 * n] == 1 && cells[3 * n + 2] <= 0xffff && cells[3 * n + 2]
                & 0xff == 8,
        forall|n: int, cpu_id: u32|
            0 <= n < 4 && cpu_id < 8 ==> ((#[trigger] (cells[3 * n + 2] >> (8 + cpu_id) as u32)) & 1
                == 1 <==> cpu_id < num_cpus),
{
    let ops = interrupts::timer_node(num_cpus);
    lemma_at_leaf(ops, seq!["timer"@]);
    let cells = ops[2]->PropertyArrayU32_1;
    lemma_private_interrupt(13, num_cpus, 8);
    lemma_private_interrupt(14, num_cpus, 8);
    lemma_private_interrupt(11, num_cpus, 8);
    lemma_private_interrupt(10, num_cpus, 8);
    assert forall|n: int| #![trigger cells[3 * n + 2]] 0 <= n < 4 implies cells[3 * n] == 1
        && cells[3 * n + 2] == interrupts::private_interrupt(13, num_cpus, 8)[2] by {
        assert(n == 0 || n == 1 || n == 2 || n == 3);
    }
    cells
}

/// The performance monitoring unit has one interrupt in each CPU, high level,
/// that goes to those of the first eight CPUs that there are.
pub proof fn lemma_pmu(layout: Layout, num_cpus: u32) -> (cells: Seq<u32>)
    ensures
        lookup::at(interrupts::pmu_node(layout, num_cpus), seq!["pmu"@]) == seq![
            Op::BeginNode("pmu"@),
            Op::PropertyString("compatible"@, "arm,armv8-pmuv3"@),
            Op::PropertyArrayU32("interrupts"@, cells),
        ],
        cells.len() == 3,
        cells[0] == 1 && cells[1] == layout.pmu_irq,
        cells[2] <= 0xffff && cells[2] & 0xff == 4,
        forall|cpu_id: u32|
            cpu_id < 8 ==> ((#[trigger] (cells[2] >> (8 + cpu_id) as u32)) & 1 == 1 <==> cpu_id
                < num_cpus),
{
    lemma_at_leaf(interrupts::pmu_node(layout, num_cpus), seq!["pmu"@]);
    lemma_private_interrupt(layout.pmu_irq, num_cpus, 4);
    interrupts::private_interrupt(layout.pmu_irq, num_cpus, 4)
}

/// The name of the node of a CPU.
spec fn cpu_name(cpu_id: nat) -> Seq<char> {
    "cpu@"@ + text::hex(cpu_id)
}

/// The node of a CPU has properties only.
proof fn lemma_cpu_node(num_cpus: u32, cpu_capacity: Map<usize, u32>, cpu_id: u32)
    ensures
        shape::is_leaf(cpu::cpu_node(num_cpus, cpu_capacity, cpu_id)),
        cpu::cpu_node(num_cpus, cpu_capacity, cpu_id)[0] == Op::BeginNode(cpu_name(cpu_id as nat)),
{
}

/// The nodes of the CPUs are found by their numbers.
#[verifier::spinoff_prover]
#[verifier::rlimit(60)]
proof fn lemma_cpu_nodes(
    num_cpus: u32,
    cpu_capacity: Map<usize, u32>,
    count: nat,
    path: Seq<Seq<char>>,
    cpu_id: nat,
)
    requires
        count <= num_cpus,
        cpu_id <= u32::MAX,
        path.len() <= 1,
        path.len() == 1 ==> path[0] == cpu_name(cpu_id),
    ensures
        nesting::is_forest(cpu::cpu_nodes(num_cpus, cpu_capacity, count)),
        lookup::at(cpu::cpu_nodes(num_cpus, cpu_capacity, count), path) == if path.len() == 0 {
            Seq::new(count, |i: int| Op::BeginNode(cpu_name(i as nat)))
        } else if cpu_id < count {
            cpu::cpu_node(num_cpus, cpu_capacity, cpu_id as u32).drop_last()
        } else {
            Seq::empty()
        },
    decreases count,
{
    if count == 0 {
        lemma_at_empty(path);
        assert(Seq::new(0, |i: int| Op::BeginNode(cpu_name(i as nat))) =~= Seq::<Op>::empty());
    } else {
        let rest = (count - 1) as nat;
        let front = cpu::cpu_nodes(num_cpus, cpu_capacity, rest);
        let last = cpu::cpu_node(num_cpus, cpu_capacity, rest as u32);
        lemma_cpu_nodes(num_cpus, cpu_capacity, rest, path, cpu_id);
        lemma_cpu_node(num_cpus, cpu_capacity, rest as u32);
        lemma_at_leaf(last, path);
        nesting::lemma_forests_join(front, last);
        lookup::lemma_at_join(front, last, path);
        text::lemma_names_injective("cpu@"@, cpu_id, rest);
        if path.len() == 0 {
            assert(lookup::at(front + last, path) =~= Seq::new(
                count,
                |i: int| Op::BeginNode(cpu_name(i as nat)),
            ));
        } else {
            assert(lookup::at(front + last, path) =~= if cpu_id < count {
                cpu::cpu_node(num_cpus, cpu_capacity, cpu_id as u32).drop_last()
            } else {
                Seq::empty()
            });
        }
    }
}

/// The name of the node of a core.
spec fn core_name(core_idx: nat) -> Seq<char> {
    "core"@ + text::decimal(core_idx)
}

/// The name of the node of a cluster.
spec fn cluster_name(cluster_idx: nat) -> Seq<char> {
    "cluster"@ + text::decimal(cluster_idx)
}

/// The cores of a cluster are found by their numbers.
proof fn lemma_core_nodes(cpus: Seq<usize>, count: nat, path: Seq<Seq<char>>, core_idx: nat)
    requires
        count <= cpus.len(),
        path.len() <= 1,
        path.len() == 1 ==> path[0] == core_name(core_idx),
    ensures
        nesting::is_forest(cpu::core_nodes(cpus, count)),
        lookup::at(cpu::core_nodes(cpus, count), path) == if path.len() == 0 {
            Seq::new(count, |k: int| Op::BeginNode(core_name(k as nat)))
        } else if core_idx < count {
            cpu::core_node(cpus, core_idx).drop_last()
        } else {
            Seq::empty()
        },
    decreases count,
{
    if count == 0 {
        lemma_at_empty(path);
        assert(Seq::new(0, |k: int| Op::BeginNode(core_name(k as nat))) =~= Seq::<Op>::empty());
    } else {
        let rest = (count - 1) as nat;
        let front = cpu::core_nodes(cpus, rest);
        let last = cpu::core_node(cpus, rest);
        lemma_core_nodes(cpus, rest, path, core_idx);
        lemma_at_leaf(last, path);
        nesting::lemma_forests_join(front, last);
        lookup::lemma_at_join(front, last, path);
        text::lemma_names_injective("core"@, core_idx, rest);
        if path.len() == 0 {
            assert(lookup::at(front + last, path) =~= Seq::new(
                count,
                |k: int| Op::BeginNode(core_name(k as nat)),
            ));
        } else {
            assert(lookup::at(front + last, path) =~= if core_idx < count {
                cpu::core_node(cpus, core_idx).drop_last()
            } else {
                Seq::empty()
            });
        }
    }
}

/// The clusters are found by their numbers, and so are the cores in them.
proof fn lemma_cluster_nodes(
    cpu_clusters: Seq<Vec<usize>>,
    count: nat,
    path: Seq<Seq<char>>,
    cluster_idx: nat,
    core_idx: nat,
)
    requires
        count <= cpu_clusters.len(),
        path.len() <= 2,
        path.len() >= 1 ==> path[0] == cluster_name(cluster_idx),
        path.len() == 2 ==> path[1] == core_name(core_idx),
    ensures
        nesting::is_forest(cpu::cluster_nodes(cpu_clusters, count)),
        lookup::at(cpu::cluster_nodes(cpu_clusters, count), path) == if path.len() == 0 {
            Seq::new(count, |i: int| Op::BeginNode(cluster_name(i as nat)))
        } else if cluster_idx >= count {
            Seq::empty()
        } else if path.len() == 1 {
            seq![Op::BeginNode(cluster_name(cluster_idx))] + Seq::new(
                cpu_clusters[cluster_idx as int]@.len(),
                |k: int| Op::BeginNode(core_name(k as nat)),
            )
        } else if core_idx < cpu_clusters[cluster_idx as int]@.len() {
            cpu::core_node(cpu_clusters[cluster_idx as int]@, core_idx).drop_last()
        } else {
            Seq::empty()
        },
    decreases count,
{
    if count == 0 {
        lemma_at_empty(path);
        assert(Seq::new(0, |i: int| Op::BeginNode(cluster_name(i as nat))) =~= Seq::<Op>::empty());
    } else {
        let rest = (count - 1) as nat;
        let cpus = cpu_clusters[count - 1]@;
        let cores = cpu::core_nodes(cpus, cpus.len());
        let front = cpu::cluster_nodes(cpu_clusters, rest);
        let last = nesting::node(cluster_name(rest), Seq::empty(), cores);
        let below = if path.len() == 0 {
            path
        } else {
            path.skip(1)
        };
        lemma_cluster_nodes(cpu_clusters, rest, path, cluster_idx, core_idx);
        lemma_core_nodes(cpus, cpus.len(), below, core_idx);
        lemma_core_nodes(cpus, cpus.len(), Seq::empty(), core_idx);
        nesting::lemma_node_is_forest(cluster_name(rest), Seq::empty(), cores);
        lookup::lemma_at_node(cluster_name(rest), Seq::empty(), cores, path);
        nesting::lemma_forests_join(front, last);
        lookup::lemma_at_join(front, last, path);
        text::lemma_names_injective("cluster"@, cluster_idx, rest);
        if path.len() == 0 {
            assert(lookup::at(front + last, path) =~= Seq::new(
                count,
                |i: int| Op::BeginNode(cluster_name(i as nat)),
            ));
        } else if cluster_idx >= count {
            assert(lookup::at(front + last, path) =~= Seq::empty());
        } else if path.len() == 1 {
            assert(lookup::at(front + last, path) =~= seq![
                Op::BeginNode(cluster_name(cluster_idx)),
            ] + Seq::new(
                cpu_clusters[cluster_idx as int]@.len(),
                |k: int| Op::BeginNode(core_name(k as nat)),
            ));
        } else {
            assert(lookup::at(front + last, path) =~= if core_idx
                < cpu_clusters[cluster_idx as int]@.len() {
                cpu::core_node(cpu_clusters[cluster_idx as int]@, core_idx).drop_last()
            } else {
                Seq::empty()
            });
        }
    }
}

/// The node of all CPUs holds the nodes of the CPUs and, where there are
/// clusters, the map of these.
proof fn lemma_cpus_below(
    num_cpus: u32,
    cpu_clusters: Seq<Vec<usize>>,
    cpu_capacity: Map<usize, u32>,
    path: Seq<Seq<char>>,
)
    requires
        path.len() > 0,
        path[0] == "cpus"@,
    ensures
        ({
            let rest = path.skip(1);
            let clusters = cpu::cluster_nodes(cpu_clusters, cpu_clusters.len());
            lookup::at(cpu::cpus_node(num_cpus, cpu_clusters, cpu_capacity), path) == (
            if path.len() == 1 {
                seq![
                    Op::BeginNode("cpus"@),
                    Op::PropertyU32("#address-cells"@, 1),
                    Op::PropertyU32("#size-cells"@, 0),
                ]
            } else {
                Seq::empty()
            }) + lookup::at(cpu::cpu_nodes(num_cpus, cpu_capacity, num_cpus as nat), rest) + (
            if cpu_clusters.len() == 0 {
                Seq::empty()
            } else if path.len() == 1 {
                seq![Op::BeginNode("cpu-map"@)]
            } else if rest[0] != "cpu-map"@ {
                Seq::empty()
            } else if rest.len() == 1 {
                seq![Op::BeginNode("cpu-map"@)] + lookup::at(clusters, Seq::empty())
            } else {
                lookup::at(clusters, rest.skip(1))
            })
        }),
{
    let rest = path.skip(1);
    let cpus = cpu::cpu_nodes(num_cpus, cpu_capacity, num_cpus as nat);
    let clusters = cpu::cluster_nodes(cpu_clusters, cpu_clusters.len());
    let map = cpu::cpu_map(cpu_clusters);
    let none = Seq::<Seq<char>>::empty();
    lemma_cpu_nodes(num_cpus, cpu_capacity, num_cpus as nat, none, 0);
    lemma_cluster_nodes(cpu_clusters, cpu_clusters.len(), none, 0, 0);
    lemma_at_empty(rest);
    nesting::lemma_node_is_forest("cpu-map"@, Seq::empty(), clusters);
    lookup::lemma_at_node("cpu-map"@, Seq::empty(), clusters, rest);
    assert(seq![Op::BeginNode("cpu-map"@)] + Seq::<Op>::empty() =~= seq![
        Op::BeginNode("cpu-map"@),
    ]);
    nesting::lemma_forests_join(cpus, map);
    lookup::lemma_at_join(cpus, map, rest);
    lookup::lemma_at_node(
        "cpus"@,
        seq![Op::PropertyU32("#address-cells"@, 1), Op::PropertyU32("#size-cells"@, 0)],
        cpus + map,
        path,
    );
    if path.len() == 1 {
        assert(rest =~= none);
    }
}

/// Each CPU has a node of its own, with its number, what refers to it, and its
/// capacity where it has one. There are no others.
pub proof fn lemma_cpu(
    num_cpus: u32,
    cpu_clusters: Seq<Vec<usize>>,
    cpu_capacity: Map<usize, u32>,
    cpu_id: u32,
)
    requires
        cpu_id < num_cpus <= u32::MAX - 0x100 + 1,
    ensures
        ({
            let ops = cpu::cpus_node(num_cpus, cpu_clusters, cpu_capacity);
            let name = "cpu@"@ + text::hex(cpu_id as nat);
            &&& lookup::at(ops, seq!["cpus"@]) == seq![
                Op::BeginNode("cpus"@),
                Op::PropertyU32("#address-cells"@, 1),
                Op::PropertyU32("#size-cells"@, 0),
            ] + Seq::new(
                num_cpus as nat,
                |i: int| Op::BeginNode("cpu@"@ + text::hex(i as nat)),
            ) + (if cpu_clusters.len() == 0 {
                Seq::empty()
            } else {
                seq![Op::BeginNode("cpu-map"@)]
            })
            &&& lookup::at(ops, seq!["cpus"@, name]) == seq![
                Op::BeginNode(name),
                Op::PropertyString("device_type"@, "cpu"@),
                Op::PropertyString("compatible"@, "arm,arm-v8"@),
            ] + (if num_cpus > 1 {
                seq![Op::PropertyString("enable-method"@, "psci"@)]
            } else {
                Seq::empty()
            }) + seq![
                Op::PropertyU32("reg"@, cpu_id),
                Op::PropertyU32("phandle"@, (0x100 + cpu_id) as u32),
            ] + (if cpu_capacity.contains_key(cpu_id as usize) {
                seq![Op::PropertyU32("capacity-dmips-mhz"@, cpu_capacity[cpu_id as usize])]
            } else {
                Seq::empty()
            })
        }),
{
    let name = cpu_name(cpu_id as nat);
    let none = Seq::<Seq<char>>::empty();
    let path = seq!["cpus"@, name];
    reveal_strlit("cpu@");
    reveal_strlit("cpu-map");
    assert("cpu@"@[3] == '@' && "cpu-map"@[3] == '-');
    assert(name[3] == "cpu@"@[3]);
    lemma_cpu_nodes(num_cpus, cpu_capacity, num_cpus as nat, none, 0);
    lemma_cpus_below(num_cpus, cpu_clusters, cpu_capacity, seq!["cpus"@]);
    assert(seq!["cpus"@].skip(1) =~= none);
    assert(Seq::new(num_cpus as nat, |i: int| Op::BeginNode(cpu_name(i as nat))) =~= Seq::new(
        num_cpus as nat,
        |i: int| Op::BeginNode("cpu@"@ + text::hex(i as nat)),
    ));
    assert(path.skip(1) =~= seq![name]);
    lemma_cpu_nodes(num_cpus, cpu_capacity, num_cpus as nat, seq![name], cpu_id as nat);
    lemma_cpus_below(num_cpus, cpu_clusters, cpu_capacity, path);
}

/// The map of the clusters: below the node of cluster `cluster_idx`, the node of
/// core `core_idx` refers to the CPU of that place in the cluster.
pub proof fn lemma_core(
    num_cpus: u32,
    cpu_clusters: Seq<Vec<usize>>,
    cpu_capacity: Map<usize, u32>,
    cluster_idx: nat,
    core_idx: nat,
)
    requires
        cluster_idx < cpu_clusters.len(),
        core_idx < cpu_clusters[cluster_idx as int]@.len(),
        cpu_clusters[cluster_idx as int]@[core_idx as int] as nat % 0x1_0000_0000 <= u32::MAX
            - 0x100,
    ensures
        ({
            let ops = cpu::cpus_node(num_cpus, cpu_clusters, cpu_capacity);
            let cpu_id = cpu_clusters[cluster_idx as int]@[core_idx as int] as nat % 0x1_0000_0000;
            let cluster = "cluster"@ + text::decimal(cluster_idx);
            let core = "core"@ + text::decimal(core_idx);
            let path = seq!["cpus"@, "cpu-map"@, cluster, core];
            &&& lookup::at(ops, seq!["cpus"@, "cpu-map"@]) == seq![
                Op::BeginNode("cpu-map"@),
            ] + Seq::new(
                cpu_clusters.len(),
                |i: int| Op::BeginNode("cluster"@ + text::decimal(i as nat)),
            )
            &&& lookup::at(ops, seq!["cpus"@, "cpu-map"@, cluster]) == seq![
                Op::BeginNode(cluster),
            ] + Seq::new(
                cpu_clusters[cluster_idx as int]@.len(),
                |k: int| Op::BeginNode("core"@ + text::decimal(k as nat)),
            )
            &&& lookup::at(ops, path) == seq![
                Op::BeginNode(core),
                Op::PropertyU32("cpu"@, (0x100 + cpu_id) as u32),
            ]
            &&& lookup::tells(ops, path, Op::PropertyU32("cpu"@, (0x100 + cpu_id) as u32))
        }),
{
    let ops = cpu::cpus_node(num_cpus, cpu_clusters, cpu_capacity);
    let cpus = cpu_clusters[cluster_idx as int]@;
    let none = Seq::<Seq<char>>::empty();
    let cluster = cluster_name(cluster_idx);
    let core = core_name(core_idx);
    let map_path = seq!["cpus"@, "cpu-map"@];
    let cluster_path = seq!["cpus"@, "cpu-map"@, cluster];
    let path = seq!["cpus"@, "cpu-map"@, cluster, core];
    lemma_not_a_cpu(num_cpus, cpu_capacity, num_cpus as nat, map_path.skip(1));
    lemma_not_a_cpu(num_cpus, cpu_capacity, num_cpus as nat, cluster_path.skip(1));
    lemma_not_a_cpu(num_cpus, cpu_capacity, num_cpus as nat, path.skip(1));
    lemma_cpus_below(num_cpus, cpu_clusters, cpu_capacity, map_path);
    lemma_cpus_below(num_cpus, cpu_clusters, cpu_capacity, cluster_path);
    lemma_cpus_below(num_cpus, cpu_clusters, cpu_capacity, path);
    assert(cluster_path.skip(1).skip(1) =~= seq![cluster]);
    assert(path.skip(1).skip(1) =~= seq![cluster, core]);
    lemma_cluster_nodes(cpu_clusters, cpu_clusters.len(), none, 0, 0);
    lemma_cluster_nodes(cpu_clusters, cpu_clusters.len(), seq![cluster], cluster_idx, 0);
    lemma_cluster_nodes(
        cpu_clusters,
        cpu_clusters.len(),
        seq![cluster, core],
        cluster_idx,
        core_idx,
    );
    assert(Seq::new(cpu_clusters.len(), |i: int| Op::BeginNode(cluster_name(i as nat)))
        =~= Seq::new(
        cpu_clusters.len(),
        |i: int| Op::BeginNode("cluster"@ + text::decimal(i as nat)),
    ));
    assert(Seq::new(cpus.len(), |k: int| Op::BeginNode(core_name(k as nat))) =~= Seq::new(
        cpus.len(),
        |k: int| Op::BeginNode("core"@ + text::decimal(k as nat)),
    ));
    let cpu_id = cpus[core_idx as int] as nat % 0x1_0000_0000;
    let steps = lookup::at(ops, path);
    assert(steps =~= seq![
        Op::BeginNode(core),
        Op::PropertyU32("cpu"@, (0x100 + cpu_id) as u32),
    ]);
    assert(steps[1] == Op::PropertyU32("cpu"@, (0x100 + cpu_id) as u32));
}

/// No CPU has the name of the map of the clusters.
#[verifier::spinoff_prover]
#[verifier::rlimit(60)]
proof fn lemma_not_a_cpu(
    num_cpus: u32,
    cpu_capacity: Map<usize, u32>,
    count: nat,
    path: Seq<Seq<char>>,
)
    requires
        path.len() > 0,
        path[0] == "cpu-map"@,
    ensures
        nesting::is_forest(cpu::cpu_nodes(num_cpus, cpu_capacity, count)),
        lookup::at(cpu::cpu_nodes(num_cpus, cpu_capacity, count), path) == Seq::<Op>::empty(),
    decreases count,
{
    if count == 0 {
        lemma_at_empty(path);
    } else {
        let rest = (count - 1) as nat;
        let front = cpu::cpu_nodes(num_cpus, cpu_capacity, rest);
        let last = cpu::cpu_node(num_cpus, cpu_capacity, rest as u32);
        lemma_not_a_cpu(num_cpus, cpu_capacity, rest, path);
        lemma_cpu_node(num_cpus, cpu_capacity, rest as u32);
        reveal_strlit("cpu@");
        reveal_strlit("cpu-map");
        assert("cpu@"@[3] == '@' && "cpu-map"@[3] == '-');
        assert((last[0]->BeginNode_0)[3] == '@');
        lemma_at_leaf(last, path);
        nesting::lemma_forests_join(front, last);
        lookup::lemma_at_join(front, last, path);
        assert(lookup::at(front + last, path) =~= Seq::empty());
    }
}

/// Where every CPU is in one cluster, in one place, the map refers to every CPU
/// from one core.
pub proof fn lemma_each_cpu_has_a_core(
    num_cpus: u32,
    cpu_clusters: Seq<Vec<usize>>,
    cpu_capacity: Map<usize, u32>,
    cpu_id: u32,
) -> (place: (nat, nat))
    requires
        cpu_id < num_cpus <= u32::MAX - 0x100 + 1,
        forall|i: int, k: int|
            0 <= i < cpu_clusters.len() && 0 <= k < cpu_clusters[i]@.len() ==> (
            #[trigger] cpu_clusters[i]@[k]) < num_cpus,
        exists|i: int, k: int|
            0 <= i < cpu_clusters.len() && 0 <= k < cpu_clusters[i]@.len()
                && #[trigger] cpu_clusters[i]@[k] == cpu_id,
        forall|i: int, k: int, j: int, l: int|
            0 <= i < cpu_clusters.len() && 0 <= k < cpu_clusters[i]@.len() && 0 <= j
                < cpu_clusters.len() && 0 <= l < cpu_clusters[j]@.len()
                && #[trigger] cpu_clusters[i]@[k] == #[trigger] cpu_clusters[j]@[l] ==> i == j && k
                == l,
    ensures
        place.0 < cpu_clusters.len(),
        place.1 < cpu_clusters[place.0 as int]@.len(),
        forall|i: nat, k: nat|
            #![trigger text::decimal(i), text::decimal(k)]
            i < cpu_clusters.len() && k < cpu_clusters[i as int]@.len() ==> (lookup::tells(
                cpu::cpus_node(num_cpus, cpu_clusters, cpu_capacity),
                seq![
                    "cpus"@,
                    "cpu-map"@,
                    "cluster"@ + text::decimal(i),
                    "core"@ + text::decimal(k),
                ],
                Op::PropertyU32("cpu"@, (0x100 + cpu_id) as u32),
            ) <==> place == (i, k)),
{
    let (i, k) = choose|i: int, k: int|
        0 <= i < cpu_clusters.len() && 0 <= k < cpu_clusters[i]@.len()
            && #[trigger] cpu_clusters[i]@[k] == cpu_id;
    let place = (i as nat, k as nat);
    assert forall|i: nat, k: nat|
        #![trigger text::decimal(i), text::decimal(k)]
        i < cpu_clusters.len() && k < cpu_clusters[i as int]@.len() implies (lookup::tells(
        cpu::cpus_node(num_cpus, cpu_clusters, cpu_capacity),
        seq!["cpus"@, "cpu-map"@, "cluster"@ + text::decimal(i), "core"@ + text::decimal(k)],
        Op::PropertyU32("cpu"@, (0x100 + cpu_id) as u32),
    ) <==> place == (i, k)) by {
        assert(cpu_clusters[i as int]@[k as int] < num_cpus);
        lemma_core(num_cpus, cpu_clusters, cpu_capacity, i, k);
    }
    place
}

/// A serial port.
pub proof fn lemma_serial_port(layout: Layout, addr: u64, irq: u32)
    ensures
        ({
            let name = "U6_16550A@"@ + text::hex(addr as nat);
            lookup::at(peripherals::serial_node(layout, addr, irq), seq![name]) == seq![
                Op::BeginNode(name),
                Op::PropertyString("compatible"@, "ns16550a"@),
                Op::PropertyArrayU64("reg"@, seq![addr, layout.serial_size]),
                Op::PropertyU32("clock-frequency"@, layout.serial_speed),
                Op::PropertyArrayU32("interrupts"@, seq![0, irq, 1]),
            ]
        }),
{
    let name = "U6_16550A@"@ + text::hex(addr as nat);
    lemma_at_leaf(peripherals::serial_node(layout, addr, irq), seq![name]);
}

/// The four serial ports are found by their addresses, as far as these differ:
/// the first and the third have one interrupt, the second and the fourth the
/// other.
#[verifier::rlimit(40)]
pub proof fn lemma_serial_ports(layout: Layout, port: int)
    requires
        0 <= port < 4,
        forall|i: int|
            0 <= i < 4 && i != port ==> (#[trigger] layout.serial_addr[i])
                != layout.serial_addr[port],
    ensures
        ({
            let ops = peripherals::serial_nodes(layout);
            let addr = layout.serial_addr[port];
            let name = "U6_16550A@"@ + text::hex(addr as nat);
            &&& lookup::at(ops, Seq::empty()) == Seq::new(
                4,
                |i: int| Op::BeginNode("U6_16550A@"@ + text::hex(layout.serial_addr[i] as nat)),
            )
            &&& lookup::at(ops, seq![name]) == seq![
                Op::BeginNode(name),
                Op::PropertyString("compatible"@, "ns16550a"@),
                Op::PropertyArrayU64("reg"@, seq![addr, layout.serial_size]),
                Op::PropertyU32("clock-frequency"@, layout.serial_speed),
                Op::PropertyArrayU32(
                    "interrupts"@,
                    seq![
                        0,
                        if port == 0 || port == 2 {
                            layout.serial_1_3_irq
                        } else {
                            layout.serial_2_4_irq
                        },
                        1,
                    ],
                ),
            ]
        }),
{
    let name = "U6_16550A@"@ + text::hex(layout.serial_addr[port] as nat);
    let none = Seq::<Seq<char>>::empty();
    lemma_serial_below(layout, none);
    lemma_serial_below(layout, seq![name]);
    assert forall|i: int| 0 <= i < 4 && i != port implies name != "U6_16550A@"@ + text::hex(
        (#[trigger] layout.serial_addr[i]) as nat,
    ) by {
        text::lemma_names_injective(
            "U6_16550A@"@,
            layout.serial_addr[port] as nat,
            layout.serial_addr[i] as nat,
        );
    }
    assert(port == 0 || layout.serial_addr[0] != layout.serial_addr[port]);
    assert(port == 1 || layout.serial_addr[1] != layout.serial_addr[port]);
    assert(port == 2 || layout.serial_addr[2] != layout.serial_addr[port]);
    assert(port == 3 || layout.serial_addr[3] != layout.serial_addr[port]);
}

/// The serial ports are found one by one.
proof fn lemma_serial_below(layout: Layout, path: Seq<Seq<char>>)
    ensures
        lookup::at(peripherals::serial_nodes(layout), path) == found_in_leaf(
            peripherals::serial_node(layout, layout.serial_addr[0], layout.serial_1_3_irq),
            path,
        ) + found_in_leaf(
            peripherals::serial_node(layout, layout.serial_addr[1], layout.serial_2_4_irq),
            path,
        ) + found_in_leaf(
            peripherals::serial_node(layout, layout.serial_addr[2], layout.serial_1_3_irq),
            path,
        ) + found_in_leaf(
            peripherals::serial_node(layout, layout.serial_addr[3], layout.serial_2_4_irq),
            path,
        ),
{
    let first = peripherals::serial_node(layout, layout.serial_addr[0], layout.serial_1_3_irq);
    let second = peripherals::serial_node(layout, layout.serial_addr[1], layout.serial_2_4_irq);
    let third = peripherals::serial_node(layout, layout.serial_addr[2], layout.serial_1_3_irq);
    let fourth = peripherals::serial_node(layout, layout.serial_addr[3], layout.serial_2_4_irq);
    lemma_at_leaf(first, path);
    lemma_at_leaf(second, path);
    lemma_at_leaf(third, path);
    lemma_at_leaf(fourth, path);
    nesting::lemma_forests_join(first, second);
    nesting::lemma_forests_join(first + second, third);
    lookup::lemma_at_join(first, second, path);
    lookup::lemma_at_join(first + second, third, path);
    lookup::lemma_at_join(first + second + third, fourth, path);
}

/// The real time clock refers to the clock before it.
#[verifier::rlimit(40)]
pub proof fn lemma_rtc(layout: Layout)
    ensures
        ({
            let ops = peripherals::rtc_nodes(layout);
            let name = "rtc@"@ + text::hex(layout.rtc_addr as nat);
            &&& lookup::at(ops, Seq::empty()) == seq![
                Op::BeginNode("pclk@3M"@),
                Op::BeginNode(name),
            ]
            &&& lookup::at(ops, seq!["pclk@3M"@]) == seq![
                Op::BeginNode("pclk@3M"@),
                Op::PropertyU32("#clock-cells"@, 0),
                Op::PropertyString("compatible"@, "fixed-clock"@),
                Op::PropertyU32("clock-frequency"@, 3141592),
                Op::PropertyU32("phandle"@, board::PHANDLE_RTC_CLOCK),
            ]
            &&& lookup::at(ops, seq![name]) == seq![
                Op::BeginNode(name),
                Op::PropertyString("compatible"@, "arm,primecell"@),
                Op::PropertyU32("arm,primecell-periphid"@, layout.rtc_amba_id),
                Op::PropertyArrayU64("reg"@, seq![layout.rtc_addr, layout.rtc_size]),
                Op::PropertyArrayU32("interrupts"@, seq![0, layout.rtc_irq, 4]),
                Op::PropertyU32("clocks"@, board::PHANDLE_RTC_CLOCK),
                Op::PropertyString("clock-names"@, "apb_pclk"@),
            ]
        }),
{
    let ops = peripherals::rtc_nodes(layout);
    let name = "rtc@"@ + text::hex(layout.rtc_addr as nat);
    let clock = peripherals::rtc_clock_node();
    let rest = ops.skip(clock.len() as int);
    reveal_strlit("pclk@3M");
    reveal_strlit("rtc@");
    assert("pclk@3M"@[0] == 'p' && "rtc@"@[0] == 'r' && "rtc@"@.len() == 4);
    assert(name[0] == 'r');
    assert(ops =~= clock + rest);
    let none = Seq::<Seq<char>>::empty();
    lemma_at_leaf(clock, none);
    lemma_at_leaf(rest, none);
    lookup::lemma_at_join(clock, rest, none);
    lemma_at_leaf(clock, seq!["pclk@3M"@]);
    lemma_at_leaf(rest, seq!["pclk@3M"@]);
    lookup::lemma_at_join(clock, rest, seq!["pclk@3M"@]);
    lemma_at_leaf(clock, seq![name]);
    lemma_at_leaf(rest, seq![name]);
    lookup::lemma_at_join(clock, rest, seq![name]);
}

/// The interface names what it is compatible with, the newest first: 1.0 for
/// versions since 1.0, 0.2 for versions since 0.2, and only itself for earlier
/// ones.
pub proof fn lemma_psci(version: PsciVersion) -> (names: Seq<Seq<char>>)
    ensures
        lookup::at(psci::psci_node(version), seq!["psci"@]) == seq![
            Op::BeginNode("psci"@),
            Op::PropertyStringList("compatible"@, names),
            Op::PropertyString("method"@, "hvc"@),
        ],
        names == psci::compatible_with(version),
        version.major >= 1 ==> names == seq!["arm,psci-1.0"@, "arm,psci-0.2"@],
        version.major == 0 && version.minor >= 2 ==> names == seq!["arm,psci-0.2"@],
        version.major == 0 && version.minor < 2 ==> names == seq!["arm,psci"@],
{
    lemma_at_leaf(psci::psci_node(version), seq!["psci"@]);
    psci::compatible_with(version)
}

/// The kernel gets its command line, its console, and the random bytes that were
/// read; the initial RAM disk, where there is one, is given by its start and its
/// end.
#[verifier::rlimit(40)]
pub proof fn lemma_chosen(
    layout: Layout,
    cmdline: Seq<char>,
    kaslr_seed: [u8; 8],
    rng_seed: [u8; 256],
    initrd: Option<(u64, usize)>,
) -> (seed: u64)
    requires
        initrd matches Some((addr, size)) ==> addr as nat % 0x1_0000_0000 + size as nat
            % 0x1_0000_0000 <= u32::MAX,
    ensures
        ({
            let seeds = Seeds { kaslr_seed: Some(kaslr_seed), rng_seed: Some(rng_seed) };
            let (ops, error) = chosen::chosen_node(layout, cmdline, seeds, initrd);
            &&& error is None
            &&& nesting::is_forest(ops)
            &&& lookup::at(ops, Seq::empty()) == seq![Op::BeginNode("chosen"@)]
            &&& lookup::at(ops, seq!["chosen"@]) == seq![
                Op::BeginNode("chosen"@),
                Op::PropertyU32("linux,pci-probe-only"@, 1),
                Op::PropertyString("bootargs"@, cmdline),
                Op::PropertyString(
                    "stdout-path"@,
                    "/U6_16550A@"@ + text::hex(layout.serial_addr[0] as nat),
                ),
                Op::PropertyU64("kaslr-seed"@, seed),
                Op::Property("rng-seed"@, rng_seed@),
            ] + match initrd {
                Some((addr, size)) => seq![
                    Op::PropertyU32("linux,initrd-start"@, (addr % 0x1_0000_0000) as u32),
                    Op::PropertyU32(
                        "linux,initrd-end"@,
                        (addr as nat % 0x1_0000_0000 + size as nat % 0x1_0000_0000) as u32,
                    ),
                ],
                None => Seq::empty(),
            }
        }),
        seed == kaslr_seed[0] + kaslr_seed[1] * 0x100 + kaslr_seed[2] * 0x1_0000 + kaslr_seed[3]
            * 0x100_0000 + kaslr_seed[4] * 0x1_0000_0000 + kaslr_seed[5] * 0x100_0000_0000
            + kaslr_seed[6] * 0x1_0000_0000_0000 + kaslr_seed[7] * 0x100_0000_0000_0000,
{
    let seeds = Seeds { kaslr_seed: Some(kaslr_seed), rng_seed: Some(rng_seed) };
    let ops = chosen::chosen_node(layout, cmdline, seeds, initrd).0;
    lemma_at_leaf(ops, Seq::empty());
    lemma_at_leaf(ops, seq!["chosen"@]);
    lemma_eight_bytes(kaslr_seed@);
    chosen::from_le_bytes(kaslr_seed@) as u64
}

/// The value of eight bytes, the lowest first.
proof fn lemma_eight_bytes(bytes: Seq<u8>)
    requires
        bytes.len() == 8,
    ensures
        chosen::from_le_bytes(bytes) == bytes[0] + bytes[1] * 0x100 + bytes[2] * 0x1_0000 + bytes[3]
            * 0x100_0000 + bytes[4] * 0x1_0000_0000 + bytes[5] * 0x100_0000_0000 + bytes[6]
            * 0x1_0000_0000_0000 + bytes[7] * 0x100_0000_0000_0000,
{
    assert(bytes.skip(0) =~= bytes);
    assert(bytes.skip(8).len() == 0);
    assert forall|i: int| 0 <= i < 8 implies (#[trigger] bytes.skip(i)).skip(1) == bytes.skip(
        i + 1,
    ) by {
        assert(bytes.skip(i).skip(1) =~= bytes.skip(i + 1));
    }
    assert(chosen::from_le_bytes(bytes.skip(8)) == 0);
    assert(chosen::from_le_bytes(bytes.skip(7)) == bytes[7]);
    assert(chosen::from_le_bytes(bytes.skip(6)) == bytes[6] + 0x100 * chosen::from_le_bytes(
        bytes.skip(7),
    ));
    assert(chosen::from_le_bytes(bytes.skip(5)) == bytes[5] + 0x100 * chosen::from_le_bytes(
        bytes.skip(6),
    ));
    assert(chosen::from_le_bytes(bytes.skip(4)) == bytes[4] + 0x100 * chosen::from_le_bytes(
        bytes.skip(5),
    ));
    assert(chosen::from_le_bytes(bytes.skip(3)) == bytes[3] + 0x100 * chosen::from_le_bytes(
        bytes.skip(4),
    ));
    assert(chosen::from_le_bytes(bytes.skip(2)) == bytes[2] + 0x100 * chosen::from_le_bytes(
        bytes.skip(3),
    ));
    assert(chosen::from_le_bytes(bytes.skip(1)) == bytes[1] + 0x100 * chosen::from_le_bytes(
        bytes.skip(2),
    ));
}

/// Without random bytes the work stops, and what was written before stands.
#[verifier::rlimit(40)]
pub proof fn lemma_chosen_stops(
    layout: Layout,
    cmdline: Seq<char>,
    seeds: Seeds,
    initrd: Option<(u64, usize)>,
)
    requires
        seeds.kaslr_seed is None || seeds.rng_seed is None,
    ensures
        ({
            let (ops, error) = chosen::chosen_node(layout, cmdline, seeds, initrd);
            let begin = seq![
                Op::BeginNode("chosen"@),
                Op::PropertyU32("linux,pci-probe-only"@, 1),
                Op::PropertyString("bootargs"@, cmdline),
                Op::PropertyString(
                    "stdout-path"@,
                    "/U6_16550A@"@ + text::hex(layout.serial_addr[0] as nat),
                ),
            ];
            &&& error == Some(Error::FdtIoError)
            &&& ops == match seeds.kaslr_seed {
                None => begin,
                Some(bytes) => begin.push(
                    Op::PropertyU64("kaslr-seed"@, chosen::from_le_bytes(bytes@) as u64),
                ),
            }
        }),
{
}

/// Cells `10 * i` to `10 * i + 9` of the interrupt map are those of interrupt
/// `i`.
proof fn lemma_interrupt_entries(irqs: Seq<PciIrq>, count: nat, i: int)
    requires
        0 <= i < count <= irqs.len(),
    ensures
        pci::interrupt_entries(irqs, count).len() == 10 * count,
        pci::interrupt_entries(irqs, count).subrange(10 * i, 10 * i + 10) == pci::interrupt_entry(
            irqs[i],
        ),
    decreases count,
{
    let rest = (count - 1) as nat;
    let front = pci::interrupt_entries(irqs, rest);
    let whole = pci::interrupt_entries(irqs, count);
    pci::lemma_entry_counts(Seq::empty(), irqs, rest);
    if i < rest {
        lemma_interrupt_entries(irqs, rest, i);
        assert(whole.subrange(10 * i, 10 * i + 10) =~= front.subrange(10 * i, 10 * i + 10));
    } else {
        assert(whole.subrange(10 * i, 10 * i + 10) =~= pci::interrupt_entry(irqs[i]));
    }
}

/// Cells `7 * i` to `7 * i + 6` of the address ranges are those of range `i`.
proof fn lemma_range_entries(ranges: Seq<PciRange>, count: nat, i: int)
    requires
        0 <= i < count <= ranges.len(),
    ensures
        pci::range_entries(ranges, count).len() == 7 * count,
        pci::range_entries(ranges, count).subrange(7 * i, 7 * i + 7) == pci::range_entry(ranges[i]),
    decreases count,
{
    let rest = (count - 1) as nat;
    let front = pci::range_entries(ranges, rest);
    let whole = pci::range_entries(ranges, count);
    pci::lemma_entry_counts(ranges, Seq::empty(), rest);
    if i < rest {
        lemma_range_entries(ranges, rest, i);
        assert(whole.subrange(7 * i, 7 * i + 7) =~= front.subrange(7 * i, 7 * i + 7));
    } else {
        assert(whole.subrange(7 * i, 7 * i + 7) =~= pci::range_entry(ranges[i]));
    }
}

/// Cells `4 * i` to `4 * i + 3` of the masks.
proof fn lemma_mask_entries(count: nat, i: int)
    requires
        0 <= i < count,
    ensures
        pci::mask_entries(count).len() == 4 * count,
        pci::mask_entries(count).subrange(4 * i, 4 * i + 4) == seq![0xf800u32, 0, 0, 7],
    decreases count,
{
    let rest = (count - 1) as nat;
    let front = pci::mask_entries(rest);
    let whole = pci::mask_entries(count);
    pci::lemma_entry_counts(Seq::empty(), Seq::empty(), rest);
    if i < rest {
        lemma_mask_entries(rest, i);
        assert(whole.subrange(4 * i, 4 * i + 4) =~= front.subrange(4 * i, 4 * i + 4));
    } else {
        assert(whole.subrange(4 * i, 4 * i + 4) =~= seq![0xf800u32, 0, 0, 7]);
    }
}

/// The PCI host controller: every address range has seven cells of its own, and
/// every interrupt ten, that map its device and pin to its number.
#[verifier::rlimit(40)]
pub proof fn lemma_pci(
    pci_irqs: Seq<PciIrq>,
    cfg: PciConfigRegion,
    ranges: Seq<PciRange>,
    dma_pool_phandle: Option<u32>,
) -> (lists: (Seq<u32>, Seq<u32>, Seq<u32>))
    requires
        forall|i: int| 0 <= i < pci_irqs.len() ==> (#[trigger] pci_irqs[i]).pin < u32::MAX,
    ensures
        ({
            let ops = pci::pci_node(pci_irqs, cfg, ranges, dma_pool_phandle);
            let (range_list, map, masks) = lists;
            &&& lookup::at(ops, seq!["pci"@]) == seq![
                Op::BeginNode("pci"@),
                Op::PropertyString("compatible"@, "pci-host-cam-generic"@),
                Op::PropertyString("device_type"@, "pci"@),
                Op::PropertyArrayU32("ranges"@, range_list),
                Op::PropertyArrayU32("bus-range"@, seq![0, 0]),
                Op::PropertyU32("#address-cells"@, 3),
                Op::PropertyU32("#size-cells"@, 2),
                Op::PropertyArrayU64("reg"@, seq![cfg.base, cfg.size]),
                Op::PropertyU32("#interrupt-cells"@, 1),
                Op::PropertyArrayU32("interrupt-map"@, map),
                Op::PropertyArrayU32("interrupt-map-mask"@, masks),
                Op::PropertyNull("dma-coherent"@),
            ] + match dma_pool_phandle {
                Some(phandle) => seq![Op::PropertyU32("memory-region"@, phandle)],
                None => Seq::empty(),
            }
            &&& range_list.len() == 7 * ranges.len()
            &&& forall|i: int|
                0 <= i < ranges.len() ==> {
                    let entry = range_list.subrange(7 * i, 7 * i + 7);
                    let range = #[trigger] ranges[i];
                    &&& entry[0] == (match range.space {
                        PciAddressSpace::Configuration => 0int,
                        PciAddressSpace::Io => 0x100_0000,
                        PciAddressSpace::Memory => 0x200_0000,
                        PciAddressSpace::Memory64 => 0x300_0000,
                    }) + (if range.prefetchable {
                        0x4000_0000int
                    } else {
                        0
                    })
                    &&& entry[1] * 0x1_0000_0000 + entry[2] == range.bus_address
                    &&& entry[3] * 0x1_0000_0000 + entry[4] == range.cpu_physical_address
                    &&& entry[5] * 0x1_0000_0000 + entry[6] == range.size
                }
            &&& map.len() == 10 * pci_irqs.len()
            &&& forall|i: int|
                0 <= i < pci_irqs.len() ==> map.subrange(10 * i, 10 * i + 10) == seq![
                    (#[trigger] pci_irqs[i]).config_address,
                    0,
                    0,
                    (pci_irqs[i].pin + 1) as u32,
                    board::PHANDLE_GIC,
                    0,
                    0,
                    0,
                    pci_irqs[i].irq_num,
                    4,
                ]
            &&& masks.len() == 4 * pci_irqs.len()
            &&& forall|i: int|
                0 <= i < pci_irqs.len() ==> #[trigger] masks.subrange(4 * i, 4 * i + 4) == seq![
                    0xf800u32,
                    0,
                    0,
                    7,
                ]
        }),
{
    let ops = pci::pci_node(pci_irqs, cfg, ranges, dma_pool_phandle);
    let range_list = pci::range_entries(ranges, ranges.len());
    let map = pci::interrupt_entries(pci_irqs, pci_irqs.len());
    let masks = pci::mask_entries(pci_irqs.len());
    lemma_at_leaf(ops, seq!["pci"@]);
    pci::lemma_entry_counts(ranges, pci_irqs, ranges.len());
    pci::lemma_entry_counts(ranges, pci_irqs, pci_irqs.len());
    assert forall|i: int| 0 <= i < ranges.len() implies {
        let entry = range_list.subrange(7 * i, 7 * i + 7);
        let range = #[trigger] ranges[i];
        &&& entry[0] == (match range.space {
            PciAddressSpace::Configuration => 0int,
            PciAddressSpace::Io => 0x100_0000,
            PciAddressSpace::Memory => 0x200_0000,
            PciAddressSpace::Memory64 => 0x300_0000,
        }) + (if range.prefetchable {
            0x4000_0000int
        } else {
            0
        })
        &&& entry[1] * 0x1_0000_0000 + entry[2] == range.bus_address
        &&& entry[3] * 0x1_0000_0000 + entry[4] == range.cpu_physical_address
        &&& entry[5] * 0x1_0000_0000 + entry[6] == range.size
    } by {
        lemma_range_entries(ranges, ranges.len(), i);
        cells::lemma_halves(ranges[i].bus_address);
        cells::lemma_halves(ranges[i].cpu_physical_address);
        cells::lemma_halves(ranges[i].size);
    }
    assert forall|i: int| 0 <= i < pci_irqs.len() implies map.subrange(10 * i, 10 * i + 10)
        == seq![
        (#[trigger] pci_irqs[i]).config_address,
        0,
        0,
        (pci_irqs[i].pin + 1) as u32,
        board::PHANDLE_GIC,
        0,
        0,
        0,
        pci_irqs[i].irq_num,
        4,
    ] by {
        lemma_interrupt_entries(pci_irqs, pci_irqs.len(), i);
    }
    assert forall|i: int| 0 <= i < pci_irqs.len() implies #[trigger] masks.subrange(
        4 * i,
        4 * i + 4,
    ) == seq![0xf800u32, 0, 0, 7] by {
        lemma_mask_entries(pci_irqs.len(), i);
    }
    (range_list, map, masks)
}

/// Lists of interrupts that differ give different interrupt maps, and so host
/// controllers that differ.
pub proof fn lemma_interrupt_map_injective(
    left: Seq<PciIrq>,
    right: Seq<PciIrq>,
    cfg: PciConfigRegion,
    ranges: Seq<PciRange>,
    dma_pool_phandle: Option<u32>,
)
    requires
        forall|i: int| 0 <= i < left.len() ==> (#[trigger] left[i]).pin < u32::MAX,
        forall|i: int| 0 <= i < right.len() ==> (#[trigger] right[i]).pin < u32::MAX,
        pci::pci_node(left, cfg, ranges, dma_pool_phandle) == pci::pci_node(
            right,
            cfg,
            ranges,
            dma_pool_phandle,
        ),
    ensures
        left == right,
{
    let (_, a, _) = lemma_pci(left, cfg, ranges, dma_pool_phandle);
    let (_, b, _) = lemma_pci(right, cfg, ranges, dma_pool_phandle);
    let steps = lookup::at(pci::pci_node(left, cfg, ranges, dma_pool_phandle), seq!["pci"@]);
    assert(steps[9] == Op::PropertyArrayU32("interrupt-map"@, a));
    assert(steps[9] == Op::PropertyArrayU32("interrupt-map"@, b));
    assert(left.len() == right.len());
    assert forall|i: int| 0 <= i < left.len() implies left[i] == right[i] by {
        let cells = a.subrange(10 * i, 10 * i + 10);
        assert(cells[0] == left[i].config_address);
        assert(cells[0] == right[i].config_address);
        assert(cells[3] == left[i].pin + 1);
        assert(cells[3] == right[i].pin + 1);
        assert(cells[8] == left[i].irq_num);
        assert(cells[8] == right[i].irq_num);
    }
}

/// Reserved memory is one node.
pub proof fn lemma_resv_memory_top(
    layout: Layout,
    swiotlb_size: Option<u64>,
    page_size: u64,
    device: Option<Passthrough>,
    second_vm: bool,
)
    ensures
        ({
            let ops = memory::resv_memory_node(
                layout,
                swiotlb_size,
                page_size,
                device,
                second_vm,
            );
            &&& nesting::is_forest(ops)
            &&& lookup::at(ops, Seq::empty()) == seq![Op::BeginNode("reserved-memory"@)]
        }),
{
    let none = Seq::<Seq<char>>::empty();
    let pool = memory::dma_pool(swiotlb_size, page_size);
    let inference = memory::inference_io(layout, second_vm);
    let firmware = memory::tpu_firmware(device);
    let properties = seq![
        Op::PropertyU32("#address-cells"@, 2),
        Op::PropertyU32("#size-cells"@, 2),
        Op::PropertyNull("ranges"@),
    ];
    lemma_at_empty(none);
    if swiotlb_size is Some {
        lemma_at_leaf(pool, none);
    }
    lemma_at_leaf(inference, none);
    if device == Some(Passthrough::Edgetpu) {
        lemma_at_leaf(firmware, none);
    }
    nesting::lemma_forests_join(pool, inference);
    nesting::lemma_forests_join(pool + inference, firmware);
    nesting::lemma_node_is_forest("reserved-memory"@, properties, pool + inference + firmware);
    lookup::lemma_at_node("reserved-memory"@, properties, pool + inference + firmware, none);
}

/// The CPUs are one node.
pub proof fn lemma_cpus_top(
    num_cpus: u32,
    cpu_clusters: Seq<Vec<usize>>,
    cpu_capacity: Map<usize, u32>,
)
    ensures
        ({
            let ops = cpu::cpus_node(num_cpus, cpu_clusters, cpu_capacity);
            &&& nesting::is_forest(ops)
            &&& lookup::at(ops, Seq::empty()) == seq![Op::BeginNode("cpus"@)]
        }),
{
    let none = Seq::<Seq<char>>::empty();
    let cpus = cpu::cpu_nodes(num_cpus, cpu_capacity, num_cpus as nat);
    let clusters = cpu::cluster_nodes(cpu_clusters, cpu_clusters.len());
    let map = cpu::cpu_map(cpu_clusters);
    let properties = seq![
        Op::PropertyU32("#address-cells"@, 1),
        Op::PropertyU32("#size-cells"@, 0),
    ];
    lemma_cpu_nodes(num_cpus, cpu_capacity, num_cpus as nat, none, 0);
    lemma_cluster_nodes(cpu_clusters, cpu_clusters.len(), none, 0, 0);
    lemma_at_empty(none);
    nesting::lemma_node_is_forest("cpu-map"@, Seq::empty(), clusters);
    nesting::lemma_forests_join(cpus, map);
    nesting::lemma_node_is_forest("cpus"@, properties, cpus + map);
    lookup::lemma_at_node("cpus"@, properties, cpus + map, none);
}

/// The serial ports are four nodes.
pub proof fn lemma_serial_top(layout: Layout)
    ensures
        lookup::at(peripherals::serial_nodes(layout), Seq::empty()) == seq![
            Op::BeginNode("U6_16550A@"@ + text::hex(layout.serial_addr[0] as nat)),
            Op::BeginNode("U6_16550A@"@ + text::hex(layout.serial_addr[1] as nat)),
            Op::BeginNode("U6_16550A@"@ + text::hex(layout.serial_addr[2] as nat)),
            Op::BeginNode("U6_16550A@"@ + text::hex(layout.serial_addr[3] as nat)),
        ],
{
    lemma_serial_below(layout, Seq::empty());
}

} // verus!
