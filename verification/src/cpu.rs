//! The CPUs and how they are grouped.

use std::collections::BTreeMap;

use vstd::prelude::*;

use crate::board;
use crate::nesting;
use crate::script::{FdtScript, Op};
use crate::text;

verus! {

/// The number as far as it fits a cell.
pub open spec fn low_cell(number: nat) -> nat {
    number % 0x1_0000_0000
}

/// The node of one CPU.
pub open spec fn cpu_node(num_cpus: u32, cpu_capacity: Map<usize, u32>, cpu_id: u32) -> Seq<Op> {
    nesting::node(
        "cpu@"@ + text::hex(cpu_id as nat),
        seq![
            Op::PropertyString("device_type"@, "cpu"@),
            Op::PropertyString("compatible"@, "arm,arm-v8"@),
        ] + (if num_cpus > 1 {
            seq![Op::PropertyString("enable-method"@, "psci"@)]
        } else {
            Seq::empty()
        }) + seq![
            Op::PropertyU32("reg"@, cpu_id),
            Op::PropertyU32("phandle"@, (board::PHANDLE_CPU0 + cpu_id) as u32),
        ] + (if cpu_capacity.contains_key(cpu_id as usize) {
            seq![Op::PropertyU32("capacity-dmips-mhz"@, cpu_capacity[cpu_id as usize])]
        } else {
            Seq::empty()
        }),
        Seq::empty(),
    )
}

/// The nodes of the first `count` CPUs.
pub open spec fn cpu_nodes(num_cpus: u32, cpu_capacity: Map<usize, u32>, count: nat) -> Seq<Op>
    decreases count,
{
    if count == 0 {
        Seq::empty()
    } else {
        cpu_nodes(num_cpus, cpu_capacity, (count - 1) as nat) + cpu_node(
            num_cpus,
            cpu_capacity,
            (count - 1) as u32,
        )
    }
}

/// The node by which a cluster refers to one of its CPUs.
pub open spec fn core_node(cpus: Seq<usize>, core_idx: nat) -> Seq<Op> {
    nesting::node(
        "core"@ + text::decimal(core_idx),
        seq![
            Op::PropertyU32(
                "cpu"@,
                (board::PHANDLE_CPU0 + low_cell(cpus[core_idx as int] as nat)) as u32,
            ),
        ],
        Seq::empty(),
    )
}

/// The nodes of the first `count` CPUs of a cluster.
pub open spec fn core_nodes(cpus: Seq<usize>, count: nat) -> Seq<Op>
    decreases count,
{
    if count == 0 {
        Seq::empty()
    } else {
        core_nodes(cpus, (count - 1) as nat) + core_node(cpus, (count - 1) as nat)
    }
}

/// The nodes of the first `count` clusters.
pub open spec fn cluster_nodes(cpu_clusters: Seq<Vec<usize>>, count: nat) -> Seq<Op>
    decreases count,
{
    if count == 0 {
        Seq::empty()
    } else {
        let cpus = cpu_clusters[count - 1]@;
        cluster_nodes(cpu_clusters, (count - 1) as nat) + nesting::node(
            "cluster"@ + text::decimal((count - 1) as nat),
            Seq::empty(),
            core_nodes(cpus, cpus.len()),
        )
    }
}

/// The map of the clusters, where there are any.
pub open spec fn cpu_map(cpu_clusters: Seq<Vec<usize>>) -> Seq<Op> {
    if cpu_clusters.len() == 0 {
        Seq::empty()
    } else {
        nesting::node("cpu-map"@, Seq::empty(), cluster_nodes(cpu_clusters, cpu_clusters.len()))
    }
}

/// The node of all CPUs.
pub open spec fn cpus_node(
    num_cpus: u32,
    cpu_clusters: Seq<Vec<usize>>,
    cpu_capacity: Map<usize, u32>,
) -> Seq<Op> {
    nesting::node(
        "cpus"@,
        seq![Op::PropertyU32("#address-cells"@, 1), Op::PropertyU32("#size-cells"@, 0)],
        cpu_nodes(num_cpus, cpu_capacity, num_cpus as nat) + cpu_map(cpu_clusters),
    )
}

/// A cell can refer to each of the CPUs.
pub open spec fn cpus_fit(num_cpus: u32, cpu_clusters: Seq<Vec<usize>>) -> bool {
    &&& num_cpus <= u32::MAX - board::PHANDLE_CPU0 + 1
    &&& forall|i: int, k: int|
        0 <= i < cpu_clusters.len() && 0 <= k < cpu_clusters[i].len() ==> low_cell(
            (#[trigger] cpu_clusters[i][k]) as nat,
        ) <= u32::MAX - board::PHANDLE_CPU0
}

/// Whether a cell can refer to each of the CPUs.
pub fn check_cpus(num_cpus: u32, cpu_clusters: &Vec<Vec<usize>>) -> (result: bool)
    ensures
        result == cpus_fit(num_cpus, cpu_clusters@),
{
    if num_cpus > u32::MAX - board::PHANDLE_CPU0 + 1 {
        return false;
    }
    for i in 0..cpu_clusters.len()
        invariant
            num_cpus <= u32::MAX - board::PHANDLE_CPU0 + 1,
            forall|j: int, k: int|
                0 <= j < i && 0 <= k < cpu_clusters@[j].len() ==> low_cell(
                    (#[trigger] cpu_clusters@[j][k]) as nat,
                ) <= u32::MAX - board::PHANDLE_CPU0,
    {
        let cpus = &cpu_clusters[i];
        for n in 0..cpus.len()
            invariant
                i < cpu_clusters.len(),
                *cpus == cpu_clusters@[i as int],
                forall|k: int|
                    0 <= k < n ==> low_cell((#[trigger] cpu_clusters@[i as int][k]) as nat)
                        <= u32::MAX - board::PHANDLE_CPU0,
        {
            if (cpus[n] as u64) % 0x1_0000_0000 > (u32::MAX - board::PHANDLE_CPU0) as u64 {
                assert(low_cell(cpu_clusters@[i as int][n as int] as nat) > u32::MAX
                    - board::PHANDLE_CPU0);
                return false;
            }
        }
    }
    true
}

fn create_cpu_node(
    fdt: &mut FdtScript,
    num_cpus: u32,
    cpu_capacity: &BTreeMap<usize, u32>,
    cpu_id: u32,
)
    requires
        cpu_id <= u32::MAX - board::PHANDLE_CPU0,
    ensures
        final(fdt)@ == old(fdt)@ + cpu_node(num_cpus, cpu_capacity@, cpu_id),
{
    let cpu_name = text::hex_name("cpu@", cpu_id as u64);
    fdt.begin_node(cpu_name.as_str());
    fdt.property_string("device_type", "cpu");
    fdt.property_string("compatible", "arm,arm-v8");
    if num_cpus > 1 {
        fdt.property_string("enable-method", "psci");
    }
    fdt.property_u32("reg", cpu_id);
    fdt.property_u32("phandle", board::PHANDLE_CPU0 + cpu_id);
    if let Some(capacity) = cpu_capacity.get(&(cpu_id as usize)) {
        fdt.property_u32("capacity-dmips-mhz", *capacity);
    }
    fdt.end_node();
    assert(fdt@ =~= old(fdt)@ + cpu_node(num_cpus, cpu_capacity@, cpu_id));
}

fn create_core_nodes(fdt: &mut FdtScript, cpus: &Vec<usize>)
    requires
        forall|k: int|
            0 <= k < cpus.len() ==> low_cell((#[trigger] cpus[k]) as nat) <= u32::MAX
                - board::PHANDLE_CPU0,
    ensures
        final(fdt)@ == old(fdt)@ + core_nodes(cpus@, cpus@.len()),
{
    assert(fdt@ =~= old(fdt)@ + core_nodes(cpus@, 0));
    for core_idx in 0..cpus.len()
        invariant
            forall|k: int|
                0 <= k < cpus.len() ==> low_cell((#[trigger] cpus[k]) as nat) <= u32::MAX
                    - board::PHANDLE_CPU0,
            fdt@ == old(fdt)@ + core_nodes(cpus@, core_idx as nat),
    {
        let ghost before = fdt@;
        let cpu_id = cpus[core_idx];
        assert(cpu_id as u32 == (cpu_id as u64) % 0x1_0000_0000) by (bit_vector);
        #[verifier::truncate]
        let cpu_cell = cpu_id as u32;
        fdt.begin_node(text::decimal_name("core", core_idx).as_str());
        fdt.property_u32("cpu", board::PHANDLE_CPU0 + cpu_cell);
        fdt.end_node();
        assert(fdt@ =~= before + core_node(cpus@, core_idx as nat));
        assert(fdt@ =~= old(fdt)@ + core_nodes(cpus@, (core_idx + 1) as nat));
    }
}

fn create_cpu_map(fdt: &mut FdtScript, cpu_clusters: &Vec<Vec<usize>>)
    requires
        cpus_fit(0, cpu_clusters@),
    ensures
        final(fdt)@ == old(fdt)@ + cpu_map(cpu_clusters@),
{
    if cpu_clusters.len() == 0 {
        assert(fdt@ =~= old(fdt)@ + cpu_map(cpu_clusters@));
        return;
    }
    fdt.begin_node("cpu-map");
    let ghost head = fdt@;
    assert(fdt@ =~= head + cluster_nodes(cpu_clusters@, 0));
    for cluster_idx in 0..cpu_clusters.len()
        invariant
            cpus_fit(0, cpu_clusters@),
            fdt@ == head + cluster_nodes(cpu_clusters@, cluster_idx as nat),
    {
        let ghost before = fdt@;
        let cpus = &cpu_clusters[cluster_idx];
        assert forall|k: int| 0 <= k < cpus.len() implies low_cell((#[trigger] cpus[k]) as nat)
            <= u32::MAX - board::PHANDLE_CPU0 by {
            assert(low_cell(cpu_clusters@[cluster_idx as int][k] as nat) <= u32::MAX
                - board::PHANDLE_CPU0);
        }
        fdt.begin_node(text::decimal_name("cluster", cluster_idx).as_str());
        create_core_nodes(fdt, cpus);
        fdt.end_node();
        assert(fdt@ =~= before + nesting::node(
            "cluster"@ + text::decimal(cluster_idx as nat),
            Seq::empty(),
            core_nodes(cpus@, cpus@.len()),
        ));
        assert(fdt@ =~= head + cluster_nodes(cpu_clusters@, (cluster_idx + 1) as nat));
    }
    fdt.end_node();
    assert(fdt@ =~= old(fdt)@ + cpu_map(cpu_clusters@));
}

/// Describes the CPUs, their capacities and their clusters.
pub fn create_cpu_nodes(
    fdt: &mut FdtScript,
    num_cpus: u32,
    cpu_clusters: &Vec<Vec<usize>>,
    cpu_capacity: &BTreeMap<usize, u32>,
)
    requires
        cpus_fit(num_cpus, cpu_clusters@),
    ensures
        final(fdt)@ == old(fdt)@ + cpus_node(num_cpus, cpu_clusters@, cpu_capacity@),
{
    fdt.begin_node("cpus");
    fdt.property_u32("#address-cells", 0x1);
    fdt.property_u32("#size-cells", 0x0);
    let ghost head = fdt@;
    assert(fdt@ =~= head + cpu_nodes(num_cpus, cpu_capacity@, 0));
    for cpu_id in 0..num_cpus
        invariant
            num_cpus <= u32::MAX - board::PHANDLE_CPU0 + 1,
            fdt@ == head + cpu_nodes(num_cpus, cpu_capacity@, cpu_id as nat),
    {
        create_cpu_node(fdt, num_cpus, cpu_capacity, cpu_id);
        assert(fdt@ =~= head + cpu_nodes(num_cpus, cpu_capacity@, (cpu_id + 1) as nat));
    }
    create_cpu_map(fdt, cpu_clusters);
    fdt.end_node();
    assert(fdt@ =~= old(fdt)@ + cpus_node(num_cpus, cpu_clusters@, cpu_capacity@));
}

} // verus!
