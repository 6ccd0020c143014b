use std::collections::BTreeMap;

use aarch64::board::{Error, Layout};
use aarch64::chosen::Seeds;
use aarch64::pci::{PciAddressSpace, PciConfigRegion, PciIrq, PciRange};
use aarch64::platform::{OfEntry, OfNode, PlatformInfo};
use aarch64::psci::PsciVersion;
use aarch64::script::{FdtOp, FdtScript};
use aarch64::tree::{check_written, create_fdt, check_parameters, fdt_address};

const EDGETPU: &str = "/sys/bus/platform/devices/1ce00000.abrolhos-guest";
const RKNPU: &str = "/sys/bus/platform/devices/fdab0000.npu-guest";

fn layout() -> Layout {
    Layout {
        phys_mem_start: 0x8000_0000,
        phys_mem_start_second: 0x2_8000_0000,
        inference_io_mem_start: 0x7000_0000,
        inference_io_mem_start_second: 0x7800_0000,
        inference_io_mem_max_size: 0x40_0000,
        gic_cpui_base: 0x3ffd_0000,
        gic_cpui_size: 0x2_0000,
        gic_dist_base: 0x3fff_0000,
        gic_dist_size: 0x1_0000,
        gic_redist_size: 0x2_0000,
        rtc_addr: 0x2000,
        rtc_size: 0x1000,
        rtc_irq: 1,
        rtc_amba_id: 0x41030,
        serial_addr: [0x3f8, 0x2f8, 0x3e8, 0x2e8],
        serial_size: 8,
        serial_1_3_irq: 0,
        serial_2_4_irq: 2,
        serial_speed: 1843200,
        pmu_irq: 7,
    }
}

struct Machine {
    num_cpus: u32,
    cpu_clusters: Vec<Vec<usize>>,
    seeds: Seeds,
    android_fstab: bool,
    use_pmu: bool,
    swiotlb: Option<u64>,
    platform_info: Vec<PlatformInfo>,
    of_nodes: Vec<OfNode>,
}

fn machine() -> Machine {
    Machine {
        num_cpus: 2,
        cpu_clusters: vec![vec![0], vec![1]],
        seeds: Seeds { kaslr_seed: Some([7; 8]), rng_seed: Some([8; 256]) },
        android_fstab: false,
        use_pmu: true,
        swiotlb: Some(0x40_0000),
        platform_info: vec![],
        of_nodes: vec![],
    }
}

fn device(path: &str) -> PlatformInfo {
    (path.to_string(), vec![(0x9000, 0x100)], vec![(40, 4)])
}

fn listed() -> OfNode {
    let entry = OfEntry { name: "reg-names".to_string(), data: Some(vec![1, 2]) };
    OfNode { is_dir: true, entries: Some(vec![entry]) }
}

fn fits(machine: &Machine) -> bool {
    check_parameters(
        &layout(),
        &vec![PciIrq { config_address: 0x800, irq_num: 4, pin: 0 }],
        machine.num_cpus,
        &machine.cpu_clusters,
        &machine.seeds,
        Some((0x8100_0000, 0x1000)),
        true,
        &machine.platform_info,
        &machine.of_nodes,
        0x8000,
    )
}

fn run(machine: &Machine) -> (Result<(), Error>, Vec<FdtOp>) {
    assert!(fits(machine));
    let ranges = [PciRange {
        space: PciAddressSpace::Memory,
        bus_address: 0x100,
        cpu_physical_address: 0x100,
        size: 0x100,
        prefetchable: false,
    }];
    let mut fdt = FdtScript::new();
    let result = create_fdt(
        &mut fdt,
        &layout(),
        0x1000_0000,
        4096,
        &vec![PciIrq { config_address: 0x800, irq_num: 4, pin: 0 }],
        PciConfigRegion { base: 0x10000, size: 0x1000000 },
        &ranges,
        machine.num_cpus,
        &machine.cpu_clusters,
        &BTreeMap::new(),
        "panic=-1",
        &machine.seeds,
        Some((0x8100_0000, 0x1000)),
        machine.android_fstab,
        true,
        machine.use_pmu,
        PsciVersion::new(1, 0),
        machine.swiotlb,
        &machine.platform_info,
        &machine.of_nodes,
        0x8000,
        0x10000,
        false,
    );
    (result, fdt.ops)
}

/// The names of the nodes that have the given number of nodes above them.
fn names_at(ops: &[FdtOp], depth: usize) -> Vec<String> {
    let mut open = 0;
    let mut names = Vec::new();
    for op in ops {
        match op {
            FdtOp::BeginNode(name) => {
                if open == depth {
                    names.push(name.clone());
                }
                open += 1;
            }
            FdtOp::EndNode => open -= 1,
            _ => {}
        }
    }
    assert_eq!(open, 0);
    names
}

fn cells_named(ops: &[FdtOp], names: &[&str]) -> Vec<u32> {
    let mut found = Vec::new();
    for op in ops {
        if let FdtOp::PropertyU32(name, value) = op {
            if names.contains(&name.as_str()) {
                found.push(*value);
            }
        }
    }
    found
}

const REFERENCES: [&str; 6] =
    ["interrupt-parent", "memory-region", "iommus", "samsung,iommu-group", "clocks", "cpu"];

#[test]
fn tree_of_a_plain_machine() {
    let (result, ops) = run(&machine());
    assert_eq!(result, Ok(()));
    assert_eq!(
        ops[..5],
        [
            FdtOp::BeginNode("".to_string()),
            FdtOp::PropertyU32("interrupt-parent".to_string(), 1),
            FdtOp::PropertyString("compatible".to_string(), "linux,dummy-virt".to_string()),
            FdtOp::PropertyU32("#address-cells".to_string(), 2),
            FdtOp::PropertyU32("#size-cells".to_string(), 2),
        ]
    );
    assert_eq!(names_at(&ops, 0), vec![""]);
    assert_eq!(
        names_at(&ops, 1),
        vec![
            "chosen",
            "memory",
            "reserved-memory",
            "cpus",
            "intc",
            "timer",
            "pmu",
            "U6_16550A@3f8",
            "U6_16550A@2f8",
            "U6_16550A@3e8",
            "U6_16550A@2e8",
            "psci",
            "pci",
            "pclk@3M",
            "rtc@2000",
            "/platform@8000",
        ]
    );
}

#[test]
fn pmu_and_android_nodes_are_optional() {
    let mut machine = machine();
    machine.use_pmu = false;
    machine.android_fstab = true;
    let (result, ops) = run(&machine);
    assert_eq!(result, Ok(()));
    assert_eq!(ops[5], FdtOp::AndroidFstab);
    assert!(!names_at(&ops, 1).contains(&"pmu".to_string()));
}

#[test]
fn properties_come_before_children() {
    for path in [EDGETPU, RKNPU] {
        let mut machine = machine();
        machine.platform_info = vec![device(path)];
        machine.of_nodes = vec![listed()];
        let (result, ops) = run(&machine);
        assert_eq!(result, Ok(()));
        let mut depth = 0;
        let mut fresh = false;
        for (i, op) in ops.iter().enumerate() {
            match op {
                FdtOp::BeginNode(_) => {
                    assert!(depth > 0 || i == 0);
                    depth += 1;
                    fresh = true;
                }
                FdtOp::EndNode => {
                    depth -= 1;
                    fresh = false;
                }
                _ => assert!(fresh),
            }
        }
        assert_eq!(depth, 0);
    }
}

#[test]
fn numbers_are_defined_once_and_references_resolve() {
    for platform_info in [vec![], vec![device(EDGETPU)], vec![device(RKNPU)]] {
        let mut machine = machine();
        machine.of_nodes = platform_info.iter().map(|_| listed()).collect();
        machine.platform_info = platform_info;
        let (result, ops) = run(&machine);
        assert_eq!(result, Ok(()));
        let defined = cells_named(&ops, &["phandle"]);
        for (i, number) in defined.iter().enumerate() {
            assert!(!defined[..i].contains(number));
        }
        for number in cells_named(&ops, &REFERENCES) {
            assert!(defined.contains(&number));
        }
    }
}

#[test]
fn controllers_of_interrupts_and_resets_are_defined() {
    let mut machine = machine();
    machine.platform_info = vec![device(RKNPU)];
    machine.of_nodes = vec![listed()];
    let (_, ops) = run(&machine);
    let defined = cells_named(&ops, &["phandle"]);
    assert!(defined.contains(&1));
    let mut resets = 0;
    for op in &ops {
        if let FdtOp::PropertyArrayU32(name, cells) = op {
            if name == "resets" {
                resets += 1;
                assert_eq!(cells.len(), 12);
                assert!(cells.iter().step_by(2).all(|number| defined.contains(number)));
            }
        }
    }
    assert_eq!(resets, 1);
}

#[test]
fn two_devices_share_the_number_of_their_clock() {
    let mut machine = machine();
    machine.platform_info = vec![device(EDGETPU), device(RKNPU)];
    machine.of_nodes = vec![listed(), listed()];
    let (result, ops) = run(&machine);
    assert_eq!(result, Ok(()));
    assert_eq!(
        cells_named(&ops, &["phandle"]),
        vec![2, 0x100, 0x101, 1, 24, 5, 5, 4, 10]
    );
}

#[test]
fn numbers_of_a_tree_come_in_order() {
    let mut machine = machine();
    machine.platform_info = vec![device(EDGETPU)];
    machine.of_nodes = vec![listed()];
    let (_, ops) = run(&machine);
    assert_eq!(
        cells_named(&ops, &["phandle"]),
        vec![2, 8, 0x100, 0x101, 1, 24, 5, 6, 7]
    );
    assert_eq!(
        cells_named(&ops, &REFERENCES),
        vec![1, 0x100, 0x101, 2, 24, 1, 6, 7, 8]
    );
}

#[test]
fn pool_is_referred_to_where_there_is_one() {
    let with = run(&machine()).1;
    assert!(cells_named(&with, &["memory-region"]).contains(&2));
    let mut machine = machine();
    machine.swiotlb = None;
    let without = run(&machine).1;
    assert_eq!(cells_named(&without, &["memory-region"]), vec![]);
    assert!(!cells_named(&without, &["phandle"]).contains(&2));
}

#[test]
fn tree_stops_without_seeds() {
    let mut machine = machine();
    machine.seeds.rng_seed = None;
    let (result, ops) = run(&machine);
    assert_eq!(result, Err(Error::FdtIoError));
    assert_eq!(ops.len(), 10);
    assert_eq!(ops[9], FdtOp::PropertyU64("kaslr-seed".to_string(), 0x0707_0707_0707_0707));
}

#[test]
fn tree_stops_at_a_device_that_is_not_there() {
    let mut machine = machine();
    machine.platform_info = vec![device(EDGETPU)];
    machine.of_nodes = vec![OfNode { is_dir: false, entries: None }];
    let (result, ops) = run(&machine);
    assert_eq!(result, Err(Error::PathNotDirError));
    assert_eq!(
        ops[ops.len() - 1],
        FdtOp::BeginNode("1ce00000.abrolhos-guest@9000".to_string())
    );
}

#[test]
fn parameters_have_to_fit() {
    assert!(fits(&machine()));
    let mut many = machine();
    many.num_cpus = 32;
    assert!(!fits(&many));
    many.seeds.kaslr_seed = None;
    assert!(fits(&many));
    let mut unknown = machine();
    unknown.cpu_clusters = vec![vec![0xffff_ffff]];
    assert!(!fits(&unknown));
    let mut empty = machine();
    empty.platform_info = vec![("/sys/dev".to_string(), vec![], vec![])];
    empty.of_nodes = vec![OfNode { is_dir: false, entries: None }];
    assert!(!fits(&empty));
}

#[test]
fn tree_is_loaded_into_guest_memory() {
    assert_eq!(fdt_address(&layout(), 0x1000, false), 0x8000_1000);
    assert_eq!(fdt_address(&layout(), 0x1000, true), 0x2_8000_1000);
}

#[test]
fn all_reserved_space_has_to_be_written() {
    assert_eq!(check_written(Some(0x200), 0x200), Ok(()));
    assert_eq!(check_written(Some(0x201), 0x200), Ok(()));
    assert_eq!(check_written(Some(0x1ff), 0x200), Err(Error::FdtGuestMemoryWriteError));
    assert_eq!(check_written(None, 0), Err(Error::FdtGuestMemoryWriteError));
}
