use std::collections::BTreeMap;

use aarch64::board::{Error, Layout};
use aarch64::chosen::{create_chosen_node, check_initrd, Seeds};
use aarch64::cpu::{create_cpu_nodes, check_cpus};
use aarch64::interrupts::{
    create_gic_node, create_pmu_node, create_timer_node, check_redistributors,
};
use aarch64::memory::{create_memory_node, create_resv_memory_node};
use aarch64::pci::{
    create_pci_nodes, check_pins, PciAddressSpace, PciConfigRegion, PciIrq, PciRange,
};
use aarch64::peripherals::{create_rtc_node, create_serial_nodes};
use aarch64::platform::PlatformInfo;
use aarch64::script::{FdtOp, FdtScript};

fn layout() -> Layout {
    Layout {
        phys_mem_start: 0x8000_0000,
        phys_mem_start_second: 0x2_8000_0000,
        inference_io_mem_start: 0x7000_0000,
        inference_io_mem_start_second: 0x7800_0000,
        inference_io_mem_max_size: 0x40_0000,
        gic_cpui_base: 0x3ffd_0000,
        gic_cpui_size: 0x2_0000,
        gic_dist_base: 0x3fff_0000,
        gic_dist_size: 0x1_0000,
        gic_redist_size: 0x2_0000,
        rtc_addr: 0x2000,
        rtc_size: 0x1000,
        rtc_irq: 1,
        rtc_amba_id: 0x41030,
        serial_addr: [0x3f8, 0x2f8, 0x3e8, 0x2e8],
        serial_size: 8,
        serial_1_3_irq: 0,
        serial_2_4_irq: 2,
        serial_speed: 1843200,
        pmu_irq: 7,
    }
}

fn begin(name: &str) -> FdtOp {
    FdtOp::BeginNode(name.to_string())
}

fn null(name: &str) -> FdtOp {
    FdtOp::PropertyNull(name.to_string())
}

fn cell(name: &str, value: u32) -> FdtOp {
    FdtOp::PropertyU32(name.to_string(), value)
}

fn wide(name: &str, value: u64) -> FdtOp {
    FdtOp::PropertyU64(name.to_string(), value)
}

fn text(name: &str, value: &str) -> FdtOp {
    FdtOp::PropertyString(name.to_string(), value.to_string())
}

fn cells(name: &str, values: &[u32]) -> FdtOp {
    FdtOp::PropertyArrayU32(name.to_string(), values.to_vec())
}

fn wides(name: &str, values: &[u64]) -> FdtOp {
    FdtOp::PropertyArrayU64(name.to_string(), values.to_vec())
}

fn end() -> FdtOp {
    FdtOp::EndNode
}

#[test]
fn memory_starts_where_the_machine_puts_it() {
    for (second_vm, start) in [(false, 0x8000_0000), (true, 0x2_8000_0000)] {
        let mut fdt = FdtScript::new();
        create_memory_node(&mut fdt, &layout(), 0x1000_0000, second_vm);
        assert_eq!(
            fdt.ops,
            vec![
                begin("memory"),
                text("device_type", "memory"),
                wides("reg", &[start, 0x1000_0000]),
                end(),
            ]
        );
    }
}

#[test]
fn reserved_memory_without_pool() {
    let mut fdt = FdtScript::new();
    let none: Vec<PlatformInfo> = Vec::new();
    let phandle = create_resv_memory_node(&mut fdt, &layout(), None, 4096, &none, false);
    assert_eq!(phandle, None);
    assert_eq!(
        fdt.ops,
        vec![
            begin("reserved-memory"),
            cell("#address-cells", 2),
            cell("#size-cells", 2),
            null("ranges"),
            begin("inference_io_reserved"),
            text("compatible", "inference-io-memory"),
            wides("reg", &[0x7000_0000, 0x40_0000, 0, 0]),
            end(),
            end(),
        ]
    );
}

#[test]
fn reserved_memory_with_pool_and_firmware() {
    let mut fdt = FdtScript::new();
    let info: Vec<PlatformInfo> = vec![(
        "/sys/bus/platform/devices/1ce00000.abrolhos-guest".to_string(),
        vec![],
        vec![],
    )];
    let phandle =
        create_resv_memory_node(&mut fdt, &layout(), Some(0x20_0000), 4096, &info, true);
    assert_eq!(phandle, Some(2));
    assert_eq!(
        fdt.ops[4..],
        [
            begin("restricted_dma_reserved"),
            cell("phandle", 2),
            text("compatible", "restricted-dma-pool"),
            wide("size", 0x20_0000),
            wide("alignment", 4096),
            end(),
            begin("inference_io_reserved"),
            text("compatible", "inference-io-memory"),
            wides("reg", &[0x7800_0000, 0x40_0000, 0, 0]),
            end(),
            begin("tpu_fw"),
            wides("reg", &[0, 0x1000000, 0, 0]),
            cell("phandle", 8),
            end(),
            end(),
        ]
    );
}

#[test]
fn one_cpu_needs_no_enable_method() {
    let mut fdt = FdtScript::new();
    create_cpu_nodes(&mut fdt, 1, &vec![], &BTreeMap::new());
    assert_eq!(
        fdt.ops,
        vec![
            begin("cpus"),
            cell("#address-cells", 1),
            cell("#size-cells", 0),
            begin("cpu@0"),
            text("device_type", "cpu"),
            text("compatible", "arm,arm-v8"),
            cell("reg", 0),
            cell("phandle", 0x100),
            end(),
            end(),
        ]
    );
}

#[test]
fn cpus_with_capacities_and_clusters() {
    let mut capacity = BTreeMap::new();
    capacity.insert(1usize, 512u32);
    let mut fdt = FdtScript::new();
    create_cpu_nodes(&mut fdt, 2, &vec![vec![1], vec![0]], &capacity);
    assert_eq!(
        fdt.ops[3..],
        [
            begin("cpu@0"),
            text("device_type", "cpu"),
            text("compatible", "arm,arm-v8"),
            text("enable-method", "psci"),
            cell("reg", 0),
            cell("phandle", 0x100),
            end(),
            begin("cpu@1"),
            text("device_type", "cpu"),
            text("compatible", "arm,arm-v8"),
            text("enable-method", "psci"),
            cell("reg", 1),
            cell("phandle", 0x101),
            cell("capacity-dmips-mhz", 512),
            end(),
            begin("cpu-map"),
            begin("cluster0"),
            begin("core0"),
            cell("cpu", 0x101),
            end(),
            end(),
            begin("cluster1"),
            begin("core0"),
            cell("cpu", 0x100),
            end(),
            end(),
            end(),
            end(),
        ]
    );
}

#[test]
fn cpus_have_to_fit_a_cell() {
    assert!(check_cpus(0xffff_ff00, &vec![]));
    assert!(!check_cpus(0xffff_ff01, &vec![]));
    assert!(check_cpus(1, &vec![vec![0], vec![0xffff_feff]]));
    assert!(!check_cpus(1, &vec![vec![0], vec![0xffff_ff00]]));
}

#[test]
fn gic_v2_has_a_cpu_interface() {
    let mut fdt = FdtScript::new();
    create_gic_node(&mut fdt, &layout(), false, 4);
    assert_eq!(
        fdt.ops,
        vec![
            begin("intc"),
            text("compatible", "arm,cortex-a15-gic"),
            cell("#interrupt-cells", 3),
            null("interrupt-controller"),
            wides("reg", &[0x3fff_0000, 0x1_0000, 0x3ffd_0000, 0x2_0000]),
            cell("phandle", 1),
            cell("#address-cells", 2),
            cell("#size-cells", 2),
            end(),
        ]
    );
}

#[test]
fn gic_v3_redistributors_end_at_the_distributor() {
    let mut fdt = FdtScript::new();
    create_gic_node(&mut fdt, &layout(), true, 4);
    assert_eq!(fdt.ops[1], text("compatible", "arm,gic-v3"));
    assert_eq!(
        fdt.ops[4],
        wides("reg", &[0x3fff_0000, 0x1_0000, 0x3ff7_0000, 0x8_0000])
    );
    assert!(check_redistributors(&layout(), true, 0x1fff));
    assert!(!check_redistributors(&layout(), true, 0x2000));
    assert!(!check_redistributors(&layout(), true, u64::MAX));
    assert!(check_redistributors(&layout(), false, u64::MAX));
}

#[test]
fn timer_interrupts_select_the_cpus() {
    for (num_cpus, mask) in [(0, 0), (1, 0x100), (4, 0xf00), (8, 0xff00), (31, 0xff00)] {
        let last = mask + 8;
        let mut fdt = FdtScript::new();
        create_timer_node(&mut fdt, num_cpus);
        assert_eq!(
            fdt.ops,
            vec![
                begin("timer"),
                text("compatible", "arm,armv8-timer"),
                cells(
                    "interrupts",
                    &[1, 13, last, 1, 14, last, 1, 11, last, 1, 10, last]
                ),
                null("always-on"),
                end(),
            ]
        );
    }
}

#[test]
fn pmu_interrupt_selects_the_cpus() {
    let mut fdt = FdtScript::new();
    create_pmu_node(&mut fdt, &layout(), 3);
    assert_eq!(
        fdt.ops,
        vec![
            begin("pmu"),
            text("compatible", "arm,armv8-pmuv3"),
            cells("interrupts", &[1, 7, 0x704]),
            end(),
        ]
    );
}

#[test]
fn serial_ports_share_interrupts() {
    let mut fdt = FdtScript::new();
    create_serial_nodes(&mut fdt, &layout());
    let ports = [("3f8", 0x3f8, 0), ("2f8", 0x2f8, 2), ("3e8", 0x3e8, 0), ("2e8", 0x2e8, 2)];
    let mut expected = Vec::new();
    for (name, addr, irq) in ports {
        expected.push(begin(&format!("U6_16550A@{}", name)));
        expected.push(text("compatible", "ns16550a"));
        expected.push(wides("reg", &[addr, 8]));
        expected.push(cell("clock-frequency", 1843200));
        expected.push(cells("interrupts", &[0, irq, 1]));
        expected.push(end());
    }
    assert_eq!(fdt.ops, expected);
}

#[test]
fn real_time_clock_has_a_clock() {
    let mut fdt = FdtScript::new();
    create_rtc_node(&mut fdt, &layout());
    assert_eq!(
        fdt.ops,
        vec![
            begin("pclk@3M"),
            cell("#clock-cells", 0),
            text("compatible", "fixed-clock"),
            cell("clock-frequency", 3141592),
            cell("phandle", 24),
            end(),
            begin("rtc@2000"),
            text("compatible", "arm,primecell"),
            cell("arm,primecell-periphid", 0x41030),
            wides("reg", &[0x2000, 0x1000]),
            cells("interrupts", &[0, 1, 4]),
            cell("clocks", 24),
            text("clock-names", "apb_pclk"),
            end(),
        ]
    );
}

#[test]
fn pci_host_controller() {
    let ranges = [
        PciRange {
            space: PciAddressSpace::Memory,
            bus_address: 0x2_1000_0000,
            cpu_physical_address: 0x3_2000_0000,
            size: 0x1_0000_1000,
            prefetchable: false,
        },
        PciRange {
            space: PciAddressSpace::Memory64,
            bus_address: 1,
            cpu_physical_address: 2,
            size: 3,
            prefetchable: true,
        },
    ];
    let irqs = vec![PciIrq { config_address: 0x800, irq_num: 4, pin: 0 }];
    let cfg = PciConfigRegion { base: 0x10000, size: 0x1000000 };
    let mut fdt = FdtScript::new();
    create_pci_nodes(&mut fdt, &irqs, cfg, &ranges, Some(2));
    assert_eq!(
        fdt.ops,
        vec![
            begin("pci"),
            text("compatible", "pci-host-cam-generic"),
            text("device_type", "pci"),
            cells(
                "ranges",
                &[
                    0x0200_0000,
                    2,
                    0x1000_0000,
                    3,
                    0x2000_0000,
                    1,
                    0x1000,
                    0x4300_0000,
                    0,
                    1,
                    0,
                    2,
                    0,
                    3,
                ]
            ),
            cells("bus-range", &[0, 0]),
            cell("#address-cells", 3),
            cell("#size-cells", 2),
            wides("reg", &[0x10000, 0x1000000]),
            cell("#interrupt-cells", 1),
            cells("interrupt-map", &[0x800, 0, 0, 1, 1, 0, 0, 0, 4, 4]),
            cells("interrupt-map-mask", &[0xf800, 0, 0, 7]),
            null("dma-coherent"),
            cell("memory-region", 2),
            end(),
        ]
    );
}

#[test]
fn pci_without_pool_refers_to_no_memory() {
    let cfg = PciConfigRegion { base: 0, size: 0 };
    let mut fdt = FdtScript::new();
    create_pci_nodes(&mut fdt, &vec![], cfg, &[], None);
    assert_eq!(fdt.ops.len(), 13);
    assert_eq!(fdt.ops[3], cells("ranges", &[]));
    assert_eq!(fdt.ops[11], null("dma-coherent"));
    assert_eq!(fdt.ops[12], end());
}

#[test]
fn address_spaces_are_numbered() {
    assert_eq!(PciAddressSpace::Configuration.code(), 0);
    assert_eq!(PciAddressSpace::Io.code(), 1);
    assert_eq!(PciAddressSpace::Memory.code(), 2);
    assert_eq!(PciAddressSpace::Memory64.code(), 3);
}

#[test]
fn address_ranges_have_distinct_cells() {
    let mut seen: Vec<Vec<FdtOp>> = Vec::new();
    for space in [PciAddressSpace::Io, PciAddressSpace::Memory, PciAddressSpace::Memory64] {
        for address in [0, 1, 0x1_0000_0000] {
            for prefetchable in [false, true] {
                let range = PciRange {
                    space,
                    bus_address: address,
                    cpu_physical_address: 5,
                    size: 6,
                    prefetchable,
                };
                let cfg = PciConfigRegion { base: 0, size: 0 };
                let mut fdt = FdtScript::new();
                create_pci_nodes(&mut fdt, &vec![], cfg, &[range], None);
                assert!(!seen.contains(&fdt.ops));
                seen.push(fdt.ops);
            }
        }
    }
}

#[test]
fn pins_are_counted_from_one() {
    let fits = PciIrq { config_address: 0, irq_num: 0, pin: u32::MAX - 1 };
    let large = PciIrq { config_address: 0, irq_num: 0, pin: u32::MAX };
    assert!(check_pins(&vec![]));
    assert!(check_pins(&vec![fits]));
    assert!(!check_pins(&vec![fits, large]));
}

#[test]
fn chosen_node_hands_seeds_over() {
    let seeds = Seeds {
        kaslr_seed: Some([1, 2, 3, 4, 5, 6, 7, 8]),
        rng_seed: Some([9; 256]),
    };
    let mut fdt = FdtScript::new();
    let result =
        create_chosen_node(&mut fdt, &layout(), "quiet", &seeds, Some((0x1_8000_0000, 0x1000)));
    assert_eq!(result, Ok(()));
    assert_eq!(
        fdt.ops,
        vec![
            begin("chosen"),
            cell("linux,pci-probe-only", 1),
            text("bootargs", "quiet"),
            text("stdout-path", "/U6_16550A@3f8"),
            wide("kaslr-seed", 0x0807_0605_0403_0201),
            FdtOp::Property("rng-seed".to_string(), vec![9; 256]),
            cell("linux,initrd-start", 0x8000_0000),
            cell("linux,initrd-end", 0x8000_1000),
            end(),
        ]
    );
}

#[test]
fn largest_seed_fits() {
    let seeds = Seeds { kaslr_seed: Some([0xff; 8]), rng_seed: Some([0; 256]) };
    let mut fdt = FdtScript::new();
    let result = create_chosen_node(&mut fdt, &layout(), "", &seeds, None);
    assert_eq!(result, Ok(()));
    assert_eq!(fdt.ops[4], wide("kaslr-seed", u64::MAX));
    assert_eq!(fdt.ops.len(), 7);
}

#[test]
fn missing_seeds_stop_the_work() {
    let none = Seeds { kaslr_seed: None, rng_seed: None };
    let mut fdt = FdtScript::new();
    let result = create_chosen_node(&mut fdt, &layout(), "", &none, None);
    assert_eq!(result, Err(Error::FdtIoError));
    assert_eq!(fdt.ops.len(), 4);

    let half = Seeds { kaslr_seed: Some([0; 8]), rng_seed: None };
    let mut fdt = FdtScript::new();
    let result = create_chosen_node(&mut fdt, &layout(), "", &half, None);
    assert_eq!(result, Err(Error::FdtIoError));
    assert_eq!(fdt.ops.len(), 5);
    assert_eq!(fdt.ops[4], wide("kaslr-seed", 0));
}

#[test]
fn ram_disk_has_to_end_in_a_cell() {
    assert!(check_initrd(None));
    assert!(check_initrd(Some((0xffff_f000, 0xfff))));
    assert!(!check_initrd(Some((0xffff_f000, 0x1000))));
}
