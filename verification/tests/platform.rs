use aarch64::board::Error;
use aarch64::platform::{
    check_devices, create_fake_clock_node, create_iommu_node, create_vfio_platform_bus,
    create_vfio_platform_node, find_platform_device, known_device, prop_table, property_action,
    DTCopyProperty, OfEntry, OfNode, Passthrough, PlatformInfo, PropertyAction,
};
use aarch64::script::{FdtOp, FdtScript};

const EDGETPU: &str = "/sys/bus/platform/devices/1ce00000.abrolhos-guest";
const RKNPU: &str = "/sys/bus/platform/devices/fdab0000.npu-guest";

fn begin(name: &str) -> FdtOp {
    FdtOp::BeginNode(name.to_string())
}

fn cell(name: &str, value: u32) -> FdtOp {
    FdtOp::PropertyU32(name.to_string(), value)
}

fn text(name: &str, value: &str) -> FdtOp {
    FdtOp::PropertyString(name.to_string(), value.to_string())
}

fn cells(name: &str, values: &[u32]) -> FdtOp {
    FdtOp::PropertyArrayU32(name.to_string(), values.to_vec())
}

fn wides(name: &str, values: &[u64]) -> FdtOp {
    FdtOp::PropertyArrayU64(name.to_string(), values.to_vec())
}

fn bytes(name: &str, values: &[u8]) -> FdtOp {
    FdtOp::Property(name.to_string(), values.to_vec())
}

fn end() -> FdtOp {
    FdtOp::EndNode
}

fn entry(name: &str, data: Option<&[u8]>) -> OfEntry {
    OfEntry { name: name.to_string(), data: data.map(|bytes| bytes.to_vec()) }
}

fn listed(entries: Vec<OfEntry>) -> OfNode {
    OfNode { is_dir: true, entries: Some(entries) }
}

fn info(path: &str) -> PlatformInfo {
    (path.to_string(), vec![(0x5000, 0x10)], vec![])
}

#[test]
fn edgetpu_node() {
    let of_node = listed(vec![
        entry("name", None),
        entry("compatible", Some(b"google\0")),
        entry("reg", None),
        entry("other", None),
        entry("reg-names ", Some(b"r")),
    ]);
    let mut fdt = FdtScript::new();
    let result = create_vfio_platform_node(
        &mut fdt,
        EDGETPU,
        &vec![(0x5000, 0x10), (0x6000, 0x20)],
        &vec![(33, 4), (34, 4)],
        0x4000,
        &of_node,
    );
    assert_eq!(result, Ok(()));
    assert_eq!(
        fdt.ops,
        vec![
            begin("1ce00000.abrolhos-guest@5000"),
            cells("interrupts", &[0, 33, 4, 0, 34, 4]),
            wides("reg", &[0x1000, 0x10, 0x2000, 0x20]),
            cell("iommus", 6),
            cell("samsung,iommu-group", 7),
            cell("memory-region", 8),
            bytes("compatible", b"google\0"),
            bytes("reg-names ", b"r"),
            end(),
            begin("clock-controller"),
            text("compatible", "rockchip,rk3588-cru"),
            cell("#clock-cells", 0),
            cell("#reset-cells", 1),
            cell("phandle", 5),
            end(),
        ]
    );
}

#[test]
fn rknpu_node_leaves_the_fourth_range_to_the_clock() {
    let of_node = listed(vec![
        entry("compatible", None),
        entry("interrupt-names", Some(b"i")),
        entry("resets", None),
        entry("reset-names", Some(b"s")),
    ]);
    let mut fdt = FdtScript::new();
    let result = create_vfio_platform_node(
        &mut fdt,
        RKNPU,
        &vec![(0x10, 1), (0x20, 2), (0x30, 3), (0x40, 4), (0x50, 5)],
        &vec![],
        0x10,
        &of_node,
    );
    assert_eq!(result, Ok(()));
    assert_eq!(
        fdt.ops,
        vec![
            begin("fdab0000.npu-guest@10"),
            wides("reg", &[0, 1, 0x10, 2, 0x20, 3]),
            text("compatible", "rockchip,rk3588-rknpu"),
            cell("iommus", 4),
            cell("clocks", 10),
            cells("resets", &[5, 486, 5, 432, 5, 448, 5, 488, 5, 434, 5, 450]),
            bytes("interrupt-names", b"i"),
            bytes("reset-names", b"s"),
            end(),
            begin("clock-controller"),
            text("compatible", "rockchip,rk3588-cru"),
            cell("#clock-cells", 0),
            cell("#reset-cells", 1),
            cell("phandle", 5),
            wides("reg", &[0x30, 4, 0x40, 5]),
            end(),
        ]
    );
}

#[test]
fn errors_of_a_device_come_in_order() {
    let ranges = vec![(0x10, 1)];
    let irqs = vec![(1, 0)];
    let run = |path: &str, of_node: OfNode| {
        let mut fdt = FdtScript::new();
        let result = create_vfio_platform_node(&mut fdt, path, &ranges, &irqs, 0, &of_node);
        (result, fdt.ops)
    };

    let missing = OfNode { is_dir: false, entries: None };
    assert_eq!(run("/sys/..", missing), (Err(Error::PathNotValidFormatError), vec![]));

    let missing = OfNode { is_dir: false, entries: None };
    assert_eq!(run("/sys/dev", missing), (Err(Error::PathNotDirError), vec![begin("dev@10")]));

    let unknown = OfNode { is_dir: true, entries: None };
    assert_eq!(
        run("/sys/dev", unknown),
        (
            Err(Error::FdtGuestMemoryWriteError),
            vec![begin("dev@10"), cells("interrupts", &[0, 1, 4])]
        )
    );

    let unlisted = OfNode { is_dir: true, entries: None };
    let (result, ops) = run(EDGETPU, unlisted);
    assert_eq!(result, Err(Error::ReadDirError));
    assert_eq!(ops.len(), 6);
    assert_eq!(ops[5], cell("memory-region", 8));

    let unread = listed(vec![
        entry("reg-names", Some(b"r")),
        entry("compatible", None),
        entry("compatible", Some(b"c")),
    ]);
    let (result, ops) = run(EDGETPU, unread);
    assert_eq!(result, Err(Error::ReadFileError));
    assert_eq!(ops.len(), 7);
    assert_eq!(ops[6], bytes("reg-names", b"r"));
}

#[test]
fn tables_say_what_is_copied() {
    let rows = |device| -> Vec<(&str, PropertyAction)> {
        prop_table(device).iter().map(|row| (row.name, row.action)).collect()
    };
    assert_eq!(
        rows(Passthrough::Edgetpu),
        vec![
            ("name", PropertyAction::PropIgnore),
            ("compatible", PropertyAction::PropCopy),
            ("reg", PropertyAction::PropIgnore),
            ("reg-names", PropertyAction::PropCopy),
            ("interrupts", PropertyAction::PropIgnore),
        ]
    );
    assert_eq!(
        rows(Passthrough::Rknpu),
        vec![
            ("name", PropertyAction::PropIgnore),
            ("compatible", PropertyAction::PropIgnore),
            ("reg", PropertyAction::PropIgnore),
            ("interrupts", PropertyAction::PropIgnore),
            ("interrupt-names", PropertyAction::PropCopy),
            ("resets", PropertyAction::PropIgnore),
            ("reset-names", PropertyAction::PropCopy),
        ]
    );
    let row = DTCopyProperty::new("reg", PropertyAction::PropCopy);
    assert_eq!((row.name, row.action), ("reg", PropertyAction::PropCopy));
}

#[test]
fn property_files_are_looked_up_by_trimmed_name() {
    let action = |name| property_action(Passthrough::Rknpu, name);
    assert_eq!(action("reset-names"), Some(PropertyAction::PropCopy));
    assert_eq!(action(" reset-names\n"), Some(PropertyAction::PropCopy));
    assert_eq!(action("compatible"), Some(PropertyAction::PropIgnore));
    assert_eq!(action("reset"), None);
    assert_eq!(
        property_action(Passthrough::Edgetpu, "compatible"),
        Some(PropertyAction::PropCopy)
    );
}

#[test]
fn devices_are_known_by_path() {
    assert_eq!(known_device(EDGETPU), Some(Passthrough::Edgetpu));
    assert_eq!(known_device(RKNPU), Some(Passthrough::Rknpu));
    assert_eq!(known_device("/sys/bus/platform/devices/fdab0000.npu-guest/"), None);
    assert_eq!(known_device(""), None);
}

#[test]
fn last_absolute_path_decides() {
    assert_eq!(find_platform_device(&vec![]), None);
    assert_eq!(find_platform_device(&vec![info(RKNPU)]), Some(Passthrough::Rknpu));
    assert_eq!(
        find_platform_device(&vec![info(RKNPU), info(EDGETPU)]),
        Some(Passthrough::Edgetpu)
    );
    assert_eq!(find_platform_device(&vec![info(EDGETPU), info("sub")]), None);
    assert_eq!(
        find_platform_device(&vec![
            info("/sys/bus"),
            info("platform/devices/"),
            info("fdab0000.npu-guest"),
        ]),
        Some(Passthrough::Rknpu)
    );
}

#[test]
fn bus_with_a_device() {
    let mut fdt = FdtScript::new();
    let platform_info = vec![info(EDGETPU)];
    let of_nodes = vec![listed(vec![])];
    let result =
        create_vfio_platform_bus(&mut fdt, &platform_info, 0, 0x2_0000_1000, &of_nodes);
    assert_eq!(result, Ok(()));
    assert_eq!(
        fdt.ops[..6],
        [
            begin("/platform@0"),
            text("compatible", "simple-bus"),
            cell("#address-cells", 2),
            cell("#size-cells", 2),
            cells("ranges", &[0, 0, 0, 0, 2, 0x1000]),
            cell("interrupt-parent", 1),
        ]
    );
    assert_eq!(fdt.ops[6], begin("1ce00000.abrolhos-guest@5000"));
    assert_eq!(fdt.ops[fdt.ops.len() - 1], end());
}

#[test]
fn bus_without_devices() {
    let mut fdt = FdtScript::new();
    let result = create_vfio_platform_bus(&mut fdt, &vec![], 0x1_4000_0000, 0x100, &vec![]);
    assert_eq!(result, Ok(()));
    assert_eq!(fdt.ops[0], begin("/platform@140000000"));
    assert_eq!(fdt.ops[4], cells("ranges", &[0, 0, 1, 0x4000_0000, 0, 0x100]));
    assert_eq!(fdt.ops.len(), 7);
}

#[test]
fn bus_stops_at_the_first_error() {
    let mut fdt = FdtScript::new();
    let platform_info = vec![info("/sys/dev"), info(EDGETPU)];
    let of_nodes = vec![OfNode { is_dir: false, entries: None }, listed(vec![])];
    let result = create_vfio_platform_bus(&mut fdt, &platform_info, 0, 0, &of_nodes);
    assert_eq!(result, Err(Error::PathNotDirError));
    assert_eq!(fdt.ops.len(), 7);
    assert_eq!(fdt.ops[6], begin("dev@5000"));
}

#[test]
fn companions_of_an_edgetpu() {
    let mut fdt = FdtScript::new();
    create_iommu_node(&mut fdt, &vec![info(EDGETPU)]);
    create_fake_clock_node(&mut fdt, &vec![info(EDGETPU)]);
    assert_eq!(
        fdt.ops,
        vec![
            begin("sysmmu"),
            text("compatible", "samsung,sysmmu-v8"),
            wides("reg", &[0, 0, 0]),
            cell("#iommu-cells", 0),
            cell("phandle", 6),
            end(),
            begin("iommu_group_tpu"),
            text("compatible", "samsung,sysmmu-group"),
            cell("phandle", 7),
            end(),
        ]
    );
}

#[test]
fn companions_of_an_rknpu() {
    let mut fdt = FdtScript::new();
    create_iommu_node(&mut fdt, &vec![info(RKNPU)]);
    create_fake_clock_node(&mut fdt, &vec![info(RKNPU)]);
    assert_eq!(
        fdt.ops,
        vec![
            begin("iommu"),
            text("compatible", "rockchip,iommu-v2"),
            wides("reg", &[0, 0, 0, 0]),
            cell("#iommu-cells", 0),
            cell("phandle", 4),
            end(),
            begin("fake-clock-controller"),
            text("compatible", "fixed-clock"),
            cell("clock-frequency", 1000000000),
            cell("#clock-cells", 0),
            cell("phandle", 10),
            end(),
        ]
    );
}

#[test]
fn other_platforms_have_no_companions() {
    let mut fdt = FdtScript::new();
    create_iommu_node(&mut fdt, &vec![]);
    create_fake_clock_node(&mut fdt, &vec![info("/sys/dev")]);
    assert_eq!(fdt.ops, vec![]);
}

#[test]
fn ranges_have_to_be_describable() {
    let device = |path: &str, ranges: &[(u64, u64)]| -> PlatformInfo {
        (path.to_string(), ranges.to_vec(), vec![])
    };
    let missing = || OfNode { is_dir: false, entries: None };

    // The first range names the node.
    assert!(!check_devices(&vec![device("/sys/dev", &[])], &vec![missing()], 0));
    // Without a name it is not needed.
    assert!(check_devices(&vec![device("/", &[])], &vec![missing()], 0));
    // Ranges of a known device lie above the base.
    let low = vec![device(EDGETPU, &[(5, 1), (3, 1)])];
    assert!(!check_devices(&low, &vec![listed(vec![])], 4));
    assert!(check_devices(&low, &vec![listed(vec![])], 3));
    assert!(check_devices(&low, &vec![missing()], 4));
    // What is behind an error does not matter.
    let behind = vec![device("/sys/dev", &[(0, 0)]), device("/sys/dev", &[])];
    assert!(check_devices(&behind, &vec![missing(), missing()], 0));
    // Every device was looked up.
    assert!(!check_devices(&behind, &vec![missing()], 0));
}
