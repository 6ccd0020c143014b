use aarch64::psci::{create_psci_node, psci_compatible, PsciVersion};
use aarch64::script::{FdtOp, FdtScript};

#[test]
fn psci_compatible_v0_1() {
    assert_eq!(psci_compatible(&PsciVersion::new(0, 1)), vec!["arm,psci"]);
}

#[test]
fn psci_compatible_v0_2() {
    assert_eq!(
        psci_compatible(&PsciVersion::new(0, 2)),
        vec!["arm,psci-0.2"]
    );
}

#[test]
fn psci_compatible_v0_5() {
    // Only the 0.2 version supported by the kernel should be added.
    assert_eq!(
        psci_compatible(&PsciVersion::new(0, 5)),
        vec!["arm,psci-0.2"]
    );
}

#[test]
fn psci_compatible_v1_0() {
    // Both 1.0 and 0.2 should be listed, in that order.
    assert_eq!(
        psci_compatible(&PsciVersion::new(1, 0)),
        vec!["arm,psci-1.0", "arm,psci-0.2"]
    );
}

#[test]
fn psci_compatible_v1_5() {
    // Only the 1.0 and 0.2 versions supported by the kernel should be listed.
    assert_eq!(
        psci_compatible(&PsciVersion::new(1, 5)),
        vec!["arm,psci-1.0", "arm,psci-0.2"]
    );
}

#[test]
fn later_versions_keep_the_names_of_earlier_ones() {
    let versions = [(0, 2), (0, 5), (1, 0), (1, 5), (2, 0)];
    for (i, older) in versions.iter().enumerate() {
        for newer in versions[i..].iter() {
            let kept = psci_compatible(&PsciVersion::new(newer.0, newer.1));
            for name in psci_compatible(&PsciVersion::new(older.0, older.1)) {
                assert!(kept.contains(&name));
            }
        }
    }
}

#[test]
fn versions_are_ordered_by_major_number_first() {
    assert!(PsciVersion::new(1, 0).since(0, 2));
    assert!(!PsciVersion::new(0, 99).since(1, 0));
    assert!(PsciVersion::new(1, 1).since(1, 1));
    assert!(!PsciVersion::new(1, 0).since(1, 1));
}

#[test]
fn psci_node_lists_compatible_versions() {
    let mut fdt = FdtScript::new();
    create_psci_node(&mut fdt, &PsciVersion::new(1, 1));
    assert_eq!(
        fdt.ops,
        vec![
            FdtOp::BeginNode("psci".to_string()),
            FdtOp::PropertyStringList(
                "compatible".to_string(),
                vec!["arm,psci-1.0".to_string(), "arm,psci-0.2".to_string()],
            ),
            FdtOp::PropertyString("method".to_string(), "hvc".to_string()),
            FdtOp::EndNode,
        ]
    );
}
