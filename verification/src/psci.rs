//! The power state coordination interface.

use vstd::prelude::*;

use crate::nesting;
use crate::script::{FdtScript, Op};

verus! {

/// A version of the interface.
#[derive(Debug, Clone, Copy, PartialEq, Eq, Structural)]
pub struct PsciVersion {
    pub major: u32,
    pub minor: u32,
}

impl PsciVersion {
    /// The version `major.minor`.
    pub fn new(major: u32, minor: u32) -> (version: PsciVersion)
        ensures
            version == (PsciVersion { major, minor }),
    {
        PsciVersion { major, minor }
    }

    /// The version is `major.minor` or a later one.
    pub open spec fn is_since(self, major: u32, minor: u32) -> bool {
        self.major > major || (self.major == major && self.minor >= minor)
    }

    /// Whether the version is `major.minor` or a later one.
    pub fn since(&self, major: u32, minor: u32) -> (result: bool)
        ensures
            result == self.is_since(major, minor),
    {
        self.major > major || (self.major == major && self.minor >= minor)
    }
}

/// Versions are ordered by their major number, then by their minor number.
pub proof fn lemma_versions_ordered(version: PsciVersion, major: u32, minor: u32)
    ensures
        version.is_since(major, minor) <==> version.major * 0x1_0000_0000 + version.minor >= major
            * 0x1_0000_0000 + minor,
{
}

/// What a version is compatible with, newest first. Versions since 0.2 also
/// work as the earlier ones; version 0.1 stands alone.
pub open spec fn compatible_with(version: PsciVersion) -> Seq<Seq<char>> {
    if version.is_since(1, 0) {
        seq!["arm,psci-1.0"@, "arm,psci-0.2"@]
    } else if version.is_since(0, 2) {
        seq!["arm,psci-0.2"@]
    } else {
        seq!["arm,psci"@]
    }
}

/// Every version is compatible with something.
pub proof fn lemma_compatible_not_empty(version: PsciVersion)
    ensures
        compatible_with(version).len() > 0,
{
}

/// What a version since 0.2 is compatible with, a later version is too.
pub proof fn lemma_compatible_backwards(older: PsciVersion, newer: PsciVersion, name: Seq<char>)
    requires
        older.is_since(0, 2),
        newer.is_since(older.major, older.minor),
        compatible_with(older).contains(name),
    ensures
        compatible_with(newer).contains(name),
{
    let names = compatible_with(older);
    let i = choose|i: int| 0 <= i < names.len() && names[i] == name;
    if newer.is_since(1, 0) {
        assert(compatible_with(newer)[0] == "arm,psci-1.0"@);
        assert(compatible_with(newer)[1] == "arm,psci-0.2"@);
    }
}

/// The names of the versions that `version` is compatible with, newest first.
pub fn psci_compatible(version: &PsciVersion) -> (compatible: Vec<&'static str>)
    ensures
        compatible@.map_values(|name: &str| name@) == compatible_with(*version),
{
    // The PSCI kernel driver only supports compatible strings for the following
    // backward-compatible versions.
    let mut compatible: Vec<&'static str> = Vec::new();
    if version.since(1, 0) {
        compatible.push("arm,psci-1.0");
    }
    if version.since(0, 2) {
        compatible.push("arm,psci-0.2");
    }

    // The PSCI kernel driver also supports PSCI v0.1, which is NOT
    // forward-compatible.
    if compatible.len() == 0 {
        compatible.push("arm,psci");
    }
    assert(compatible@.map_values(|name: &str| name@) =~= compatible_with(*version));
    compatible
}

/// The node of the interface.
pub open spec fn psci_node(version: PsciVersion) -> Seq<Op> {
    nesting::node(
        "psci"@,
        seq![
            Op::PropertyStringList("compatible"@, compatible_with(version)),
            Op::PropertyString("method"@, "hvc"@),
        ],
        Seq::empty(),
    )
}

/// Describes the interface.
pub fn create_psci_node(fdt: &mut FdtScript, version: &PsciVersion)
    ensures
        final(fdt)@ == old(fdt)@ + psci_node(*version),
{
    let compatible = psci_compatible(version);
    fdt.begin_node("psci");
    fdt.property_string_list("compatible", &compatible);
    // Only support aarch64 guest
    fdt.property_string("method", "hvc");
    fdt.end_node();
    assert(fdt@ =~= old(fdt)@ + psci_node(*version));
}

} // verus!
