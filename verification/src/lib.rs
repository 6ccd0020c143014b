//! Flattened device tree of an aarch64 guest.

pub mod board;
pub mod cells;
pub mod chosen;
pub mod contents;
pub mod cpu;
pub mod interrupts;
pub mod lookup;
pub mod memory;
pub mod nesting;
pub mod passthrough;
pub mod pci;
pub mod peripherals;
pub mod platform;
pub mod psci;
pub mod references;
pub mod script;
pub mod shape;
pub mod text;
pub mod tree;
pub mod whole;
