//! What the board fixes: its memory map and interrupt lines, and the numbers by
//! which nodes refer to each other.

use vstd::prelude::*;

verus! {

/// The memory map and the interrupt lines of the board.
#[derive(Debug, Clone, Copy)]
pub struct Layout {
    /// Start of DRAM.
    pub phys_mem_start: u64,
    /// Start of DRAM in the second virtual machine.
    pub phys_mem_start_second: u64,
    /// Start of the memory through which inference jobs are exchanged.
    pub inference_io_mem_start: u64,
    /// Start of that memory in the second virtual machine.
    pub inference_io_mem_start_second: u64,
    /// Size of that memory.
    pub inference_io_mem_max_size: u64,
    /// Interrupt controller: CPU interface.
    pub gic_cpui_base: u64,
    pub gic_cpui_size: u64,
    /// Interrupt controller: distributor.
    pub gic_dist_base: u64,
    pub gic_dist_size: u64,
    /// Interrupt controller: size of one CPU's redistributor.
    pub gic_redist_size: u64,
    /// Real time clock.
    pub rtc_addr: u64,
    pub rtc_size: u64,
    pub rtc_irq: u32,
    /// AMBA identifier of the real time clock.
    pub rtc_amba_id: u32,
    /// Serial ports: addresses, the size of each, their interrupts and clock.
    pub serial_addr: [u64; 4],
    pub serial_size: u64,
    pub serial_1_3_irq: u32,
    pub serial_2_4_irq: u32,
    pub serial_speed: u32,
    /// Interrupt of the performance monitoring unit.
    pub pmu_irq: u32,
}

/// Why a device tree could not be described or loaded.
#[derive(Debug, Clone, Copy, PartialEq, Eq, Structural)]
pub enum Error {
    /// The source of random numbers could not be read.
    FdtIoError,
    /// The tree could not be written to guest memory.
    FdtGuestMemoryWriteError,
    /// A device path does not end in a name.
    PathNotValidFormatError,
    /// A device path does not lead to a directory.
    PathNotDirError,
    /// The properties of a device could not be listed.
    ReadDirError,
    /// A property of a device could not be read.
    ReadFileError,
}

/// `result` reports `error`, or success where there is none.
pub open spec fn reports(result: Result<(), Error>, error: Option<Error>) -> bool {
    match result {
        Ok(_) => error is None,
        Err(reported) => error == Some(reported),
    }
}

// The numbers by which nodes are referred to. They are arbitrary, but distinct.
pub const PHANDLE_GIC: u32 = 1;

pub const PHANDLE_RESTRICTED_DMA_POOL: u32 = 2;

pub const PHANDLE_RKNPU_IOMMU: u32 = 4;

pub const PHANDLE_RKNPU_CLOCK: u32 = 5;

pub const PHANDLE_EDGETPU_IOMMU: u32 = 6;

pub const PHANDLE_EDGETPU_IOMMU_GROUP: u32 = 7;

pub const PHANDLE_EDGETPU_TPU_FW: u32 = 8;

pub const PHANDLE_RKNPU_FAKE_CLOCK: u32 = 10;

pub const PHANDLE_RTC_CLOCK: u32 = 24;

/// CPUs are numbered from here.
pub const PHANDLE_CPU0: u32 = 0x100;

// These are fixed by the GIC bindings.
pub const GIC_FDT_IRQ_NUM_CELLS: u32 = 3;

pub const GIC_FDT_IRQ_TYPE_SPI: u32 = 0;

pub const GIC_FDT_IRQ_TYPE_PPI: u32 = 1;

pub const GIC_FDT_IRQ_PPI_CPU_SHIFT: u32 = 8;

pub const GIC_FDT_IRQ_PPI_CPU_MASK: u32 = 0xff00;

pub const IRQ_TYPE_EDGE_RISING: u32 = 1;

pub const IRQ_TYPE_LEVEL_HIGH: u32 = 4;

pub const IRQ_TYPE_LEVEL_LOW: u32 = 8;

} // verus!
