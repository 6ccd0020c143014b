//! The PCI host controller.

use vstd::prelude::*;

use crate::board;
use crate::cells;
use crate::nesting;
use crate::script::{FdtScript, Op};

verus! {

/// PCI address space.
#[derive(Debug, Clone, Copy, PartialEq, Eq, Structural)]
pub enum PciAddressSpace {
    /// PCI configuration space
    Configuration,
    /// I/O space
    Io,
    /// 32-bit memory space
    Memory,
    /// 64-bit memory space
    Memory64,
}

/// The number of an address space in the PCI bus binding.
pub open spec fn space_code(space: PciAddressSpace) -> u32 {
    match space {
        PciAddressSpace::Configuration => 0,
        PciAddressSpace::Io => 1,
        PciAddressSpace::Memory => 2,
        PciAddressSpace::Memory64 => 3,
    }
}

impl PciAddressSpace {
    /// The number of the address space in the PCI bus binding.
    pub fn code(self) -> (code: u32)
        ensures
            code == space_code(self),
    {
        match self {
            PciAddressSpace::Configuration => 0,
            PciAddressSpace::Io => 1,
            PciAddressSpace::Memory => 2,
            PciAddressSpace::Memory64 => 3,
        }
    }
}

/// PCI host controller address range.
///
/// This represents a single entry in the "ranges" property for a PCI host
/// controller.
///
/// See [PCI Bus Binding to Open Firmware](https://www.openfirmware.info/data/docs/bus.pci.pdf)
/// and https://www.kernel.org/doc/Documentation/devicetree/bindings/pci/host-generic-pci.txt
/// for more information.
#[derive(Debug, Clone, Copy, PartialEq, Eq, Structural)]
pub struct PciRange {
    pub space: PciAddressSpace,
    pub bus_address: u64,
    pub cpu_physical_address: u64,
    pub size: u64,
    pub prefetchable: bool,
}

/// Location of memory-mapped PCI configuration space.
#[derive(Debug, Clone, Copy, PartialEq, Eq, Structural)]
pub struct PciConfigRegion {
    /// Physical address of the base of the memory-mapped PCI configuration region.
    pub base: u64,
    /// Size of the PCI configuration region in bytes.
    pub size: u64,
}

/// The interrupt line of one pin of a PCI device.
#[derive(Debug, Clone, Copy, PartialEq, Eq, Structural)]
pub struct PciIrq {
    /// The configuration address of the device, for eight bits of registers.
    pub config_address: u32,
    /// The interrupt that the pin is wired to.
    pub irq_num: u32,
    /// The pin, counted from zero for INTA#.
    pub pin: u32,
}

/// The cells of an address range: three for the bus address, two for the
/// address that CPUs use, and two for the size. Of the first cell, bits 24 and
/// 25 hold the address space, and bit 30 tells whether it can be prefetched.
pub open spec fn range_entry(range: PciRange) -> Seq<u32> {
    seq![
        (space_code(range.space) * 0x100_0000 + if range.prefetchable {
            0x4000_0000int
        } else {
            0
        }) as u32,
        cells::high(range.bus_address),
        cells::low(range.bus_address),
        cells::high(range.cpu_physical_address),
        cells::low(range.cpu_physical_address),
        cells::high(range.size),
        cells::low(range.size),
    ]
}

/// The cells of the first `count` address ranges.
pub open spec fn range_entries(ranges: Seq<PciRange>, count: nat) -> Seq<u32>
    decreases count,
{
    if count == 0 {
        Seq::empty()
    } else {
        range_entries(ranges, (count - 1) as nat) + range_entry(ranges[count - 1])
    }
}

/// The cells that map an interrupt pin to the interrupt controller: three for
/// the device, one for the pin, three for the controller, and three that the
/// controller reads.
pub open spec fn interrupt_entry(irq: PciIrq) -> Seq<u32> {
    seq![
        irq.config_address,
        0,
        0,
        (irq.pin + 1) as u32,
        board::PHANDLE_GIC,
        0,
        0,
        board::GIC_FDT_IRQ_TYPE_SPI,
        irq.irq_num,
        board::IRQ_TYPE_LEVEL_HIGH,
    ]
}

/// The cells that map the first `count` interrupt pins.
pub open spec fn interrupt_entries(irqs: Seq<PciIrq>, count: nat) -> Seq<u32>
    decreases count,
{
    if count == 0 {
        Seq::empty()
    } else {
        interrupt_entries(irqs, (count - 1) as nat) + interrupt_entry(irqs[count - 1])
    }
}

/// The cells that tell which bits select an interrupt pin: the device number,
/// and the pin. They are repeated for each of `count` pins.
pub open spec fn mask_entries(count: nat) -> Seq<u32>
    decreases count,
{
    if count == 0 {
        Seq::empty()
    } else {
        mask_entries((count - 1) as nat) + seq![0xf800, 0, 0, 0x7]
    }
}

/// The node of the host controller.
pub open spec fn pci_node(
    pci_irqs: Seq<PciIrq>,
    cfg: PciConfigRegion,
    ranges: Seq<PciRange>,
    dma_pool_phandle: Option<u32>,
) -> Seq<Op> {
    nesting::node(
        "pci"@,
        seq![
            Op::PropertyString("compatible"@, "pci-host-cam-generic"@),
            Op::PropertyString("device_type"@, "pci"@),
            Op::PropertyArrayU32("ranges"@, range_entries(ranges, ranges.len())),
            Op::PropertyArrayU32("bus-range"@, seq![0, 0]),
            Op::PropertyU32("#address-cells"@, 3),
            Op::PropertyU32("#size-cells"@, 2),
            Op::PropertyArrayU64("reg"@, seq![cfg.base, cfg.size]),
            Op::PropertyU32("#interrupt-cells"@, 1),
            Op::PropertyArrayU32("interrupt-map"@, interrupt_entries(pci_irqs, pci_irqs.len())),
            Op::PropertyArrayU32("interrupt-map-mask"@, mask_entries(pci_irqs.len())),
            Op::PropertyNull("dma-coherent"@),
        ] + match dma_pool_phandle {
            Some(phandle) => seq![Op::PropertyU32("memory-region"@, phandle)],
            None => Seq::empty(),
        },
        Seq::empty(),
    )
}

/// No two address ranges have the same cells.
pub proof fn lemma_range_entry_injective(left: PciRange, right: PciRange)
    requires
        range_entry(left) == range_entry(right),
    ensures
        left == right,
{
    let a = range_entry(left);
    let b = range_entry(right);
    assert(a[0] == b[0] && a[1] == b[1] && a[2] == b[2] && a[3] == b[3] && a[4] == b[4] && a[5]
        == b[5] && a[6] == b[6]);
    cells::lemma_halves(left.bus_address);
    cells::lemma_halves(right.bus_address);
    cells::lemma_halves(left.cpu_physical_address);
    cells::lemma_halves(right.cpu_physical_address);
    cells::lemma_halves(left.size);
    cells::lemma_halves(right.size);
}

/// The properties of the host controller agree in size: seven cells for each
/// address range, and ten and four for each interrupt pin.
pub proof fn lemma_entry_counts(ranges: Seq<PciRange>, irqs: Seq<PciIrq>, count: nat)
    ensures
        range_entries(ranges, count).len() == 7 * count,
        interrupt_entries(irqs, count).len() == 10 * count,
        mask_entries(count).len() == 4 * count,
    decreases count,
{
    if count > 0 {
        lemma_entry_counts(ranges, irqs, (count - 1) as nat);
    }
}

/// All pins can be counted from one.
pub open spec fn pins_fit(irqs: Seq<PciIrq>) -> bool {
    forall|i: int| 0 <= i < irqs.len() ==> (#[trigger] irqs[i]).pin < u32::MAX
}

/// Whether all pins can be counted from one.
pub fn check_pins(irqs: &Vec<PciIrq>) -> (result: bool)
    ensures
        result == pins_fit(irqs@),
{
    for i in 0..irqs.len()
        invariant
            forall|k: int| 0 <= k < i ==> (#[trigger] irqs@[k]).pin < u32::MAX,
    {
        if irqs[i].pin == u32::MAX {
            assert(irqs@[i as int].pin == u32::MAX);
            return false;
        }
    }
    true
}

/// The first cell of an address range.
fn attribute_cell(range: &PciRange) -> (cell: u32)
    ensures
        cell == range_entry(*range)[0],
{
    let ss = range.space.code();
    let p: u32 = if range.prefetchable {
        1
    } else {
        0
    };
    assert((ss << 24) | (p << 30) == ss * 0x100_0000 + p * 0x4000_0000) by (bit_vector)
        requires
            ss <= 3,
            p <= 1,
    ;
    (ss << 24) | (p << 30)
}

/// The cells of all address ranges.
fn range_list(ranges: &[PciRange]) -> (list: Vec<u32>)
    ensures
        list@ == range_entries(ranges@, ranges@.len()),
{
    let mut list: Vec<u32> = Vec::new();
    for i in 0..ranges.len()
        invariant
            list@ == range_entries(ranges@, i as nat),
    {
        let range = &ranges[i];
        list.push(attribute_cell(range));
        list.push(cells::high_cell(range.bus_address));
        list.push(cells::low_cell(range.bus_address));
        list.push(cells::high_cell(range.cpu_physical_address));
        list.push(cells::low_cell(range.cpu_physical_address));
        list.push(cells::high_cell(range.size));
        list.push(cells::low_cell(range.size));
        assert(list@ =~= range_entries(ranges@, (i + 1) as nat));
    }
    list
}

/// Describes the host controller, with what is behind it.
///
/// `dma_pool_phandle` refers to the memory that devices are restricted to.
pub fn create_pci_nodes(
    fdt: &mut FdtScript,
    pci_irqs: &Vec<PciIrq>,
    cfg: PciConfigRegion,
    ranges: &[PciRange],
    dma_pool_phandle: Option<u32>,
)
    requires
        pins_fit(pci_irqs@),
    ensures
        final(fdt)@ == old(fdt)@ + pci_node(pci_irqs@, cfg, ranges@, dma_pool_phandle),
{
    let ranges_list = range_list(ranges);
    let bus_range: [u32; 2] = [0, 0];
    let reg: [u64; 2] = [cfg.base, cfg.size];

    let mut interrupts: Vec<u32> = Vec::new();
    let mut masks: Vec<u32> = Vec::new();
    for i in 0..pci_irqs.len()
        invariant
            pins_fit(pci_irqs@),
            interrupts@ == interrupt_entries(pci_irqs@, i as nat),
            masks@ == mask_entries(i as nat),
    {
        // PCI_DEVICE(3)
        interrupts.push(pci_irqs[i].config_address);
        interrupts.push(0);
        interrupts.push(0);

        // INT#(1)
        assert(pci_irqs@[i as int].pin < u32::MAX);
        interrupts.push(pci_irqs[i].pin + 1);

        // CONTROLLER(PHANDLE)
        interrupts.push(board::PHANDLE_GIC);
        interrupts.push(0);
        interrupts.push(0);

        // CONTROLLER_DATA(3)
        interrupts.push(board::GIC_FDT_IRQ_TYPE_SPI);
        interrupts.push(pci_irqs[i].irq_num);
        interrupts.push(board::IRQ_TYPE_LEVEL_HIGH);
        assert(interrupts@ =~= interrupt_entries(pci_irqs@, (i + 1) as nat));

        // PCI_DEVICE(3)
        masks.push(0xf800);
        masks.push(0);
        masks.push(0);

        // INT#(1)
        masks.push(0x7);
        assert(masks@ =~= mask_entries((i + 1) as nat));
    }

    fdt.begin_node("pci");
    fdt.property_string("compatible", "pci-host-cam-generic");
    fdt.property_string("device_type", "pci");
    fdt.property_array_u32("ranges", ranges_list.as_slice());
    fdt.property_array_u32("bus-range", bus_range.as_slice());
    fdt.property_u32("#address-cells", 3);
    fdt.property_u32("#size-cells", 2);
    fdt.property_array_u64("reg", reg.as_slice());
    fdt.property_u32("#interrupt-cells", 1);
    fdt.property_array_u32("interrupt-map", interrupts.as_slice());
    fdt.property_array_u32("interrupt-map-mask", masks.as_slice());
    fdt.property_null("dma-coherent");
    if let Some(phandle) = dma_pool_phandle {
        fdt.property_u32("memory-region", phandle);
    }
    fdt.end_node();
    assert(bus_range@ =~= seq![0, 0]);
    assert(reg@ =~= seq![cfg.base, cfg.size]);
    assert(fdt@ =~= old(fdt)@ + pci_node(pci_irqs@, cfg, ranges@, dma_pool_phandle));
}

} // verus!
