//! The serial ports and the real time clock.

use vstd::prelude::*;

use crate::board;
use crate::board::Layout;
use crate::nesting;
use crate::script::{FdtScript, Op};
use crate::text;

verus! {

/// The node of a serial port.
pub open spec fn serial_node(layout: Layout, addr: u64, irq: u32) -> Seq<Op> {
    nesting::node(
        "U6_16550A@"@ + text::hex(addr as nat),
        seq![
            Op::PropertyString("compatible"@, "ns16550a"@),
            Op::PropertyArrayU64("reg"@, seq![addr, layout.serial_size]),
            Op::PropertyU32("clock-frequency"@, layout.serial_speed),
            Op::PropertyArrayU32(
                "interrupts"@,
                seq![board::GIC_FDT_IRQ_TYPE_SPI, irq, board::IRQ_TYPE_EDGE_RISING],
            ),
        ],
        Seq::empty(),
    )
}

/// The nodes of all serial ports. The first and the third share an interrupt,
/// and so do the second and the fourth.
pub open spec fn serial_nodes(layout: Layout) -> Seq<Op> {
    serial_node(layout, layout.serial_addr[0], layout.serial_1_3_irq) + serial_node(
        layout,
        layout.serial_addr[1],
        layout.serial_2_4_irq,
    ) + serial_node(layout, layout.serial_addr[2], layout.serial_1_3_irq) + serial_node(
        layout,
        layout.serial_addr[3],
        layout.serial_2_4_irq,
    )
}

/// Describes a serial port.
pub fn create_serial_node(fdt: &mut FdtScript, layout: &Layout, addr: u64, irq: u32)
    ensures
        final(fdt)@ == old(fdt)@ + serial_node(*layout, addr, irq),
{
    let serial_reg_prop: [u64; 2] = [addr, layout.serial_size];
    let irq_prop: [u32; 3] = [board::GIC_FDT_IRQ_TYPE_SPI, irq, board::IRQ_TYPE_EDGE_RISING];

    fdt.begin_node(text::hex_name("U6_16550A@", addr).as_str());
    fdt.property_string("compatible", "ns16550a");
    fdt.property_array_u64("reg", serial_reg_prop.as_slice());
    fdt.property_u32("clock-frequency", layout.serial_speed);
    fdt.property_array_u32("interrupts", irq_prop.as_slice());
    fdt.end_node();
    assert(serial_reg_prop@ =~= seq![addr, layout.serial_size]);
    assert(irq_prop@ =~= seq![board::GIC_FDT_IRQ_TYPE_SPI, irq, board::IRQ_TYPE_EDGE_RISING]);
    assert(fdt@ =~= old(fdt)@ + serial_node(*layout, addr, irq));
}

/// Describes all serial ports.
pub fn create_serial_nodes(fdt: &mut FdtScript, layout: &Layout)
    ensures
        final(fdt)@ == old(fdt)@ + serial_nodes(*layout),
{
    create_serial_node(fdt, layout, layout.serial_addr[0], layout.serial_1_3_irq);
    create_serial_node(fdt, layout, layout.serial_addr[1], layout.serial_2_4_irq);
    create_serial_node(fdt, layout, layout.serial_addr[2], layout.serial_1_3_irq);
    create_serial_node(fdt, layout, layout.serial_addr[3], layout.serial_2_4_irq);
    assert(fdt@ =~= old(fdt)@ + serial_nodes(*layout));
}

/// The clock that the driver of the real time clock insists on.
pub open spec fn rtc_clock_node() -> Seq<Op> {
    nesting::node(
        "pclk@3M"@,
        seq![
            Op::PropertyU32("#clock-cells"@, 0),
            Op::PropertyString("compatible"@, "fixed-clock"@),
            Op::PropertyU32("clock-frequency"@, 3141592),
            Op::PropertyU32("phandle"@, board::PHANDLE_RTC_CLOCK),
        ],
        Seq::empty(),
    )
}

/// The nodes of the real time clock.
pub open spec fn rtc_nodes(layout: Layout) -> Seq<Op> {
    rtc_clock_node() + nesting::node(
        "rtc@"@ + text::hex(layout.rtc_addr as nat),
        seq![
            Op::PropertyString("compatible"@, "arm,primecell"@),
            Op::PropertyU32("arm,primecell-periphid"@, layout.rtc_amba_id),
            Op::PropertyArrayU64("reg"@, seq![layout.rtc_addr, layout.rtc_size]),
            Op::PropertyArrayU32(
                "interrupts"@,
                seq![board::GIC_FDT_IRQ_TYPE_SPI, layout.rtc_irq, board::IRQ_TYPE_LEVEL_HIGH],
            ),
            Op::PropertyU32("clocks"@, board::PHANDLE_RTC_CLOCK),
            Op::PropertyString("clock-names"@, "apb_pclk"@),
        ],
        Seq::empty(),
    )
}

fn create_rtc_clock_node(fdt: &mut FdtScript)
    ensures
        final(fdt)@ == old(fdt)@ + rtc_clock_node(),
{
    fdt.begin_node("pclk@3M");
    fdt.property_u32("#clock-cells", 0);
    fdt.property_string("compatible", "fixed-clock");
    fdt.property_u32("clock-frequency", 3141592);
    fdt.property_u32("phandle", board::PHANDLE_RTC_CLOCK);
    fdt.end_node();
    assert(fdt@ =~= old(fdt)@ + rtc_clock_node());
}

/// Describes the real time clock.
pub fn create_rtc_node(fdt: &mut FdtScript, layout: &Layout)
    ensures
        final(fdt)@ == old(fdt)@ + rtc_nodes(*layout),
{
    // The kernel driver really wants a clock associated with an AMBA device or
    // it will fail to probe, so there is one with a phandle of its own.
    create_rtc_clock_node(fdt);

    let rtc_name = text::hex_name("rtc@", layout.rtc_addr);
    let reg: [u64; 2] = [layout.rtc_addr, layout.rtc_size];
    let irq: [u32; 3] = [board::GIC_FDT_IRQ_TYPE_SPI, layout.rtc_irq, board::IRQ_TYPE_LEVEL_HIGH];

    fdt.begin_node(rtc_name.as_str());
    fdt.property_string("compatible", "arm,primecell");
    fdt.property_u32("arm,primecell-periphid", layout.rtc_amba_id);
    fdt.property_array_u64("reg", reg.as_slice());
    fdt.property_array_u32("interrupts", irq.as_slice());
    fdt.property_u32("clocks", board::PHANDLE_RTC_CLOCK);
    fdt.property_string("clock-names", "apb_pclk");
    fdt.end_node();
    assert(reg@ =~= seq![layout.rtc_addr, layout.rtc_size]);
    assert(irq@ =~= seq![board::GIC_FDT_IRQ_TYPE_SPI, layout.rtc_irq, board::IRQ_TYPE_LEVEL_HIGH]);
    assert(fdt@ =~= old(fdt)@ + rtc_nodes(*layout));
}

} // verus!
