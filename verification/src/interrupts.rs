//! The interrupt controller, and the devices in each CPU that interrupt it.

use vstd::prelude::*;

use crate::board;
use crate::board::Layout;
use crate::nesting;
use crate::script::{FdtScript, Op};

verus! {

/// Where the registers of the interrupt controller are: the distributor, and
/// either the redistributors, which end where the distributor starts, or the
/// CPU interface.
pub open spec fn gic_reg(layout: Layout, is_gicv3: bool, num_cpus: u64) -> Seq<u64> {
    if is_gicv3 {
        seq![
            layout.gic_dist_base,
            layout.gic_dist_size,
            (layout.gic_dist_base - layout.gic_redist_size * num_cpus) as u64,
            (layout.gic_redist_size * num_cpus) as u64,
        ]
    } else {
        seq![
            layout.gic_dist_base,
            layout.gic_dist_size,
            layout.gic_cpui_base,
            layout.gic_cpui_size,
        ]
    }
}

/// The node of the interrupt controller.
pub open spec fn gic_node(layout: Layout, is_gicv3: bool, num_cpus: u64) -> Seq<Op> {
    nesting::node(
        "intc"@,
        seq![
            Op::PropertyString(
                "compatible"@,
                if is_gicv3 {
                    "arm,gic-v3"@
                } else {
                    "arm,cortex-a15-gic"@
                },
            ),
            Op::PropertyU32("#interrupt-cells"@, board::GIC_FDT_IRQ_NUM_CELLS),
            Op::PropertyNull("interrupt-controller"@),
            Op::PropertyArrayU64("reg"@, gic_reg(layout, is_gicv3, num_cpus)),
            Op::PropertyU32("phandle"@, board::PHANDLE_GIC),
            Op::PropertyU32("#address-cells"@, 2),
            Op::PropertyU32("#size-cells"@, 2),
        ],
        Seq::empty(),
    )
}

/// There is room for the redistributors of all CPUs below the distributor.
pub open spec fn redistributors_fit(layout: Layout, is_gicv3: bool, num_cpus: u64) -> bool {
    is_gicv3 ==> layout.gic_redist_size * num_cpus <= layout.gic_dist_base
}

/// Whether there is room for the redistributors of all CPUs.
pub fn check_redistributors(layout: &Layout, is_gicv3: bool, num_cpus: u64) -> (result: bool)
    ensures
        result == redistributors_fit(*layout, is_gicv3, num_cpus),
{
    if is_gicv3 {
        match layout.gic_redist_size.checked_mul(num_cpus) {
            Some(size) => size <= layout.gic_dist_base,
            None => false,
        }
    } else {
        true
    }
}

/// The redistributors of all CPUs lie side by side, right below the
/// distributor.
pub proof fn lemma_redistributors_end_at_distributor(layout: Layout, num_cpus: u64)
    requires
        redistributors_fit(layout, true, num_cpus),
    ensures
        ({
            let reg = gic_reg(layout, true, num_cpus);
            &&& reg[2] + reg[3] == reg[0]
            &&& reg[3] == layout.gic_redist_size * num_cpus
        }),
{
    assert(layout.gic_redist_size * num_cpus >= 0) by (nonlinear_arith);
}

/// Describes the interrupt controller.
pub fn create_gic_node(fdt: &mut FdtScript, layout: &Layout, is_gicv3: bool, num_cpus: u64)
    requires
        redistributors_fit(*layout, is_gicv3, num_cpus),
    ensures
        final(fdt)@ == old(fdt)@ + gic_node(*layout, is_gicv3, num_cpus),
{
    let mut gic_reg_prop: [u64; 4] = [layout.gic_dist_base, layout.gic_dist_size, 0, 0];

    fdt.begin_node("intc");
    if is_gicv3 {
        fdt.property_string("compatible", "arm,gic-v3");
        assert(layout.gic_redist_size * num_cpus >= 0) by (nonlinear_arith);
        gic_reg_prop[2] = layout.gic_dist_base - (layout.gic_redist_size * num_cpus);
        gic_reg_prop[3] = layout.gic_redist_size * num_cpus;
    } else {
        fdt.property_string("compatible", "arm,cortex-a15-gic");
        gic_reg_prop[2] = layout.gic_cpui_base;
        gic_reg_prop[3] = layout.gic_cpui_size;
    }
    fdt.property_u32("#interrupt-cells", board::GIC_FDT_IRQ_NUM_CELLS);
    fdt.property_null("interrupt-controller");
    fdt.property_array_u64("reg", gic_reg_prop.as_slice());
    fdt.property_u32("phandle", board::PHANDLE_GIC);
    fdt.property_u32("#address-cells", 2);
    fdt.property_u32("#size-cells", 2);
    fdt.end_node();
    assert(gic_reg_prop@ =~= gic_reg(*layout, is_gicv3, num_cpus));
    assert(fdt@ =~= old(fdt)@ + gic_node(*layout, is_gicv3, num_cpus));
}

/// The bits of an interrupt that select the CPUs: bits 8 to 15, one for each of
/// the first eight CPUs.
pub open spec fn cpu_bits(num_cpus: u32) -> nat {
    ((if num_cpus < 8 {
        vstd::arithmetic::power2::pow2(num_cpus as nat)
    } else {
        0x100
    }) - 1) as nat * 0x100
}

/// Selects the CPUs that an interrupt goes to.
fn cpu_mask(num_cpus: u32) -> (mask: u32)
    requires
        num_cpus < 32,
    ensures
        mask == cpu_bits(num_cpus),
        mask & 0xff == 0,
{
    assert((1u32 << num_cpus) >= 1) by (bit_vector)
        requires
            num_cpus < 32,
    ;
    let ones: u32 = (1u32 << num_cpus) - 1;
    let mask: u32 = (ones << board::GIC_FDT_IRQ_PPI_CPU_SHIFT) & board::GIC_FDT_IRQ_PPI_CPU_MASK;
    proof {
        assert(num_cpus >= 8 ==> mask == 0xff00) by (bit_vector)
            requires
                num_cpus < 32,
                ones == (1u32 << num_cpus) - 1,
                mask == (ones << 8u32) & 0xff00u32,
        ;
        assert(num_cpus < 8 ==> mask == ones * 0x100) by (bit_vector)
            requires
                num_cpus < 32,
                ones == (1u32 << num_cpus) - 1,
                mask == (ones << 8u32) & 0xff00u32,
        ;
        assert(mask & 0xff == 0) by (bit_vector)
            requires
                mask == (ones << 8u32) & 0xff00u32,
        ;
        if num_cpus < 8 {
            assert(1u32 << num_cpus <= 0x80) by (bit_vector)
                requires
                    num_cpus < 8,
            ;
            vstd::arithmetic::power2::lemma_pow2_strictly_increases(num_cpus as nat, 8);
            vstd::arithmetic::power2::lemma2_to64();
            vstd::bits::lemma_u32_shl_is_mul(1, num_cpus);
        }
    }
    mask
}

/// Of the first eight CPUs, an interrupt selects those that there are, and no
/// other: bit 8 stands for the first CPU.
pub proof fn lemma_cpu_bits(num_cpus: u32, cpu_id: u32)
    requires
        cpu_id < 8,
    ensures
        cpu_bits(num_cpus) <= 0xff00,
        (cpu_bits(num_cpus) as u32 >> (8 + cpu_id) as u32) & 1 == 1 <==> cpu_id < num_cpus,
{
    vstd::arithmetic::power2::lemma2_to64();
    let bits = cpu_bits(num_cpus) as u32;
    let shift = (8 + cpu_id) as u32;
    assert(bits == if num_cpus == 0 {
        0u32
    } else if num_cpus == 1 {
        0x100
    } else if num_cpus == 2 {
        0x300
    } else if num_cpus == 3 {
        0x700
    } else if num_cpus == 4 {
        0xf00
    } else if num_cpus == 5 {
        0x1f00
    } else if num_cpus == 6 {
        0x3f00
    } else if num_cpus == 7 {
        0x7f00
    } else {
        0xff00
    });
    assert((bits >> shift) & 1 == 1 <==> cpu_id < num_cpus) by (bit_vector)
        requires
            cpu_id < 8,
            shift == 8 + cpu_id,
            bits == if num_cpus == 0 {
                0u32
            } else if num_cpus == 1 {
                0x100
            } else if num_cpus == 2 {
                0x300
            } else if num_cpus == 3 {
                0x700
            } else if num_cpus == 4 {
                0xf00
            } else if num_cpus == 5 {
                0x1f00
            } else if num_cpus == 6 {
                0x3f00
            } else if num_cpus == 7 {
                0x7f00
            } else {
                0xff00
            },
    ;
}

/// The cells of an interrupt that each CPU has for itself.
pub open spec fn private_interrupt(irq: u32, num_cpus: u32, irq_type: u32) -> Seq<u32> {
    seq![board::GIC_FDT_IRQ_TYPE_PPI, irq, (cpu_bits(num_cpus) + irq_type) as u32]
}

/// The node of the timer.
pub open spec fn timer_node(num_cpus: u32) -> Seq<Op> {
    nesting::node(
        "timer"@,
        seq![
            Op::PropertyString("compatible"@, "arm,armv8-timer"@),
            Op::PropertyArrayU32(
                "interrupts"@,
                private_interrupt(13, num_cpus, board::IRQ_TYPE_LEVEL_LOW) + private_interrupt(
                    14,
                    num_cpus,
                    board::IRQ_TYPE_LEVEL_LOW,
                ) + private_interrupt(11, num_cpus, board::IRQ_TYPE_LEVEL_LOW) + private_interrupt(
                    10,
                    num_cpus,
                    board::IRQ_TYPE_LEVEL_LOW,
                ),
            ),
            Op::PropertyNull("always-on"@),
        ],
        Seq::empty(),
    )
}

/// Describes the timer.
pub fn create_timer_node(fdt: &mut FdtScript, num_cpus: u32)
    requires
        num_cpus < 32,
    ensures
        final(fdt)@ == old(fdt)@ + timer_node(num_cpus),
{
    // These are fixed interrupt numbers for the timer device.
    let irqs: [u32; 4] = [13, 14, 11, 10];
    let mask = cpu_mask(num_cpus);
    assert(mask | 8 == mask + 8) by (bit_vector)
        requires
            mask & 0xff == 0,
    ;
    let ghost all = timer_node(num_cpus)[2]->PropertyArrayU32_1;

    let mut timer_reg_cells: Vec<u32> = Vec::new();
    for i in 0..4
        invariant
            irqs@ == seq![13u32, 14, 11, 10],
            mask | board::IRQ_TYPE_LEVEL_LOW == cpu_bits(num_cpus) + board::IRQ_TYPE_LEVEL_LOW,
            all.len() == 12,
            all == private_interrupt(13, num_cpus, board::IRQ_TYPE_LEVEL_LOW) + private_interrupt(
                14,
                num_cpus,
                board::IRQ_TYPE_LEVEL_LOW,
            ) + private_interrupt(11, num_cpus, board::IRQ_TYPE_LEVEL_LOW) + private_interrupt(
                10,
                num_cpus,
                board::IRQ_TYPE_LEVEL_LOW,
            ),
            timer_reg_cells@ == all.take(3 * i),
    {
        timer_reg_cells.push(board::GIC_FDT_IRQ_TYPE_PPI);
        timer_reg_cells.push(irqs[i]);
        timer_reg_cells.push(mask | board::IRQ_TYPE_LEVEL_LOW);
        assert(timer_reg_cells@ =~= all.take(3 * (i + 1)));
    }
    assert(timer_reg_cells@ =~= all);

    fdt.begin_node("timer");
    fdt.property_string("compatible", "arm,armv8-timer");
    fdt.property_array_u32("interrupts", timer_reg_cells.as_slice());
    fdt.property_null("always-on");
    fdt.end_node();
    assert(fdt@ =~= old(fdt)@ + timer_node(num_cpus));
}

/// The node of the performance monitoring unit.
pub open spec fn pmu_node(layout: Layout, num_cpus: u32) -> Seq<Op> {
    nesting::node(
        "pmu"@,
        seq![
            Op::PropertyString("compatible"@, "arm,armv8-pmuv3"@),
            Op::PropertyArrayU32(
                "interrupts"@,
                private_interrupt(layout.pmu_irq, num_cpus, board::IRQ_TYPE_LEVEL_HIGH),
            ),
        ],
        Seq::empty(),
    )
}

/// Describes the performance monitoring unit.
pub fn create_pmu_node(fdt: &mut FdtScript, layout: &Layout, num_cpus: u32)
    requires
        num_cpus < 32,
    ensures
        final(fdt)@ == old(fdt)@ + pmu_node(*layout, num_cpus),
{
    let mask = cpu_mask(num_cpus);
    assert(mask | 4 == mask + 4) by (bit_vector)
        requires
            mask & 0xff == 0,
    ;
    let irq: [u32; 3] = [
        board::GIC_FDT_IRQ_TYPE_PPI,
        layout.pmu_irq,
        mask | board::IRQ_TYPE_LEVEL_HIGH,
    ];

    fdt.begin_node("pmu");
    fdt.property_string("compatible", "arm,armv8-pmuv3");
    fdt.property_array_u32("interrupts", irq.as_slice());
    fdt.end_node();
    assert(irq@ =~= private_interrupt(layout.pmu_irq, num_cpus, board::IRQ_TYPE_LEVEL_HIGH));
    assert(fdt@ =~= old(fdt)@ + pmu_node(*layout, num_cpus));
}

} // verus!
