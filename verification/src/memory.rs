//! Guest memory and the parts of it that are reserved.

use vstd::prelude::*;

use crate::board;
use crate::board::Layout;
use crate::nesting;
use crate::platform;
use crate::platform::{Passthrough, PlatformInfo};
use crate::script::{FdtScript, Op};

verus! {

/// Where guest memory starts.
pub open spec fn mem_start(layout: Layout, second_vm: bool) -> u64 {
    if second_vm {
        layout.phys_mem_start_second
    } else {
        layout.phys_mem_start
    }
}

/// The node of guest memory.
pub open spec fn memory_node(layout: Layout, mem_size: u64, second_vm: bool) -> Seq<Op> {
    nesting::node(
        "memory"@,
        seq![
            Op::PropertyString("device_type"@, "memory"@),
            Op::PropertyArrayU64("reg"@, seq![mem_start(layout, second_vm), mem_size]),
        ],
        Seq::empty(),
    )
}

/// Describes guest memory of `mem_size` bytes.
pub fn create_memory_node(fdt: &mut FdtScript, layout: &Layout, mem_size: u64, second_vm: bool)
    ensures
        final(fdt)@ == old(fdt)@ + memory_node(*layout, mem_size, second_vm),
{
    let mem_reg_prop: [u64; 2] = if second_vm {
        [layout.phys_mem_start_second, mem_size]
    } else {
        [layout.phys_mem_start, mem_size]
    };

    fdt.begin_node("memory");
    fdt.property_string("device_type", "memory");
    fdt.property_array_u64("reg", mem_reg_prop.as_slice());
    fdt.end_node();
    assert(mem_reg_prop@ =~= seq![mem_start(*layout, second_vm), mem_size]);
    assert(fdt@ =~= old(fdt)@ + memory_node(*layout, mem_size, second_vm));
}

/// The pool that DMA is restricted to, where one of `swiotlb_size` bytes is
/// asked for.
pub open spec fn dma_pool(swiotlb_size: Option<u64>, page_size: u64) -> Seq<Op> {
    match swiotlb_size {
        Some(size) => nesting::node(
            "restricted_dma_reserved"@,
            seq![
                Op::PropertyU32("phandle"@, board::PHANDLE_RESTRICTED_DMA_POOL),
                Op::PropertyString("compatible"@, "restricted-dma-pool"@),
                Op::PropertyU64("size"@, size),
                Op::PropertyU64("alignment"@, page_size),
            ],
            Seq::empty(),
        ),
        None => Seq::empty(),
    }
}

/// The memory through which inference jobs are exchanged.
pub open spec fn inference_io(layout: Layout, second_vm: bool) -> Seq<Op> {
    nesting::node(
        "inference_io_reserved"@,
        seq![
            Op::PropertyString("compatible"@, "inference-io-memory"@),
            Op::PropertyArrayU64(
                "reg"@,
                seq![
                    if second_vm {
                        layout.inference_io_mem_start_second
                    } else {
                        layout.inference_io_mem_start
                    },
                    layout.inference_io_mem_max_size,
                    0,
                    0,
                ],
            ),
        ],
        Seq::empty(),
    )
}

/// The memory of an Edge TPU's firmware. Its addresses are invalid on purpose.
pub open spec fn tpu_firmware(device: Option<Passthrough>) -> Seq<Op> {
    if device == Some(Passthrough::Edgetpu) {
        nesting::node(
            "tpu_fw"@,
            seq![
                Op::PropertyArrayU64("reg"@, seq![0, 0x1000000, 0, 0]),
                Op::PropertyU32("phandle"@, board::PHANDLE_EDGETPU_TPU_FW),
            ],
            Seq::empty(),
        )
    } else {
        Seq::empty()
    }
}

/// The node of reserved memory.
pub open spec fn resv_memory_node(
    layout: Layout,
    swiotlb_size: Option<u64>,
    page_size: u64,
    device: Option<Passthrough>,
    second_vm: bool,
) -> Seq<Op> {
    nesting::node(
        "reserved-memory"@,
        seq![
            Op::PropertyU32("#address-cells"@, 2),
            Op::PropertyU32("#size-cells"@, 2),
            Op::PropertyNull("ranges"@),
        ],
        dma_pool(swiotlb_size, page_size) + inference_io(layout, second_vm) + tpu_firmware(device),
    )
}

/// What refers to the pool that DMA is restricted to.
pub open spec fn dma_pool_phandle(swiotlb_size: Option<u64>) -> Option<u32> {
    if swiotlb_size is Some {
        Some(board::PHANDLE_RESTRICTED_DMA_POOL)
    } else {
        None
    }
}

fn create_dma_pool(fdt: &mut FdtScript, swiotlb_size: Option<u64>, page_size: u64)
    ensures
        final(fdt)@ == old(fdt)@ + dma_pool(swiotlb_size, page_size),
{
    if let Some(size) = swiotlb_size {
        fdt.begin_node("restricted_dma_reserved");
        fdt.property_u32("phandle", board::PHANDLE_RESTRICTED_DMA_POOL);
        fdt.property_string("compatible", "restricted-dma-pool");
        fdt.property_u64("size", size);
        fdt.property_u64("alignment", page_size);
        fdt.end_node();
    }
    assert(fdt@ =~= old(fdt)@ + dma_pool(swiotlb_size, page_size));
}

fn create_inference_io(fdt: &mut FdtScript, layout: &Layout, second_vm: bool)
    ensures
        final(fdt)@ == old(fdt)@ + inference_io(*layout, second_vm),
{
    let start = if second_vm {
        layout.inference_io_mem_start_second
    } else {
        layout.inference_io_mem_start
    };
    let reg: [u64; 4] = [start, layout.inference_io_mem_max_size, 0x0, 0x0];
    fdt.begin_node("inference_io_reserved");
    fdt.property_string("compatible", "inference-io-memory");
    fdt.property_array_u64("reg", reg.as_slice());
    fdt.end_node();
    assert(reg@ =~= seq![start, layout.inference_io_mem_max_size, 0, 0]);
    assert(fdt@ =~= old(fdt)@ + inference_io(*layout, second_vm));
}

fn create_tpu_firmware(fdt: &mut FdtScript, device: Option<Passthrough>)
    ensures
        final(fdt)@ == old(fdt)@ + tpu_firmware(device),
{
    if let Some(Passthrough::Edgetpu) = device {
        let reg: [u64; 4] = [0x0, 0x1000000, 0x0, 0x0];
        fdt.begin_node("tpu_fw");
        fdt.property_array_u64("reg", reg.as_slice());
        fdt.property_u32("phandle", board::PHANDLE_EDGETPU_TPU_FW);
        fdt.end_node();
        assert(reg@ =~= seq![0, 0x1000000, 0, 0]);
    }
    assert(fdt@ =~= old(fdt)@ + tpu_firmware(device));
}

/// Describes reserved memory, and returns what refers to the pool that DMA is
/// restricted to, where one of `swiotlb_size` bytes is asked for.
///
/// `page_size` is the size of the host's pages.
pub fn create_resv_memory_node(
    fdt: &mut FdtScript,
    layout: &Layout,
    swiotlb_size: Option<u64>,
    page_size: u64,
    platform_info: &Vec<PlatformInfo>,
    second_vm: bool,
) -> (phandle: Option<u32>)
    ensures
        final(fdt)@ == old(fdt)@ + resv_memory_node(
            *layout,
            swiotlb_size,
            page_size,
            platform::platform_device(platform_info@),
            second_vm,
        ),
        phandle == dma_pool_phandle(swiotlb_size),
{
    let device = platform::find_platform_device(platform_info);

    fdt.begin_node("reserved-memory");
    fdt.property_u32("#address-cells", 0x2);
    fdt.property_u32("#size-cells", 0x2);
    fdt.property_null("ranges");
    create_dma_pool(fdt, swiotlb_size, page_size);
    create_inference_io(fdt, layout, second_vm);
    create_tpu_firmware(fdt, device);
    fdt.end_node();
    assert(fdt@ =~= old(fdt)@ + resv_memory_node(
        *layout,
        swiotlb_size,
        page_size,
        device,
        second_vm,
    ));

    if swiotlb_size.is_some() {
        Some(board::PHANDLE_RESTRICTED_DMA_POOL)
    } else {
        None
    }
}

} // verus!
