//! What the boot loader hands to the kernel.

use vstd::prelude::*;

use crate::board;
use crate::board::{Error, Layout};
use crate::nesting;
use crate::script::{FdtScript, Op};
use crate::text;

verus! {

/// Random bytes for the kernel, where they could be read.
#[derive(Debug, Clone, Copy)]
pub struct Seeds {
    /// Where the kernel is placed.
    pub kaslr_seed: Option<[u8; 8]>,
    /// What the kernel's generator of random numbers starts from.
    pub rng_seed: Option<[u8; 256]>,
}

/// The number whose bytes are `bytes`, the lowest first.
pub open spec fn from_le_bytes(bytes: Seq<u8>) -> nat
    decreases bytes.len(),
{
    if bytes.len() == 0 {
        0
    } else {
        bytes[0] as nat + 0x100 * from_le_bytes(bytes.skip(1))
    }
}

/// Where the initial RAM disk starts and ends, in cells.
pub open spec fn initrd_properties(initrd: Option<(u64, usize)>) -> Seq<Op> {
    match initrd {
        Some((addr, size)) => seq![
            Op::PropertyU32("linux,initrd-start"@, (addr as nat % 0x1_0000_0000) as u32),
            Op::PropertyU32(
                "linux,initrd-end"@,
                (addr as nat % 0x1_0000_0000 + size as nat % 0x1_0000_0000) as u32,
            ),
        ],
        None => Seq::empty(),
    }
}

/// The end of the initial RAM disk fits a cell.
pub open spec fn initrd_fits(initrd: Option<(u64, usize)>) -> bool {
    initrd matches Some((addr, size)) ==> addr as nat % 0x1_0000_0000 + size as nat % 0x1_0000_0000
        <= u32::MAX
}

/// Whether the end of the initial RAM disk fits a cell.
pub fn check_initrd(initrd: Option<(u64, usize)>) -> (result: bool)
    ensures
        result == initrd_fits(initrd),
{
    match initrd {
        Some((addr, size)) => {
            addr % 0x1_0000_0000 + (size as u64) % 0x1_0000_0000 <= u32::MAX as u64
        },
        None => true,
    }
}

/// The properties that come before the random bytes.
pub open spec fn boot_properties(layout: Layout, cmdline: Seq<char>) -> Seq<Op> {
    seq![
        Op::PropertyU32("linux,pci-probe-only"@, 1),
        Op::PropertyString("bootargs"@, cmdline),
        Op::PropertyString(
            "stdout-path"@,
            "/U6_16550A@"@ + text::hex(layout.serial_addr[0] as nat),
        ),
    ]
}

/// What is written for the kernel, and the error that stops the work.
pub open spec fn chosen_node(
    layout: Layout,
    cmdline: Seq<char>,
    seeds: Seeds,
    initrd: Option<(u64, usize)>,
) -> (Seq<Op>, Option<Error>) {
    let begin = seq![Op::BeginNode("chosen"@)];
    let boot = boot_properties(layout, cmdline);
    match (seeds.kaslr_seed, seeds.rng_seed) {
        (None, _) => (begin + boot, Some(Error::FdtIoError)),
        (Some(kaslr_seed), None) => (
            (begin + boot).push(
                Op::PropertyU64("kaslr-seed"@, from_le_bytes(kaslr_seed@) as u64),
            ),
            Some(Error::FdtIoError),
        ),
        (Some(kaslr_seed), Some(rng_seed)) => (
            nesting::node(
                "chosen"@,
                boot + seq![
                    Op::PropertyU64("kaslr-seed"@, from_le_bytes(kaslr_seed@) as u64),
                    Op::Property("rng-seed"@, rng_seed@),
                ] + initrd_properties(initrd),
                Seq::empty(),
            ),
            None,
        ),
    }
}

/// Eight bytes as a number, the lowest first.
fn u64_from_le_bytes(bytes: &[u8; 8]) -> (number: u64)
    ensures
        number == from_le_bytes(bytes@),
{
    let mut number: u64 = 0;
    let mut i: usize = 8;
    proof {
        vstd::arithmetic::power2::lemma2_to64();
    }
    while i > 0
        invariant
            i <= 8,
            number == from_le_bytes(bytes@.skip(i as int)),
            number < vstd::arithmetic::power2::pow2((64 - 8 * i) as nat),
        decreases i,
    {
        i -= 1;
        proof {
            let bits = (56 - 8 * i) as nat;
            vstd::arithmetic::power2::lemma_pow2_adds(8, bits);
            vstd::arithmetic::power2::lemma2_to64();
            if bits < 56 {
                vstd::arithmetic::power2::lemma_pow2_strictly_increases(bits, 56);
            }
            vstd::arithmetic::power2::lemma2_to64_rest();
            assert(bytes@.skip(i as int).skip(1) =~= bytes@.skip(i + 1));
        }
        number = bytes[i] as u64 + 0x100 * number;
    }
    assert(bytes@.skip(0) =~= bytes@);
    number
}

/// Tells the kernel its command line, its console, where its initial RAM disk
/// is, and hands it random bytes.
///
/// `initrd` is the address and the size of the RAM disk.
pub fn create_chosen_node(
    fdt: &mut FdtScript,
    layout: &Layout,
    cmdline: &str,
    seeds: &Seeds,
    initrd: Option<(u64, usize)>,
) -> (result: Result<(), Error>)
    requires
        seeds.kaslr_seed is Some && seeds.rng_seed is Some ==> initrd_fits(initrd),
    ensures
        ({
            let (ops, error) = chosen_node(*layout, cmdline@, *seeds, initrd);
            final(fdt)@ == old(fdt)@ + ops && board::reports(result, error)
        }),
{
    let ghost start = fdt@;
    let ghost begin = seq![Op::BeginNode("chosen"@)];
    let ghost boot = boot_properties(*layout, cmdline@);
    fdt.begin_node("chosen");
    fdt.property_u32("linux,pci-probe-only", 1);
    fdt.property_string("bootargs", cmdline);
    // Used by android bootloader for boot console output
    let console = text::hex_name("/U6_16550A@", layout.serial_addr[0]);
    fdt.property_string("stdout-path", console.as_str());
    assert(fdt@ =~= start + (begin + boot));

    let kaslr_seed = match &seeds.kaslr_seed {
        None => {
            return Err(Error::FdtIoError);
        },
        Some(bytes) => u64_from_le_bytes(bytes),
    };
    fdt.property_u64("kaslr-seed", kaslr_seed);
    assert(fdt@ =~= start + (begin + boot).push(Op::PropertyU64("kaslr-seed"@, kaslr_seed)));

    match &seeds.rng_seed {
        None => {
            return Err(Error::FdtIoError);
        },
        Some(bytes) => {
            fdt.property("rng-seed", bytes.as_slice());
        },
    }

    if let Some((initrd_addr, initrd_size)) = initrd {
        assert(initrd_addr as u32 == initrd_addr % 0x1_0000_0000) by (bit_vector);
        assert(initrd_size as u32 == (initrd_size as u64) % 0x1_0000_0000) by (bit_vector);
        #[verifier::truncate]
        let initrd_start = initrd_addr as u32;
        #[verifier::truncate]
        let initrd_len = initrd_size as u32;
        let initrd_end = initrd_start + initrd_len;
        fdt.property_u32("linux,initrd-start", initrd_start);
        fdt.property_u32("linux,initrd-end", initrd_end);
    }
    fdt.end_node();
    assert(fdt@ =~= start + chosen_node(*layout, cmdline@, *seeds, initrd).0);
    Ok(())
}

} // verus!
