//! VM setup data: the initial register bank a fresh vCPU is loaded with
//! (CS:IP at the reset vector F000:FFF0, real-mode segments, CR0 bit 4 set)
//! and the two guest-physical mappings of the one memory region.

use vstd::prelude::*;

verus! {

/// Number of registers in the initial bank.
pub const INITIAL_REGISTER_COUNT: usize = 40;

/// One initial register value, in the host service's register-bank order.
#[derive(Clone, Copy, Debug, PartialEq, Eq, Structural)]
#[allow(inconsistent_fields)]
pub enum RegInit {
    /// A 64-bit general, control or debug register.
    Gp(u64),
    /// A segment register.
    Seg {
        /// Segment base address.
        base: u64,
        /// Segment limit.
        limit: u32,
        /// Segment selector.
        selector: u16,
        /// Segment attribute bits.
        attributes: u16,
    },
    /// A descriptor-table register.
    Table {
        /// Table base address.
        base: u64,
        /// Table limit.
        limit: u16,
    },
    /// The floating-point control/status register.
    Fp {
        /// FP control word.
        control: u16,
        /// FP status word.
        status: u16,
        /// FP tag word.
        tag: u8,
    },
}

/// A real-mode data segment: base 0, limit 0xFFFF, attributes 0x93.
pub open spec fn data_segment() -> RegInit {
    RegInit::Seg { base: 0u64, limit: 0xFFFFu32, selector: 0u16, attributes: 0x93u16 }
}

/// The 40-entry initial register bank, in this order: RAX, RCX, RDX, RBX,
/// RSP, RBP, RSI, RDI, R8..R15, RIP, RFLAGS, ES, CS, SS, DS, FS, GS, LDTR,
/// TR, IDTR, GDTR, CR0, CR2, CR3, CR4, DR0..DR3, DR6, DR7, XCR0, FP
/// control/status.
pub fn initial_registers() -> (v: Vec<RegInit>)
    ensures
        v@.len() == INITIAL_REGISTER_COUNT,
        forall|i: int|
            (0 <= i < 4 || i == 5 || i == 6 || i == 7 || (8 <= i < 16)) ==> v@[i] == RegInit::Gp(
                0u64,
            ),
        v@[4] == RegInit::Gp(0xFFF0u64),
        v@[16] == RegInit::Gp(0xFFF0u64),
        v@[17] == RegInit::Gp(0x2u64),
        v@[18] == data_segment(),
        v@[19] == (RegInit::Seg {
            base: 0xF0000u64,
            limit: 0xFFFFu32,
            selector: 0xF000u16,
            attributes: 0x9Bu16,
        }),
        v@[20] == data_segment(),
        v@[21] == data_segment(),
        v@[22] == data_segment(),
        v@[23] == data_segment(),
        v@[24] == (RegInit::Seg {
            base: 0u64,
            limit: 0xFFFFu32,
            selector: 0u16,
            attributes: 0x82u16,
        }),
        v@[25] == (RegInit::Seg {
            base: 0u64,
            limit: 0xFFFFu32,
            selector: 0u16,
            attributes: 0x83u16,
        }),
        v@[26] == (RegInit::Table { base: 0u64, limit: 0xFFFFu16 }),
        v@[27] == (RegInit::Table { base: 0u64, limit: 0xFFFFu16 }),
        v@[28] == RegInit::Gp(0x10u64),
        forall|i: int| 29 <= i < 36 ==> v@[i] == RegInit::Gp(0u64),
        v@[36] == RegInit::Gp(0xFFFF0FF0u64),
        v@[37] == RegInit::Gp(0x400u64),
        v@[38] == RegInit::Gp(1u64),
        v@[39] == (RegInit::Fp { control: 0x40u16, status: 0u16, tag: 0x55u8 }),
{
    let mut v: Vec<RegInit> = Vec::new();
    v.push(RegInit::Gp(0));  // RAX
    v.push(RegInit::Gp(0));  // RCX
    v.push(RegInit::Gp(0));  // RDX
    v.push(RegInit::Gp(0));  // RBX
    v.push(RegInit::Gp(0xFFF0));  // RSP
    v.push(RegInit::Gp(0));  // RBP
    v.push(RegInit::Gp(0));  // RSI
    v.push(RegInit::Gp(0));  // RDI
    v.push(RegInit::Gp(0));  // R8
    v.push(RegInit::Gp(0));  // R9
    v.push(RegInit::Gp(0));  // R10
    v.push(RegInit::Gp(0));  // R11
    v.push(RegInit::Gp(0));  // R12
    v.push(RegInit::Gp(0));  // R13
    v.push(RegInit::Gp(0));  // R14
    v.push(RegInit::Gp(0));  // R15
    v.push(RegInit::Gp(0xFFF0));  // RIP
    v.push(RegInit::Gp(0x2));  // RFLAGS
    v.push(RegInit::Seg { base: 0, limit: 0xFFFF, selector: 0, attributes: 0x93 });  // ES
    v.push(RegInit::Seg { base: 0xF0000, limit: 0xFFFF, selector: 0xF000, attributes: 0x9B });  // CS
    v.push(RegInit::Seg { base: 0, limit: 0xFFFF, selector: 0, attributes: 0x93 });  // SS
    v.push(RegInit::Seg { base: 0, limit: 0xFFFF, selector: 0, attributes: 0x93 });  // DS
    v.push(RegInit::Seg { base: 0, limit: 0xFFFF, selector: 0, attributes: 0x93 });  // FS
    v.push(RegInit::Seg { base: 0, limit: 0xFFFF, selector: 0, attributes: 0x93 });  // GS
    v.push(RegInit::Seg { base: 0, limit: 0xFFFF, selector: 0, attributes: 0x82 });  // LDTR
    v.push(RegInit::Seg { base: 0, limit: 0xFFFF, selector: 0, attributes: 0x83 });  // TR
    v.push(RegInit::Table { base: 0, limit: 0xFFFF });  // IDTR
    v.push(RegInit::Table { base: 0, limit: 0xFFFF });  // GDTR
    v.push(RegInit::Gp(0x10));  // CR0
    v.push(RegInit::Gp(0));  // CR2
    v.push(RegInit::Gp(0));  // CR3
    v.push(RegInit::Gp(0));  // CR4
    v.push(RegInit::Gp(0));  // DR0
    v.push(RegInit::Gp(0));  // DR1
    v.push(RegInit::Gp(0));  // DR2
    v.push(RegInit::Gp(0));  // DR3
    v.push(RegInit::Gp(0xFFFF0FF0));  // DR6
    v.push(RegInit::Gp(0x400));  // DR7
    v.push(RegInit::Gp(1));  // XCR0
    v.push(RegInit::Fp { control: 0x40, status: 0, tag: 0x55 });  // FP control/status
    v
}

/// The two guest-physical mappings of the one host memory region: the
/// identity window and the redundant high mirror directly above it, each
/// `memory_size` bytes.
pub fn guest_memory_mappings(memory_size: u64) -> (v: Vec<(u64, u64)>)
    requires
        memory_size <= u64::MAX / 2,
    ensures
        v@.len() == 2,
        v@[0] == (0u64, memory_size),
        v@[1] == (memory_size, memory_size),
{
    let mut v: Vec<(u64, u64)> = Vec::new();
    v.push((0, memory_size));
    v.push((memory_size, memory_size));
    v
}

} // verus!
