//! A CRT controller register file, used once for MDA and once for CGA: 32
//! indexed byte registers behind an index latch that is masked to 5 bits on
//! every write.

use vstd::prelude::*;

verus! {

/// Number of indexed registers.
pub const CRTC_REG_COUNT: usize = 32;

/// Mathematical state of a controller.
#[verifier::ext_equal]
pub struct CrtcView {
    /// The 5-bit index latch.
    pub index: u8,
    /// The 32 indexed registers.
    pub regs: Seq<u8>,
}

/// A CRT controller register file.
pub struct Crtc {
    index: u8,
    regs: Vec<u8>,
}

impl View for Crtc {
    type V = CrtcView;

    closed spec fn view(&self) -> CrtcView {
        CrtcView { index: self.index, regs: self.regs@ }
    }
}

/// A well-formed controller state: exactly 32 registers, index below 32.
pub open spec fn crtc_wf(v: CrtcView) -> bool {
    v.regs.len() == CRTC_REG_COUNT && v.index < CRTC_REG_COUNT
}

impl Crtc {
    /// There are exactly 32 registers and the index stays below 32.
    pub open spec fn wf(&self) -> bool {
        crtc_wf(self@)
    }

    /// A controller with all registers and the index at zero.
    pub fn new() -> (c: Crtc)
        ensures
            c.wf(),
            c@.index == 0u8,
            forall|i: int| 0 <= i < CRTC_REG_COUNT ==> c@.regs[i] == 0u8,
    {
        let regs: Vec<u8> = vec![0u8; CRTC_REG_COUNT];
        Crtc { index: 0, regs }
    }

    /// Write the index port: the stored index is the written byte masked to
    /// 5 bits.
    pub fn write_index(&mut self, b: u8)
        requires
            old(self).wf(),
        ensures
            final(self).wf(),
            final(self)@ == (CrtcView { index: b & 0x1F, ..old(self)@ }),
    {
        self.index = b & 0x1F;
        proof {
            assert((b & 0x1F) < 32u8) by (bit_vector);
        }
    }

    /// Read the index port back.
    pub fn read_index(&self) -> (r: u8)
        ensures
            r == self@.index,
    {
        self.index
    }

    /// Write the data port: store into the register the index selects.
    pub fn write_data(&mut self, b: u8)
        requires
            old(self).wf(),
        ensures
            final(self).wf(),
            final(self)@ == (CrtcView {
                regs: old(self)@.regs.update(old(self)@.index as int, b),
                ..old(self)@
            }),
    {
        let idx = self.index as usize;
        self.regs.set(idx, b);
    }

    /// Read the data port: the register the index selects.
    pub fn read_data(&self) -> (r: u8)
        requires
            self.wf(),
        ensures
            r == self@.regs[self@.index as int],
    {
        self.regs[self.index as usize]
    }
}

} // verus!
