//! The remaining legacy device state: single-byte latches for the PIC, DMA,
//! FDC, video-mode and parallel/serial stub ports, the eight DMA channel
//! bytes, the system-control register with its speaker gate, and the
//! memory-size nibble read through the system port C.

use vstd::prelude::*;
use crate::pit::effective;

verus! {

/// Conventional RAM size reported through system port C, in KiB.
pub const GUEST_RAM_KB: usize = 640;

/// The memory-size nibble pair for 640 KiB: (640 - 64) / 32.
pub const MEM_NIBBLE: u8 = 18;

/// How long a triggered beep lasts, in milliseconds.
pub const BEEP_DURATION_MS: u32 = 300;

/// Number of DMA channel byte latches (ports 0x00..0x07).
pub const DMA_CHANNEL_COUNT: usize = 8;

/// Mathematical state of the latches.
#[verifier::ext_equal]
pub struct LatchesView {
    /// System control register (port 0x61).
    pub sys_ctrl: u8,
    /// PIC master interrupt mask register.
    pub pic_master_imr: u8,
    /// PIC slave interrupt mask register.
    pub pic_slave_imr: u8,
    /// CGA mode register (port 0x3D8).
    pub cga_mode: u8,
    /// MDA mode register (port 0x3B8).
    pub mda_mode: u8,
    /// CGA attribute byte (port 0x3D9).
    pub attr_cga: u8,
    /// MDA attribute byte (port 0x3B9).
    pub attr_mda: u8,
    /// DMA temporary register.
    pub dma_temp: u8,
    /// DMA mode register.
    pub dma_mode: u8,
    /// DMA mask register.
    pub dma_mask: u8,
    /// DMA clear register.
    pub dma_clear: u8,
    /// DMA page register of channel 1.
    pub dma_page1: u8,
    /// FDC digital output register.
    pub fdc_dor: u8,
    /// FDC status register.
    pub fdc_status: u8,
    /// FDC data register.
    pub fdc_data: u8,
    /// Game port stub (0x201).
    pub port_0201: u8,
    /// Stub latch (0x210).
    pub port_0210: u8,
    /// Parallel port stub (0x278).
    pub port_0278: u8,
    /// Serial port stub (0x2FA).
    pub port_02fa: u8,
    /// Parallel port stub (0x378).
    pub port_0378: u8,
    /// Parallel port stub (0x3BC).
    pub port_03bc: u8,
    /// Serial port stub (0x3FA).
    pub port_03fa: u8,
    /// The eight DMA channel bytes (ports 0x00..0x07).
    pub dma_chan: Seq<u8>,
}

/// The device latches.
pub struct Latches {
    /// System control register (port 0x61).
    pub sys_ctrl: u8,
    /// PIC master interrupt mask register.
    pub pic_master_imr: u8,
    /// PIC slave interrupt mask register.
    pub pic_slave_imr: u8,
    /// CGA mode register (port 0x3D8).
    pub cga_mode: u8,
    /// MDA mode register (port 0x3B8).
    pub mda_mode: u8,
    /// CGA attribute byte (port 0x3D9).
    pub attr_cga: u8,
    /// MDA attribute byte (port 0x3B9).
    pub attr_mda: u8,
    /// DMA temporary register.
    pub dma_temp: u8,
    /// DMA mode register.
    pub dma_mode: u8,
    /// DMA mask register.
    pub dma_mask: u8,
    /// DMA clear register.
    pub dma_clear: u8,
    /// DMA page register of channel 1.
    pub dma_page1: u8,
    /// FDC digital output register.
    pub fdc_dor: u8,
    /// FDC status register.
    pub fdc_status: u8,
    /// FDC data register.
    pub fdc_data: u8,
    /// Game port stub (0x201).
    pub port_0201: u8,
    /// Stub latch (0x210).
    pub port_0210: u8,
    /// Parallel port stub (0x278).
    pub port_0278: u8,
    /// Serial port stub (0x2FA).
    pub port_02fa: u8,
    /// Parallel port stub (0x378).
    pub port_0378: u8,
    /// Parallel port stub (0x3BC).
    pub port_03bc: u8,
    /// Serial port stub (0x3FA).
    pub port_03fa: u8,
    /// The eight DMA channel bytes (ports 0x00..0x07).
    pub dma_chan: Vec<u8>,
}

impl View for Latches {
    type V = LatchesView;

    open spec fn view(&self) -> LatchesView {
        LatchesView {
            sys_ctrl: self.sys_ctrl,
            pic_master_imr: self.pic_master_imr,
            pic_slave_imr: self.pic_slave_imr,
            cga_mode: self.cga_mode,
            mda_mode: self.mda_mode,
            attr_cga: self.attr_cga,
            attr_mda: self.attr_mda,
            dma_temp: self.dma_temp,
            dma_mode: self.dma_mode,
            dma_mask: self.dma_mask,
            dma_clear: self.dma_clear,
            dma_page1: self.dma_page1,
            fdc_dor: self.fdc_dor,
            fdc_status: self.fdc_status,
            fdc_data: self.fdc_data,
            port_0201: self.port_0201,
            port_0210: self.port_0210,
            port_0278: self.port_0278,
            port_02fa: self.port_02fa,
            port_0378: self.port_0378,
            port_03bc: self.port_03bc,
            port_03fa: self.port_03fa,
            dma_chan: self.dma_chan@,
        }
    }
}

/// A well-formed latch state: the eight DMA channel latches are present.
pub open spec fn latches_wf(v: LatchesView) -> bool {
    v.dma_chan.len() == DMA_CHANNEL_COUNT
}

impl Latches {
    /// The eight DMA channel latches are present.
    pub open spec fn wf(&self) -> bool {
        latches_wf(self@)
    }

    /// All latches zero, as at power-on.
    pub fn new() -> (l: Latches)
        ensures
            l.wf(),
            l@.sys_ctrl == 0u8,
            l@.pic_master_imr == 0u8,
            l@.pic_slave_imr == 0u8,
            l@.cga_mode == 0u8,
            l@.mda_mode == 0u8,
            l@.attr_cga == 0u8,
            l@.attr_mda == 0u8,
            l@.dma_temp == 0u8,
            l@.dma_mode == 0u8,
            l@.dma_mask == 0u8,
            l@.dma_clear == 0u8,
            l@.dma_page1 == 0u8,
            l@.fdc_dor == 0u8,
            l@.fdc_status == 0u8,
            l@.fdc_data == 0u8,
            l@.port_0201 == 0u8,
            l@.port_0210 == 0u8,
            l@.port_0278 == 0u8,
            l@.port_02fa == 0u8,
            l@.port_0378 == 0u8,
            l@.port_03bc == 0u8,
            l@.port_03fa == 0u8,
            forall|i: int| 0 <= i < DMA_CHANNEL_COUNT ==> l@.dma_chan[i] == 0u8,
    {
        let dma_chan: Vec<u8> = vec![0u8; DMA_CHANNEL_COUNT];
        Latches {
            sys_ctrl: 0,
            pic_master_imr: 0,
            pic_slave_imr: 0,
            cga_mode: 0,
            mda_mode: 0,
            attr_cga: 0,
            attr_mda: 0,
            dma_temp: 0,
            dma_mode: 0,
            dma_mask: 0,
            dma_clear: 0,
            dma_page1: 0,
            fdc_dor: 0,
            fdc_status: 0,
            fdc_data: 0,
            port_0201: 0,
            port_0210: 0,
            port_0278: 0,
            port_02fa: 0,
            port_0378: 0,
            port_03bc: 0,
            port_03fa: 0,
            dma_chan,
        }
    }
}

/// Whether the two speaker-gate bits of the system control register are both
/// set.
pub open spec fn speaker_gate_on(sys_ctrl: u8) -> bool {
    sys_ctrl & 0x03 == 0x03
}

/// The byte read from system port C: the memory-size nibble selected by
/// control bit 2 (set selects the low nibble), with bit 5 mirrored from
/// control bit 1.
pub open spec fn sys_portc_spec(sys_ctrl: u8) -> u8 {
    let nibble: u8 = if sys_ctrl & 0x04 != 0 {
        MEM_NIBBLE & 0x0F
    } else {
        (MEM_NIBBLE >> 4) & 0x0F
    };
    if sys_ctrl & 0x02 != 0 {
        nibble | 0x20
    } else {
        nibble
    }
}

/// Read system port C under the given system control register.
pub fn sys_portc_value(sys_ctrl: u8) -> (r: u8)
    ensures
        r == sys_portc_spec(sys_ctrl),
{
    let nibble: u8 = if sys_ctrl & 0x04 != 0 {
        MEM_NIBBLE & 0x0F
    } else {
        (MEM_NIBBLE >> 4) & 0x0F
    };
    if sys_ctrl & 0x02 != 0 {
        nibble | 0x20
    } else {
        nibble
    }
}

/// The beep frequency the speaker produces for a PIT channel 2 reload
/// value: the input clock divided by the effective reload.
pub open spec fn beep_freq_spec(reload: u16) -> int {
    1_193_182int / effective(reload)
}

/// Compute the beep frequency for a channel 2 reload value.
pub fn beep_frequency(reload: u16) -> (f: u32)
    ensures
        f == beep_freq_spec(reload),
{
    let divisor: u32 = if reload == 0 {
        0x10000
    } else {
        reload as u32
    };
    1_193_182u32 / divisor
}

/// The tracker that ends the process on a second consecutive access to the
/// same unrecognized port.
#[derive(Clone, Copy, Debug, PartialEq, Eq, Structural)]
pub struct PortTracker {
    /// The last unrecognized port seen.
    pub last_port: u16,
    /// How many consecutive accesses hit that port.
    pub count: u32,
}

/// The tracker after noting an access to unrecognized port `port`.
pub open spec fn tracker_noted(t: PortTracker, port: u16) -> PortTracker {
    if port == t.last_port && t.count > 0 {
        PortTracker {
            last_port: port,
            count: if t.count >= 2 {
                t.count
            } else {
                (t.count + 1) as u32
            },
        }
    } else {
        PortTracker { last_port: port, count: 1u32 }
    }
}

/// Whether an access that produced tracker state `t` must end the process.
pub open spec fn tracker_fatal(t: PortTracker) -> bool {
    t.count >= 2
}

impl PortTracker {
    /// A tracker that has seen nothing.
    pub fn new() -> (t: PortTracker)
        ensures
            t == (PortTracker { last_port: 0u16, count: 0u32 }),
    {
        PortTracker { last_port: 0, count: 0 }
    }

    /// Note an access to unrecognized port `port`; true when this is the
    /// second consecutive access to it and the process must terminate.
    pub fn note(&mut self, port: u16) -> (fatal: bool)
        ensures
            *final(self) == tracker_noted(*old(self), port),
            fatal == tracker_fatal(tracker_noted(*old(self), port)),
    {
        if port == self.last_port && self.count > 0 {
            if self.count < 2 {
                self.count = self.count + 1;
            }
        } else {
            self.last_port = port;
            self.count = 1;
        }
        self.count >= 2
    }
}

} // verus!
