//! The port-I/O dispatcher: one machine value owning every emulated device,
//! and the IN/OUT transition that the host instruction emulator drives.
//! Before every dispatch the PIT is advanced to the caller's monotonic
//! clock; the port number then selects the device behavior.

use vstd::prelude::*;
use vstd::arithmetic::div_mod::{lemma_add_mod_noop, lemma_mod_bound, lemma_small_mod};
use crate::cga::{cga_wf, status_polled, sync_spec, words_from_bytes, CgaStatus, CgaStatusView, CgaText, CgaView, CGA_BLANK_CELL, CGA_CELLS, CGA_RAM_BASE};
use crate::crtc::{crtc_wf, Crtc, CrtcView, CRTC_REG_COUNT};
use crate::devices::{
    beep_freq_spec,
    beep_frequency,
    latches_wf,
    speaker_gate_on,
    sys_portc_spec,
    sys_portc_value,
    tracker_fatal,
    tracker_noted,
    Latches,
    LatchesView,
    PortTracker,
    DMA_CHANNEL_COUNT,
};
use crate::disk::{disk_wf, disk_written, DiskImage, DiskView, DISK_IMAGE_SIZE};
use crate::mem::GuestMemory;
use crate::pit::{
    channel_after_read,
    channel_after_write,
    pit_advanced,
    pit_after_control,
    pit_wf,
    read_value,
    reset_channel,
    Pit,
    PitView,
};

verus! {

/// What an IN dispatch asks of its caller.
#[derive(Clone, Copy, Debug, PartialEq, Eq, Structural)]
pub enum PortInResult {
    /// The access completed; the value goes back to the emulator.
    Value(u32),
    /// The keyboard data port: the caller must read the requested number of
    /// bytes from its input stream and assemble them.
    Keyboard,
    /// First access to an unrecognized port: report it unimplemented.
    Unimplemented,
    /// Second consecutive access to the same unrecognized port: the process
    /// must end with exit code 1.
    Terminate,
}

/// What an OUT dispatch asks of its caller.
#[derive(Clone, Copy, Debug, PartialEq, Eq, Structural)]
pub enum PortOutResult {
    /// The write was absorbed.
    Done,
    /// The write was absorbed and the speaker gate rose: emit a beep of the
    /// given frequency in Hz.
    Beep(u32),
    /// First access to an unrecognized port: report it unimplemented.
    Unimplemented,
    /// Second consecutive access to the same unrecognized port: the process
    /// must end with exit code 1.
    Terminate,
}

/// The port access sizes the host emulator produces.
pub open spec fn valid_access_size(size: u8) -> bool {
    size == 1 || size == 2 || size == 4
}

/// Whether the dispatcher recognizes a port (same set for IN and OUT).
pub open spec fn recognized_port(port: u16) -> bool {
    port <= 0x08 || port == 0x0A || port == 0x0B || port == 0x0C || port == 0x0D || port == 0x20
        || port == 0x21 || port == 0x40 || port == 0x41 || port == 0x42 || port == 0x43 || port
        == 0x60 || port == 0x61 || port == 0x62 || port == 0x63 || port == 0x64 || port == 0x80
        || port == 0x81 || port == 0x83 || port == 0xA0 || port == 0xA1 || port == 0xB8 || port
        == 0xFF || port == 0x201 || port == 0x210 || port == 0x213 || port == 0x278 || port
        == 0x2FA || port == 0x378 || port == 0x3B4 || port == 0x3B5 || port == 0x3B8 || port
        == 0x3B9 || port == 0x3BC || port == 0x3D4 || port == 0x3D5 || port == 0x3D8 || port
        == 0x3D9 || port == 0x3DA || port == 0x3F2 || port == 0x3F4 || port == 0x3F5 || port
        == 0x3FA
}

/// The little-endian value of up to four bytes.
pub open spec fn le4(s: Seq<u8>) -> int {
    le4_byte(s, 0) + 256 * le4_byte(s, 1) + 65536 * le4_byte(s, 2) + 16777216 * le4_byte(s, 3)
}

/// One byte position of `le4`, 0 past the end.
pub open spec fn le4_byte(s: Seq<u8>, j: int) -> int {
    if 0 <= j < s.len() {
        s[j] as int
    } else {
        0
    }
}

/// The image byte that the `j`-th of a run of disk reads returns, 0 past
/// `size`.
pub open spec fn disk_byte(v: DiskView, j: int, size: u8) -> int {
    if 0 <= j < size {
        v.data[(v.offset + j) % (DISK_IMAGE_SIZE as int)] as int
    } else {
        0
    }
}

/// The value an IN from the disk port of the given access size returns:
/// consecutive image bytes assembled little-endian.
pub open spec fn disk_in_value(v: DiskView, size: u8) -> int {
    disk_byte(v, 0, size) + 256 * disk_byte(v, 1, size) + 65536 * disk_byte(v, 2, size) + 16777216
        * disk_byte(v, 3, size)
}

/// The disk after a run of `size` reads: contents kept, offset advanced.
pub open spec fn disk_after_in(v: DiskView, size: u8) -> DiskView {
    DiskView { data: v.data, offset: (v.offset + size) % (DISK_IMAGE_SIZE as int) }
}

/// The disk after an OUT of the given access size: the low-order bytes of
/// `data` written in order at the rolling offset.
pub open spec fn disk_after_out(v: DiskView, data: u32, size: u8) -> DiskView {
    if size == 1 {
        disk_written(v, data as u8)
    } else if size == 2 {
        disk_written(disk_written(v, data as u8), (data >> 8) as u8)
    } else {
        disk_written(
            disk_written(disk_written(disk_written(v, data as u8), (data >> 8) as u8), (data
                >> 16) as u8),
            (data >> 24) as u8,
        )
    }
}

/// Mathematical state of the whole machine.
#[verifier::ext_equal]
pub struct MachineView {
    /// The interval timer.
    pub pit: PitView,
    /// The CGA text buffer, shadow and cursor.
    pub cga: CgaView,
    /// The CGA status register and retrace clock.
    pub status: CgaStatusView,
    /// The MDA CRT controller.
    pub crtc_mda: CrtcView,
    /// The CGA CRT controller.
    pub crtc_cga: CrtcView,
    /// The byte latches of the remaining devices.
    pub dev: LatchesView,
    /// The disk image.
    pub disk: DiskView,
    /// The unknown-port tracker.
    pub tracker: PortTracker,
    /// Whether the speaker gate was on after the last write to the system
    /// control register.
    pub speaker_on: bool,
}

/// A well-formed machine state.
pub open spec fn machine_wf(m: MachineView) -> bool {
    pit_wf(m.pit) && cga_wf(m.cga) && crtc_wf(m.crtc_mda) && crtc_wf(m.crtc_cga) && latches_wf(
        m.dev,
    ) && disk_wf(m.disk)
}

/// The machine with its timer advanced to `now`, as every dispatch begins.
pub open spec fn machine_advanced(m: MachineView, now: u64) -> MachineView {
    MachineView { pit: pit_advanced(m.pit, now), ..m }
}

/// The machine at power-on.
pub open spec fn initial_machine() -> MachineView {
    MachineView {
        pit: PitView {
            channels: seq![reset_channel(), reset_channel(), reset_channel()],
            control: 0u8,
            last_update: None,
            carry: 0u64,
        },
        cga: CgaView {
            cells: Seq::new(CGA_CELLS as nat, |i: int| CGA_BLANK_CELL),
            shadow: Seq::new(CGA_CELLS as nat, |i: int| CGA_BLANK_CELL),
            cursor: 0,
        },
        status: CgaStatusView { status: 0u8, last_toggle: None },
        crtc_mda: CrtcView { index: 0u8, regs: Seq::new(CRTC_REG_COUNT as nat, |i: int| 0u8) },
        crtc_cga: CrtcView { index: 0u8, regs: Seq::new(CRTC_REG_COUNT as nat, |i: int| 0u8) },
        dev: LatchesView {
            sys_ctrl: 0u8,
            pic_master_imr: 0u8,
            pic_slave_imr: 0u8,
            cga_mode: 0u8,
            mda_mode: 0u8,
            attr_cga: 0u8,
            attr_mda: 0u8,
            dma_temp: 0u8,
            dma_mode: 0u8,
            dma_mask: 0u8,
            dma_clear: 0u8,
            dma_page1: 0u8,
            fdc_dor: 0u8,
            fdc_status: 0u8,
            fdc_data: 0u8,
            port_0201: 0u8,
            port_0210: 0u8,
            port_0278: 0u8,
            port_02fa: 0u8,
            port_0378: 0u8,
            port_03bc: 0u8,
            port_03fa: 0u8,
            dma_chan: Seq::new(DMA_CHANNEL_COUNT as nat, |i: int| 0u8),
        },
        disk: DiskView { data: Seq::new(DISK_IMAGE_SIZE as nat, |i: int| 0u8), offset: 0 },
        tracker: PortTracker { last_port: 0u16, count: 0u32 },
        speaker_on: false,
    }
}

/// The machine and result of an IN dispatch: advance the timer, then read
/// the device the port selects. The port table follows the legacy PC map;
/// an unrecognized port feeds the unknown-port tracker.
pub open spec fn in_step(m0: MachineView, port: u16, size: u8, now: u64) -> (MachineView,
    PortInResult,
) {
    let m = machine_advanced(m0, now);
    if port == 0x60 {
        (m, PortInResult::Keyboard)
    } else if port == 0x64 {
        (m, PortInResult::Value(0))
    } else if port == 0xFF {
        (
            MachineView { disk: disk_after_in(m.disk, size), ..m },
            PortInResult::Value(disk_in_value(m.disk, size) as u32),
        )
    } else if port == 0x80 {
        (m, PortInResult::Value(0))
    } else if port == 0x61 {
        (m, PortInResult::Value(m.dev.sys_ctrl as u32))
    } else if port == 0x62 {
        (m, PortInResult::Value(sys_portc_spec(m.dev.sys_ctrl) as u32))
    } else if port == 0x3D8 {
        (m, PortInResult::Value(m.dev.cga_mode as u32))
    } else if port == 0x3B8 {
        (m, PortInResult::Value(m.dev.mda_mode as u32))
    } else if port == 0x0A {
        (m, PortInResult::Value(m.dev.dma_mask as u32))
    } else if port == 0x0B {
        (m, PortInResult::Value(m.dev.dma_mode as u32))
    } else if port == 0x0D {
        (m, PortInResult::Value(m.dev.dma_temp as u32))
    } else if port == 0x0C {
        (m, PortInResult::Value(m.dev.dma_clear as u32))
    } else if port == 0x43 {
        (m, PortInResult::Value(m.pit.control as u32))
    } else if port == 0x40 || port == 0x41 || port == 0x42 {
        let idx = (port - 0x40) as int;
        (
            MachineView {
                pit: PitView {
                    channels: m.pit.channels.update(idx, channel_after_read(m.pit.channels[idx])),
                    ..m.pit
                },
                ..m
            },
            PortInResult::Value(read_value(m.pit.channels[idx]) as u32),
        )
    } else if port == 0x21 {
        (m, PortInResult::Value(m.dev.pic_master_imr as u32))
    } else if port == 0xA1 {
        (m, PortInResult::Value(m.dev.pic_slave_imr as u32))
    } else if port <= 0x07 {
        (m, PortInResult::Value(m.dev.dma_chan[port as int] as u32))
    } else if port == 0x81 {
        (m, PortInResult::Value(m.dev.dma_page1 as u32))
    } else if port == 0x210 {
        (m, PortInResult::Value(m.dev.port_0210 as u32))
    } else if port == 0x278 {
        (m, PortInResult::Value(m.dev.port_0278 as u32))
    } else if port == 0x2FA {
        (m, PortInResult::Value(m.dev.port_02fa as u32))
    } else if port == 0x378 {
        (m, PortInResult::Value(m.dev.port_0378 as u32))
    } else if port == 0x3BC {
        (m, PortInResult::Value(m.dev.port_03bc as u32))
    } else if port == 0x3FA {
        (m, PortInResult::Value(m.dev.port_03fa as u32))
    } else if port == 0x201 {
        (m, PortInResult::Value(m.dev.port_0201 as u32))
    } else if port == 0x3B4 {
        (m, PortInResult::Value(m.crtc_mda.index as u32))
    } else if port == 0x3B5 {
        (m, PortInResult::Value(m.crtc_mda.regs[m.crtc_mda.index as int] as u32))
    } else if port == 0x3B9 {
        (m, PortInResult::Value(m.dev.attr_mda as u32))
    } else if port == 0x3D4 {
        (m, PortInResult::Value(m.crtc_cga.index as u32))
    } else if port == 0x3D5 {
        (m, PortInResult::Value(m.crtc_cga.regs[m.crtc_cga.index as int] as u32))
    } else if port == 0x3D9 {
        (m, PortInResult::Value(m.dev.attr_cga as u32))
    } else if port == 0x3DA {
        (
            MachineView { status: status_polled(m.status, now), ..m },
            PortInResult::Value(status_polled(m.status, now).status as u32),
        )
    } else if port == 0x3F2 {
        (m, PortInResult::Value(m.dev.fdc_dor as u32))
    } else if port == 0x3F4 {
        (m, PortInResult::Value(m.dev.fdc_status as u32))
    } else if port == 0x3F5 {
        (m, PortInResult::Value(m.dev.fdc_data as u32))
    } else if port == 0x20 || port == 0xA0 {
        (m, PortInResult::Value(0))
    } else if port == 0x83 || port == 0xB8 || port == 0x213 || port == 0x08 || port == 0x63 {
        (m, PortInResult::Value(0))
    } else {
        let t = tracker_noted(m.tracker, port);
        (
            MachineView { tracker: t, ..m },
            if tracker_fatal(t) {
                PortInResult::Terminate
            } else {
                PortInResult::Unimplemented
            },
        )
    }
}

/// The machine and result of an OUT dispatch: advance the timer, then store
/// the low byte of `data` into the device the port selects (the disk port
/// takes all `size` bytes); an unrecognized port feeds the unknown-port
/// tracker.
pub open spec fn out_step(m0: MachineView, port: u16, size: u8, data: u32, now: u64) -> (
    MachineView,
    PortOutResult,
) {
    let m = machine_advanced(m0, now);
    let b = data as u8;
    if port == 0xFF {
        (MachineView { disk: disk_after_out(m.disk, data, size), ..m }, PortOutResult::Done)
    } else if port == 0x80 {
        (m, PortOutResult::Done)
    } else if port == 0x61 {
        let on = speaker_gate_on(b);
        let stepped = MachineView {
            dev: LatchesView { sys_ctrl: b, ..m.dev },
            speaker_on: on,
            ..m
        };
        if on && !m.speaker_on {
            (stepped, PortOutResult::Beep(beep_freq_spec(m.pit.channels[2].reload) as u32))
        } else {
            (stepped, PortOutResult::Done)
        }
    } else if port == 0x62 {
        (m, PortOutResult::Done)
    } else if port == 0x3D8 {
        (MachineView { dev: LatchesView { cga_mode: b, ..m.dev }, ..m }, PortOutResult::Done)
    } else if port == 0x3B8 {
        (MachineView { dev: LatchesView { mda_mode: b, ..m.dev }, ..m }, PortOutResult::Done)
    } else if port == 0x0A {
        (MachineView { dev: LatchesView { dma_mask: b, ..m.dev }, ..m }, PortOutResult::Done)
    } else if port == 0x43 {
        (MachineView { pit: pit_after_control(m.pit, b), ..m }, PortOutResult::Done)
    } else if port == 0x40 || port == 0x41 || port == 0x42 {
        let idx = (port - 0x40) as int;
        (
            MachineView {
                pit: PitView {
                    channels: m.pit.channels.update(
                        idx,
                        channel_after_write(m.pit.channels[idx], b),
                    ),
                    ..m.pit
                },
                ..m
            },
            PortOutResult::Done,
        )
    } else if port == 0x0B {
        (MachineView { dev: LatchesView { dma_mode: b, ..m.dev }, ..m }, PortOutResult::Done)
    } else if port == 0x0D {
        (MachineView { dev: LatchesView { dma_temp: b, ..m.dev }, ..m }, PortOutResult::Done)
    } else if port == 0x0C {
        (MachineView { dev: LatchesView { dma_clear: b, ..m.dev }, ..m }, PortOutResult::Done)
    } else if port <= 0x07 {
        (
            MachineView {
                dev: LatchesView { dma_chan: m.dev.dma_chan.update(port as int, b), ..m.dev },
                ..m
            },
            PortOutResult::Done,
        )
    } else if port == 0x81 {
        (MachineView { dev: LatchesView { dma_page1: b, ..m.dev }, ..m }, PortOutResult::Done)
    } else if port == 0x210 {
        (MachineView { dev: LatchesView { port_0210: b, ..m.dev }, ..m }, PortOutResult::Done)
    } else if port == 0x278 {
        (MachineView { dev: LatchesView { port_0278: b, ..m.dev }, ..m }, PortOutResult::Done)
    } else if port == 0x2FA {
        (MachineView { dev: LatchesView { port_02fa: b, ..m.dev }, ..m }, PortOutResult::Done)
    } else if port == 0x378 {
        (MachineView { dev: LatchesView { port_0378: b, ..m.dev }, ..m }, PortOutResult::Done)
    } else if port == 0x3BC {
        (MachineView { dev: LatchesView { port_03bc: b, ..m.dev }, ..m }, PortOutResult::Done)
    } else if port == 0x3FA {
        (MachineView { dev: LatchesView { port_03fa: b, ..m.dev }, ..m }, PortOutResult::Done)
    } else if port == 0x201 {
        (MachineView { dev: LatchesView { port_0201: b, ..m.dev }, ..m }, PortOutResult::Done)
    } else if port == 0x3B4 {
        (MachineView { crtc_mda: CrtcView { index: b & 0x1F, ..m.crtc_mda }, ..m },
        PortOutResult::Done)
    } else if port == 0x3B5 {
        (
            MachineView {
                crtc_mda: CrtcView {
                    regs: m.crtc_mda.regs.update(m.crtc_mda.index as int, b),
                    ..m.crtc_mda
                },
                ..m
            },
            PortOutResult::Done,
        )
    } else if port == 0x3B9 {
        (MachineView { dev: LatchesView { attr_mda: b, ..m.dev }, ..m }, PortOutResult::Done)
    } else if port == 0x3D4 {
        (MachineView { crtc_cga: CrtcView { index: b & 0x1F, ..m.crtc_cga }, ..m },
        PortOutResult::Done)
    } else if port == 0x3D5 {
        (
            MachineView {
                crtc_cga: CrtcView {
                    regs: m.crtc_cga.regs.update(m.crtc_cga.index as int, b),
                    ..m.crtc_cga
                },
                ..m
            },
            PortOutResult::Done,
        )
    } else if port == 0x3D9 {
        (MachineView { dev: LatchesView { attr_cga: b, ..m.dev }, ..m }, PortOutResult::Done)
    } else if port == 0x3DA {
        (
            MachineView { status: CgaStatusView { status: b, ..m.status }, ..m },
            PortOutResult::Done,
        )
    } else if port == 0x3F2 {
        (MachineView { dev: LatchesView { fdc_dor: b, ..m.dev }, ..m }, PortOutResult::Done)
    } else if port == 0x3F4 {
        (MachineView { dev: LatchesView { fdc_status: b, ..m.dev }, ..m }, PortOutResult::Done)
    } else if port == 0x3F5 {
        (MachineView { dev: LatchesView { fdc_data: b, ..m.dev }, ..m }, PortOutResult::Done)
    } else if port == 0x20 || port == 0x21 {
        (MachineView { dev: LatchesView { pic_master_imr: b, ..m.dev }, ..m }, PortOutResult::Done)
    } else if port == 0xA0 || port == 0xA1 {
        (MachineView { dev: LatchesView { pic_slave_imr: b, ..m.dev }, ..m }, PortOutResult::Done)
    } else if port == 0x60 || port == 0x64 {
        (m, PortOutResult::Done)
    } else if port == 0x83 || port == 0xB8 || port == 0x213 || port == 0x08 || port == 0x63 {
        (m, PortOutResult::Done)
    } else {
        let t = tracker_noted(m.tracker, port);
        (
            MachineView { tracker: t, ..m },
            if tracker_fatal(t) {
                PortOutResult::Terminate
            } else {
                PortOutResult::Unimplemented
            },
        )
    }
}

/// The machine: every emulated device behind the port map.
pub struct Machine {
    /// The interval timer.
    pub pit: Pit,
    /// The CGA text buffer, shadow and cursor.
    pub cga: CgaText,
    /// The CGA status register and retrace clock.
    pub status: CgaStatus,
    /// The MDA CRT controller.
    pub crtc_mda: Crtc,
    /// The CGA CRT controller.
    pub crtc_cga: Crtc,
    /// The byte latches of the remaining devices.
    pub dev: Latches,
    /// The disk image.
    pub disk: DiskImage,
    /// The unknown-port tracker.
    pub tracker: PortTracker,
    /// Whether the speaker gate was on after the last write to the system
    /// control register.
    pub speaker_on: bool,
}

impl View for Machine {
    type V = MachineView;

    open spec fn view(&self) -> MachineView {
        MachineView {
            pit: self.pit@,
            cga: self.cga@,
            status: self.status@,
            crtc_mda: self.crtc_mda@,
            crtc_cga: self.crtc_cga@,
            dev: self.dev@,
            disk: self.disk@,
            tracker: self.tracker,
            speaker_on: self.speaker_on,
        }
    }
}

impl Machine {
    /// Every part of the machine is well formed.
    pub open spec fn wf(&self) -> bool {
        machine_wf(self@)
    }

    /// The machine at power-on.
    pub fn new() -> (m: Machine)
        ensures
            m.wf(),
            m@ == initial_machine(),
    {
        let m = Machine {
            pit: Pit::new(),
            cga: CgaText::new(),
            status: CgaStatus::new(),
            crtc_mda: Crtc::new(),
            crtc_cga: Crtc::new(),
            dev: Latches::new(),
            disk: DiskImage::new(),
            tracker: PortTracker::new(),
            speaker_on: false,
        };
        proof {
            assert(m@ =~~= initial_machine());
        }
        m
    }

    /// Dispatch an IN access: advance the timer to `now`, then produce the
    /// port's value or the action the caller must take.
    pub fn port_in(&mut self, port: u16, size: u8, now: u64) -> (r: PortInResult)
        requires
            old(self).wf(),
            valid_access_size(size),
        ensures
            final(self).wf(),
            ({
                let (m2, rr) = in_step(old(self)@, port, size, now);
                final(self)@ == m2 && r == rr
            }),
    {
        self.pit.advance(now);
        let ghost m = machine_advanced(old(self)@, now);
        let r = if port == 0x60 {
            PortInResult::Keyboard
        } else if port == 0x64 {
            PortInResult::Value(0)
        } else if port == 0xFF {
            let b0 = self.disk.read_byte();
            let mut value: u32 = b0 as u32;
            if size >= 2 {
                let b1 = self.disk.read_byte();
                value = value + 256 * (b1 as u32);
            }
            if size == 4 {
                let b2 = self.disk.read_byte();
                let b3 = self.disk.read_byte();
                value = value + 65536 * (b2 as u32) + 16777216 * (b3 as u32);
            }
            proof {
                lemma_disk_read_run(m.disk, size);
            }
            PortInResult::Value(value)
        } else if port == 0x80 {
            PortInResult::Value(0)
        } else if port == 0x61 {
            PortInResult::Value(self.dev.sys_ctrl as u32)
        } else if port == 0x62 {
            PortInResult::Value(sys_portc_value(self.dev.sys_ctrl) as u32)
        } else if port == 0x3D8 {
            PortInResult::Value(self.dev.cga_mode as u32)
        } else if port == 0x3B8 {
            PortInResult::Value(self.dev.mda_mode as u32)
        } else if port == 0x0A {
            PortInResult::Value(self.dev.dma_mask as u32)
        } else if port == 0x0B {
            PortInResult::Value(self.dev.dma_mode as u32)
        } else if port == 0x0D {
            PortInResult::Value(self.dev.dma_temp as u32)
        } else if port == 0x0C {
            PortInResult::Value(self.dev.dma_clear as u32)
        } else if port == 0x43 {
            PortInResult::Value(self.pit.control_value() as u32)
        } else if port == 0x40 || port == 0x41 || port == 0x42 {
            let idx = (port - 0x40) as usize;
            let byte = self.pit.counter_read(idx);
            PortInResult::Value(byte as u32)
        } else if port == 0x21 {
            PortInResult::Value(self.dev.pic_master_imr as u32)
        } else if port == 0xA1 {
            PortInResult::Value(self.dev.pic_slave_imr as u32)
        } else if port <= 0x07 {
            PortInResult::Value(self.dev.dma_chan[port as usize] as u32)
        } else if port == 0x81 {
            PortInResult::Value(self.dev.dma_page1 as u32)
        } else if port == 0x210 {
            PortInResult::Value(self.dev.port_0210 as u32)
        } else if port == 0x278 {
            PortInResult::Value(self.dev.port_0278 as u32)
        } else if port == 0x2FA {
            PortInResult::Value(self.dev.port_02fa as u32)
        } else if port == 0x378 {
            PortInResult::Value(self.dev.port_0378 as u32)
        } else if port == 0x3BC {
            PortInResult::Value(self.dev.port_03bc as u32)
        } else if port == 0x3FA {
            PortInResult::Value(self.dev.port_03fa as u32)
        } else if port == 0x201 {
            PortInResult::Value(self.dev.port_0201 as u32)
        } else if port == 0x3B4 {
            PortInResult::Value(self.crtc_mda.read_index() as u32)
        } else if port == 0x3B5 {
            PortInResult::Value(self.crtc_mda.read_data() as u32)
        } else if port == 0x3B9 {
            PortInResult::Value(self.dev.attr_mda as u32)
        } else if port == 0x3D4 {
            PortInResult::Value(self.crtc_cga.read_index() as u32)
        } else if port == 0x3D5 {
            PortInResult::Value(self.crtc_cga.read_data() as u32)
        } else if port == 0x3D9 {
            PortInResult::Value(self.dev.attr_cga as u32)
        } else if port == 0x3DA {
            let s = self.status.poll(now);
            PortInResult::Value(s as u32)
        } else if port == 0x3F2 {
            PortInResult::Value(self.dev.fdc_dor as u32)
        } else if port == 0x3F4 {
            PortInResult::Value(self.dev.fdc_status as u32)
        } else if port == 0x3F5 {
            PortInResult::Value(self.dev.fdc_data as u32)
        } else if port == 0x20 || port == 0xA0 {
            PortInResult::Value(0)
        } else if port == 0x83 || port == 0xB8 || port == 0x213 || port == 0x08 || port == 0x63 {
            PortInResult::Value(0)
        } else {
            let fatal = self.tracker.note(port);
            if fatal {
                PortInResult::Terminate
            } else {
                PortInResult::Unimplemented
            }
        };
        proof {
            assert(self@ =~~= in_step(old(self)@, port, size, now).0);
        }
        r
    }

    /// Dispatch an OUT access: advance the timer to `now`, then absorb the
    /// write or report the action the caller must take.
    pub fn port_out(&mut self, port: u16, size: u8, data: u32, now: u64) -> (r: PortOutResult)
        requires
            old(self).wf(),
            valid_access_size(size),
        ensures
            final(self).wf(),
            ({
                let (m2, rr) = out_step(old(self)@, port, size, data, now);
                final(self)@ == m2 && r == rr
            }),
    {
        self.pit.advance(now);
        let b = data as u8;
        let r = if port == 0xFF {
            self.disk.write_byte(data as u8);
            if size >= 2 {
                self.disk.write_byte((data >> 8) as u8);
            }
            if size == 4 {
                self.disk.write_byte((data >> 16) as u8);
                self.disk.write_byte((data >> 24) as u8);
            }
            PortOutResult::Done
        } else if port == 0x80 {
            PortOutResult::Done
        } else if port == 0x61 {
            let was_on = self.speaker_on;
            self.dev.sys_ctrl = b;
            let on = (b & 0x03) == 0x03;
            self.speaker_on = on;
            if on && !was_on {
                let reload = self.pit.reload_of(2);
                PortOutResult::Beep(beep_frequency(reload))
            } else {
                PortOutResult::Done
            }
        } else if port == 0x62 {
            PortOutResult::Done
        } else if port == 0x3D8 {
            self.dev.cga_mode = b;
            PortOutResult::Done
        } else if port == 0x3B8 {
            self.dev.mda_mode = b;
            PortOutResult::Done
        } else if port == 0x0A {
            self.dev.dma_mask = b;
            PortOutResult::Done
        } else if port == 0x43 {
            self.pit.control_write(b);
            PortOutResult::Done
        } else if port == 0x40 || port == 0x41 || port == 0x42 {
            let idx = (port - 0x40) as usize;
            self.pit.counter_write(idx, b);
            PortOutResult::Done
        } else if port == 0x0B {
            self.dev.dma_mode = b;
            PortOutResult::Done
        } else if port == 0x0D {
            self.dev.dma_temp = b;
            PortOutResult::Done
        } else if port == 0x0C {
            self.dev.dma_clear = b;
            PortOutResult::Done
        } else if port <= 0x07 {
            self.dev.dma_chan.set(port as usize, b);
            PortOutResult::Done
        } else if port == 0x81 {
            self.dev.dma_page1 = b;
            PortOutResult::Done
        } else if port == 0x210 {
            self.dev.port_0210 = b;
            PortOutResult::Done
        } else if port == 0x278 {
            self.dev.port_0278 = b;
            PortOutResult::Done
        } else if port == 0x2FA {
            self.dev.port_02fa = b;
            PortOutResult::Done
        } else if port == 0x378 {
            self.dev.port_0378 = b;
            PortOutResult::Done
        } else if port == 0x3BC {
            self.dev.port_03bc = b;
            PortOutResult::Done
        } else if port == 0x3FA {
            self.dev.port_03fa = b;
            PortOutResult::Done
        } else if port == 0x201 {
            self.dev.port_0201 = b;
            PortOutResult::Done
        } else if port == 0x3B4 {
            self.crtc_mda.write_index(b);
            PortOutResult::Done
        } else if port == 0x3B5 {
            self.crtc_mda.write_data(b);
            PortOutResult::Done
        } else if port == 0x3B9 {
            self.dev.attr_mda = b;
            PortOutResult::Done
        } else if port == 0x3D4 {
            self.crtc_cga.write_index(b);
            PortOutResult::Done
        } else if port == 0x3D5 {
            self.crtc_cga.write_data(b);
            PortOutResult::Done
        } else if port == 0x3D9 {
            self.dev.attr_cga = b;
            PortOutResult::Done
        } else if port == 0x3DA {
            self.status.store(b);
            PortOutResult::Done
        } else if port == 0x3F2 {
            self.dev.fdc_dor = b;
            PortOutResult::Done
        } else if port == 0x3F4 {
            self.dev.fdc_status = b;
            PortOutResult::Done
        } else if port == 0x3F5 {
            self.dev.fdc_data = b;
            PortOutResult::Done
        } else if port == 0x20 || port == 0x21 {
            self.dev.pic_master_imr = b;
            PortOutResult::Done
        } else if port == 0xA0 || port == 0xA1 {
            self.dev.pic_slave_imr = b;
            PortOutResult::Done
        } else if port == 0x60 || port == 0x64 {
            PortOutResult::Done
        } else if port == 0x83 || port == 0xB8 || port == 0x213 || port == 0x08 || port == 0x63 {
            PortOutResult::Done
        } else {
            let fatal = self.tracker.note(port);
            if fatal {
                PortOutResult::Terminate
            } else {
                PortOutResult::Unimplemented
            }
        };
        proof {
            assert(self@ =~~= out_step(old(self)@, port, size, data, now).0);
        }
        r
    }
}

/// The 16-bit cell value at index `i` of the CGA text region of guest
/// memory: the little-endian word at 0xB8000 + 2·i.
pub open spec fn ram_word(mem: Seq<u8>, i: int) -> int {
    mem[CGA_RAM_BASE + 2 * i] + 256 * (mem[CGA_RAM_BASE + 2 * i + 1] as int)
}

impl Machine {
    /// The CGA resync that runs after every vCPU exit: scan the text region
    /// of guest memory and reconcile the core's buffer with it; true when
    /// any cell changed. Afterwards the buffer agrees with guest RAM
    /// wherever its shadow did not already hide a divergence, and agrees
    /// everywhere when buffer and shadow agreed before.
    pub fn sync_cga_with_memory(&mut self, mem: &GuestMemory) -> (dirty: bool)
        requires
            old(self).wf(),
            mem.wf(),
        ensures
            final(self).wf(),
            final(self)@ == (MachineView {
                cga: sync_spec(
                    old(self)@.cga,
                    Seq::new(CGA_CELLS as nat, |i: int| ram_word(mem@, i) as u16),
                ),
                ..old(self)@
            }),
            old(self)@.cga.cells == old(self)@.cga.shadow ==> forall|i: int|
                0 <= i < CGA_CELLS ==> final(self)@.cga.cells[i] == ram_word(mem@, i),
            dirty <==> exists|i: int|
                0 <= i < CGA_CELLS && old(self)@.cga.shadow[i] != #[trigger] (ram_word(mem@, i)
                    as u16),
    {
        let bytes = mem.read_region(CGA_RAM_BASE, 2 * CGA_CELLS);
        let words = words_from_bytes(&bytes);
        let ghost target: Seq<u16> = Seq::new(CGA_CELLS as nat, |i: int| ram_word(mem@, i) as u16);
        proof {
            assert forall|i: int| 0 <= i < CGA_CELLS implies words@[i] == target[i] by {
                assert(bytes@[2 * i] == mem@[CGA_RAM_BASE + 2 * i]);
                assert(bytes@[2 * i + 1] == mem@[CGA_RAM_BASE + 2 * i + 1]);
                assert(0 <= ram_word(mem@, i) < 0x10000);
            }
            assert(words@ =~= target);
        }
        let dirty = self.cga.sync_from_ram(&words);
        proof {
            assert(self@ =~~= (MachineView { cga: sync_spec(old(self)@.cga, target), ..old(
                self,
            )@ }));
            if old(self)@.cga.cells == old(self)@.cga.shadow {
                assert forall|i: int| 0 <= i < CGA_CELLS implies self@.cga.cells[i] == ram_word(
                    mem@,
                    i,
                ) by {
                    assert(self@.cga.cells[i] == target[i]);
                    assert(0 <= ram_word(mem@, i) < 0x10000);
                }
            }
            assert forall|i: int|
                0 <= i < CGA_CELLS implies (old(self)@.cga.shadow[i] != words@[i]) <==> (old(
            self)@.cga.shadow[i] != #[trigger] (ram_word(mem@, i) as u16)) by {
                assert(words@[i] == target[i]);
            }
            if dirty {
                let i = choose|i: int|
                    0 <= i < CGA_CELLS && old(self)@.cga.shadow[i] != #[trigger] words@[i];
                assert(old(self)@.cga.shadow[i] != ram_word(mem@, i) as u16);
            }
        }
        dirty
    }
}

/// Assemble up to four input bytes little-endian, as the keyboard port does
/// with the bytes the caller read from its input stream.
pub fn assemble_in_bytes(bytes: &Vec<u8>) -> (r: u32)
    requires
        bytes@.len() <= 4,
    ensures
        r == le4(bytes@),
{
    let mut r: u32 = 0;
    if bytes.len() >= 1 {
        r = r + bytes[0] as u32;
    }
    if bytes.len() >= 2 {
        r = r + 256 * (bytes[1] as u32);
    }
    if bytes.len() >= 3 {
        r = r + 65536 * (bytes[2] as u32);
    }
    if bytes.len() >= 4 {
        r = r + 16777216 * (bytes[3] as u32);
    }
    r
}

/// A run of up to four disk reads steps the offset by one each time; this
/// pins the wrapped offsets the run visits.
proof fn lemma_disk_read_run(v: DiskView, size: u8)
    requires
        disk_wf(v),
        valid_access_size(size),
    ensures
        (v.offset + 0) % (DISK_IMAGE_SIZE as int) == v.offset,
        ((v.offset + 1) % (DISK_IMAGE_SIZE as int) + 1) % (DISK_IMAGE_SIZE as int) == (v.offset
            + 2) % (DISK_IMAGE_SIZE as int),
        (((v.offset + 1) % (DISK_IMAGE_SIZE as int) + 1) % (DISK_IMAGE_SIZE as int) + 1) % (
        DISK_IMAGE_SIZE as int) == (v.offset + 3) % (DISK_IMAGE_SIZE as int),
        ((((v.offset + 1) % (DISK_IMAGE_SIZE as int) + 1) % (DISK_IMAGE_SIZE as int) + 1) % (
        DISK_IMAGE_SIZE as int) + 1) % (DISK_IMAGE_SIZE as int) == (v.offset + 4) % (
        DISK_IMAGE_SIZE as int),
        forall|j: int| 0 <= j <= 4 ==> 0 <= #[trigger] ((v.offset + j) % (DISK_IMAGE_SIZE as int))
            < DISK_IMAGE_SIZE,
{
    let n = DISK_IMAGE_SIZE as int;
    assert forall|j: int| 0 <= j <= 4 implies 0 <= #[trigger] ((v.offset + j) % n) < n by {
        lemma_mod_bound(v.offset + j, n);
    }
    lemma_small_mod(v.offset as nat, n as nat);
    lemma_mod_step(v.offset, 1);
    lemma_mod_step(v.offset, 2);
    lemma_mod_step(v.offset, 3);
}

/// Folding one more `+ 1` into a wrapped sum: `((o + k) % n + 1) % n`
/// equals `(o + k + 1) % n`.
proof fn lemma_mod_step(o: int, k: int)
    requires
        0 <= o,
        0 <= k,
    ensures
        ((o + k) % (DISK_IMAGE_SIZE as int) + 1) % (DISK_IMAGE_SIZE as int) == (o + k + 1) % (
        DISK_IMAGE_SIZE as int),
{
    let n = DISK_IMAGE_SIZE as int;
    lemma_mod_bound(o + k, n);
    lemma_add_mod_noop(o + k, 1, n);
    lemma_small_mod(1nat, n as nat);
    lemma_small_mod(((o + k) % n) as nat, n as nat);
    assert(((o + k) % n + 1int % n) % n == (o + k + 1) % n);
}

/// For every unrecognized port, the first access merely records it, and a
/// second consecutive access to the same port (IN or OUT, at any times and
/// access sizes) demands termination.
pub proof fn lemma_repeated_unknown_port_terminates(
    m: MachineView,
    port: u16,
    size1: u8,
    size2: u8,
    now1: u64,
    now2: u64,
)
    requires
        !recognized_port(port),
    ensures
        in_step(in_step(m, port, size1, now1).0, port, size2, now2).1 == PortInResult::Terminate,
        out_step(in_step(m, port, size1, now1).0, port, size2, 0, now2).1
            == PortOutResult::Terminate,
        out_step(out_step(m, port, size1, 0, now1).0, port, size2, 0, now2).1
            == PortOutResult::Terminate,
{
}

/// After wall time elapses and any IN dispatch occurs, every channel of the
/// timer has counted down by the accumulated ticks modulo its effective
/// reload value: reads of the counter and latch ports never disturb the
/// count itself.
pub proof fn lemma_dispatch_decrements_counters(
    m: MachineView,
    port: u16,
    size: u8,
    now: u64,
    i: int,
)
    requires
        machine_wf(m),
        m.pit.last_update is Some,
        0 <= i < 3,
    ensures
        ({
            let t = crate::pit::ticks_of(m.pit, now);
            let ch = m.pit.channels[i];
            let ch2 = in_step(m, port, size, now).0.pit.channels[i];
            (crate::pit::effective(ch2.count) - (crate::pit::effective(ch.count) - t))
                % crate::pit::effective(ch.reload) == 0
        }),
{
    crate::pit::lemma_advance_decrements_modulo(m.pit, now, i);
    assert(in_step(m, port, size, now).0.pit.channels[i].count == pit_advanced(
        m.pit,
        now,
    ).channels[i].count);
}

/// For every byte written to the CGA CRTC index port, the stored index is
/// the byte masked to its low five bits.
pub proof fn lemma_crtc_index_masked(m: MachineView, size: u8, data: u32, now: u64)
    ensures
        out_step(m, 0x3D4, size, data, now).0.crtc_cga.index == (data as u8) & 0x1F,
        out_step(m, 0x3B4, size, data, now).0.crtc_mda.index == (data as u8) & 0x1F,
{
}

} // verus!
