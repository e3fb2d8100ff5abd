//! The programmable interval timer: three 16-bit down-counters clocked at
//! 1,193,182 Hz. A stored counter or reload value of 0 stands for 65,536.
//! The counters are advanced lazily, from the monotonic time handed in by
//! the caller, before every port dispatch.

use vstd::prelude::*;
use vstd::arithmetic::div_mod::{
    lemma_div_pos_is_pos,
    lemma_fundamental_div_mod,
    lemma_mod_bound,
    lemma_mod_multiples_basic,
    lemma_multiply_divide_lt,
    lemma_small_mod,
};
use vstd::arithmetic::mul::lemma_mul_inequality;

verus! {

/// The PIT input clock in Hz.
pub const PIT_FREQUENCY: u64 = 1_193_182;

/// Nanoseconds per second; the sub-tick carry is kept in units of
/// 1/1,000,000,000 of a tick.
pub const NANOS_PER_SECOND: u64 = 1_000_000_000;

/// One PIT channel. `count` and `reload` are 16-bit wrap values in which a
/// stored 0 means 65,536.
#[derive(Clone, Copy, Debug, PartialEq, Eq, Structural)]
pub struct PitChannel {
    /// Current down-counter.
    pub count: u16,
    /// Reload value copied into `count` when the counter wraps.
    pub reload: u16,
    /// Operating mode from the last control word (stored, not acted upon).
    pub mode: u8,
    /// Read/write mode from the last control word: 1 = low byte, 2 = high
    /// byte, 3 = low then high.
    pub access: u8,
    /// BCD flag from the last control word (stored, not enforced).
    pub bcd: bool,
    /// Whether a counter-latch capture is pending.
    pub latched: bool,
    /// The captured counter value while `latched`.
    pub latch: u16,
    /// Byte phase for low-then-high access: true when the low byte is next.
    pub rw_low: bool,
}

/// A channel as it comes out of reset.
pub open spec fn reset_channel() -> PitChannel {
    PitChannel {
        count: 0u16,
        reload: 0u16,
        mode: 0u8,
        access: 0u8,
        bcd: false,
        latched: false,
        latch: 0u16,
        rw_low: true,
    }
}

impl PitChannel {
    /// A channel as it comes out of reset.
    pub fn new() -> (c: PitChannel)
        ensures
            c == reset_channel(),
    {
        PitChannel {
            count: 0,
            reload: 0,
            mode: 0,
            access: 0,
            bcd: false,
            latched: false,
            latch: 0,
            rw_low: true,
        }
    }
}

/// The value a stored 16-bit wrap value denotes: 0 stands for 65,536.
pub open spec fn effective(v: u16) -> int {
    if v == 0 {
        0x10000
    } else {
        v as int
    }
}

/// The stored form of a denoted counter value in [1, 65536].
pub open spec fn encode(v: int) -> u16 {
    if v == 0x10000 {
        0u16
    } else {
        v as u16
    }
}

/// The denoted counter value after `t` input clock ticks: count down to the
/// reload point, then continue cyclically from the effective reload value.
pub open spec fn ticked(count: u16, reload: u16, t: int) -> int {
    if t < effective(count) {
        effective(count) - t
    } else {
        effective(reload) - ((t - effective(count)) % effective(reload))
    }
}

/// A channel after `t` input clock ticks.
pub open spec fn channel_advanced(ch: PitChannel, t: int) -> PitChannel {
    PitChannel { count: encode(ticked(ch.count, ch.reload, t)), ..ch }
}

/// Mathematical state of the whole timer.
#[verifier::ext_equal]
pub struct PitView {
    /// The three channels.
    pub channels: Seq<PitChannel>,
    /// The last control word written to the control port.
    pub control: u8,
    /// Monotonic nanosecond stamp of the last advance, if any happened yet.
    pub last_update: Option<u64>,
    /// Sub-tick remainder in 1e-9 tick units, always below 1e9.
    pub carry: u64,
}

/// Nanoseconds elapsed since the last advance (0 before the first advance,
/// and 0 if the clock stamp did not move forward).
pub open spec fn elapsed_of(m: PitView, now: u64) -> int {
    match m.last_update {
        Option::None => 0,
        Option::Some(last) => if now >= last {
            now - last
        } else {
            0
        },
    }
}

/// Whole input-clock ticks accumulated over the elapsed time, including the
/// stored sub-tick carry.
pub open spec fn ticks_of(m: PitView, now: u64) -> int {
    (elapsed_of(m, now) * PIT_FREQUENCY + m.carry) / (NANOS_PER_SECOND as int)
}

/// The sub-tick carry left over after taking the whole ticks.
pub open spec fn carry_of(m: PitView, now: u64) -> int {
    (elapsed_of(m, now) * PIT_FREQUENCY + m.carry) % (NANOS_PER_SECOND as int)
}

/// The timer state after an advance to time `now`. The first advance only
/// starts the clock.
pub open spec fn pit_advanced(m: PitView, now: u64) -> PitView {
    match m.last_update {
        Option::None => PitView { last_update: Some(now), ..m },
        Option::Some(_) => PitView {
            channels: Seq::new(
                m.channels.len(),
                |i: int| channel_advanced(m.channels[i], ticks_of(m, now)),
            ),
            control: m.control,
            last_update: Some(now),
            carry: carry_of(m, now) as u64,
        },
    }
}

/// The source a counter read draws from: the latch while a capture is
/// pending, else the live counter.
pub open spec fn read_source(ch: PitChannel) -> u16 {
    if ch.latched {
        ch.latch
    } else {
        ch.count
    }
}

/// The byte produced by a counter read.
pub open spec fn read_value(ch: PitChannel) -> u8 {
    if ch.access == 2 {
        (read_source(ch) >> 8) as u8
    } else if ch.access == 3 {
        if ch.rw_low {
            (read_source(ch) & 0xFF) as u8
        } else {
            (read_source(ch) >> 8) as u8
        }
    } else {
        (read_source(ch) & 0xFF) as u8
    }
}

/// The channel after a counter read: low-then-high access alternates the
/// byte phase and releases the latch once both halves were read; the other
/// access modes release the latch at once.
pub open spec fn channel_after_read(ch: PitChannel) -> PitChannel {
    if ch.access == 3 {
        if ch.rw_low {
            PitChannel { rw_low: false, ..ch }
        } else {
            PitChannel { rw_low: true, latched: false, ..ch }
        }
    } else {
        PitChannel { latched: false, ..ch }
    }
}

/// The channel after a counter write of `val`: high-byte access replaces the
/// high half, low-then-high access fills the two halves in turn, any other
/// access replaces the low half. A write that completes the reload value
/// copies it into the live counter.
pub open spec fn channel_after_write(ch: PitChannel, val: u8) -> PitChannel {
    if ch.access == 2 {
        let reload = (ch.reload & 0x00FF) | ((val as u16) << 8);
        PitChannel { reload, count: reload, ..ch }
    } else if ch.access == 3 {
        if ch.rw_low {
            PitChannel { reload: (ch.reload & 0xFF00) | (val as u16), rw_low: false, ..ch }
        } else {
            let reload = (ch.reload & 0x00FF) | ((val as u16) << 8);
            PitChannel { reload, count: reload, rw_low: true, ..ch }
        }
    } else {
        let reload = (ch.reload & 0xFF00) | (val as u16);
        PitChannel { reload, count: reload, ..ch }
    }
}

/// The channel addressed by a control word, after that control word: access
/// 0 is a counter-latch command, anything else programs the channel.
pub open spec fn channel_after_control(ch: PitChannel, cmd: u8) -> PitChannel {
    if (cmd >> 4) & 3 == 0 {
        PitChannel { latch: ch.count, latched: true, access: 3u8, rw_low: true, ..ch }
    } else {
        PitChannel {
            access: (cmd >> 4) & 3,
            mode: (cmd >> 1) & 7,
            bcd: cmd & 1 != 0,
            rw_low: true,
            ..ch
        }
    }
}

/// The whole timer after a control-word write.
pub open spec fn pit_after_control(m: PitView, cmd: u8) -> PitView {
    let chan = ((cmd >> 6) & 3) as int;
    if chan < 3 && chan < m.channels.len() {
        PitView {
            channels: m.channels.update(chan, channel_after_control(m.channels[chan], cmd)),
            control: cmd,
            ..m
        }
    } else {
        PitView { control: cmd, ..m }
    }
}

/// The programmable interval timer.
pub struct Pit {
    channels: Vec<PitChannel>,
    control: u8,
    last_update: Option<u64>,
    carry: u64,
}

impl View for Pit {
    type V = PitView;

    closed spec fn view(&self) -> PitView {
        PitView {
            channels: self.channels@,
            control: self.control,
            last_update: self.last_update,
            carry: self.carry,
        }
    }
}

/// A channel after `ticks` input clock ticks.
fn advance_channel(ch: PitChannel, ticks: u64) -> (r: PitChannel)
    ensures
        r == channel_advanced(ch, ticks as int),
{
    let c0: u32 = if ch.count == 0 {
        0x10000
    } else {
        ch.count as u32
    };
    let rl: u32 = if ch.reload == 0 {
        0x10000
    } else {
        ch.reload as u32
    };
    let newc: u32 = if ticks < c0 as u64 {
        c0 - ticks as u32
    } else {
        let rem: u64 = (ticks - c0 as u64) % rl as u64;
        proof {
            lemma_mod_bound(ticks - c0 as u64, rl as int);
        }
        rl - rem as u32
    };
    let enc: u16 = if newc == 0x10000 {
        0
    } else {
        newc as u16
    };
    PitChannel { count: enc, ..ch }
}

/// A well-formed timer state: exactly three channels, carry below one
/// second.
pub open spec fn pit_wf(v: PitView) -> bool {
    v.channels.len() == 3 && v.carry < NANOS_PER_SECOND
}

impl Pit {
    /// The timer holds exactly three channels and a sub-second carry.
    pub open spec fn wf(&self) -> bool {
        pit_wf(self@)
    }

    /// The timer as it comes out of reset: three fresh channels, the clock
    /// not yet started.
    pub fn new() -> (p: Pit)
        ensures
            p.wf(),
            p@.channels[0] == reset_channel(),
            p@.channels[1] == reset_channel(),
            p@.channels[2] == reset_channel(),
            p@.control == 0u8,
            p@.last_update is None,
            p@.carry == 0u64,
    {
        let mut channels: Vec<PitChannel> = Vec::new();
        channels.push(PitChannel::new());
        channels.push(PitChannel::new());
        channels.push(PitChannel::new());
        Pit { channels, control: 0, last_update: None, carry: 0 }
    }

    /// The stored control word, as read back from the control port.
    pub fn control_value(&self) -> (r: u8)
        ensures
            r == self@.control,
    {
        self.control
    }

    /// Advance all channels to monotonic time `now`.
    pub fn advance(&mut self, now: u64)
        requires
            old(self).wf(),
        ensures
            final(self).wf(),
            final(self)@ == pit_advanced(old(self)@, now),
    {
        match self.last_update {
            None => {
                self.last_update = Some(now);
            },
            Some(last) => {
                let elapsed: u64 = if now >= last {
                    now - last
                } else {
                    0
                };
                let total: u128 = (elapsed as u128) * (PIT_FREQUENCY as u128) + (
                self.carry as u128);
                proof {
                    lemma_mul_inequality(elapsed as int, u64::MAX as int, PIT_FREQUENCY as int);
                    assert(total < 0x10000000000000000 * (NANOS_PER_SECOND as int));
                    lemma_multiply_divide_lt(
                        total as int,
                        0x10000000000000000,
                        NANOS_PER_SECOND as int,
                    );
                    lemma_mod_bound(total as int, NANOS_PER_SECOND as int);
                }
                let ticks: u64 = (total / (NANOS_PER_SECOND as u128)) as u64;
                self.carry = (total % (NANOS_PER_SECOND as u128)) as u64;
                let ghost m0 = old(self)@;
                let ch0 = advance_channel(self.channels[0], ticks);
                let ch1 = advance_channel(self.channels[1], ticks);
                let ch2 = advance_channel(self.channels[2], ticks);
                self.channels.set(0, ch0);
                self.channels.set(1, ch1);
                self.channels.set(2, ch2);
                self.last_update = Some(now);
                proof {
                    assert(ticks == ticks_of(m0, now));
                    assert(self@.channels =~= pit_advanced(m0, now).channels);
                    assert(self@ =~= pit_advanced(m0, now));
                }
            },
        }
    }

    /// Read one byte from counter `idx`, stepping the byte phase and latch
    /// state.
    pub fn counter_read(&mut self, idx: usize) -> (r: u8)
        requires
            old(self).wf(),
            idx < 3,
        ensures
            final(self).wf(),
            r == read_value(old(self)@.channels[idx as int]),
            final(self)@ == (PitView {
                channels: old(self)@.channels.update(
                    idx as int,
                    channel_after_read(old(self)@.channels[idx as int]),
                ),
                ..old(self)@
            }),
    {
        let ch = self.channels[idx];
        let src: u16 = if ch.latched {
            ch.latch
        } else {
            ch.count
        };
        let (out, updated) = if ch.access == 2 {
            ((src >> 8) as u8, PitChannel { latched: false, ..ch })
        } else if ch.access == 3 {
            if ch.rw_low {
                ((src & 0xFF) as u8, PitChannel { rw_low: false, ..ch })
            } else {
                ((src >> 8) as u8, PitChannel { rw_low: true, latched: false, ..ch })
            }
        } else {
            ((src & 0xFF) as u8, PitChannel { latched: false, ..ch })
        };
        self.channels.set(idx, updated);
        out
    }

    /// Write one byte to counter `idx`'s reload value.
    pub fn counter_write(&mut self, idx: usize, val: u8)
        requires
            old(self).wf(),
            idx < 3,
        ensures
            final(self).wf(),
            final(self)@ == (PitView {
                channels: old(self)@.channels.update(
                    idx as int,
                    channel_after_write(old(self)@.channels[idx as int], val),
                ),
                ..old(self)@
            }),
    {
        let ch = self.channels[idx];
        let updated = if ch.access == 2 {
            let reload = (ch.reload & 0x00FF) | ((val as u16) << 8);
            PitChannel { reload, count: reload, ..ch }
        } else if ch.access == 3 {
            if ch.rw_low {
                PitChannel { reload: (ch.reload & 0xFF00) | (val as u16), rw_low: false, ..ch }
            } else {
                let reload = (ch.reload & 0x00FF) | ((val as u16) << 8);
                PitChannel { reload, count: reload, rw_low: true, ..ch }
            }
        } else {
            let reload = (ch.reload & 0xFF00) | (val as u16);
            PitChannel { reload, count: reload, ..ch }
        };
        self.channels.set(idx, updated);
    }

    /// Write the control word: select a channel, and either latch its
    /// counter (access 0) or program its access, mode and BCD flags.
    pub fn control_write(&mut self, cmd: u8)
        requires
            old(self).wf(),
        ensures
            final(self).wf(),
            final(self)@ == pit_after_control(old(self)@, cmd),
    {
        self.control = cmd;
        let chan: u8 = (cmd >> 6) & 3;
        let access: u8 = (cmd >> 4) & 3;
        if chan < 3 {
            let ch = self.channels[chan as usize];
            let updated = if access == 0 {
                PitChannel { latch: ch.count, latched: true, access: 3, rw_low: true, ..ch }
            } else {
                PitChannel {
                    access,
                    mode: (cmd >> 1) & 7,
                    bcd: cmd & 1 != 0,
                    rw_low: true,
                    ..ch
                }
            };
            self.channels.set(chan as usize, updated);
        }
        proof {
            assert(self@ =~= pit_after_control(old(self)@, cmd));
        }
    }

    /// The stored reload value of channel `idx`.
    pub fn reload_of(&self, idx: usize) -> (r: u16)
        requires
            self.wf(),
            idx < 3,
        ensures
            r == self@.channels[idx as int].reload,
    {
        self.channels[idx].reload
    }
}

/// The denoted counter after `t` ticks stays in [1, 65536].
pub proof fn lemma_ticked_in_range(count: u16, reload: u16, t: int)
    requires
        t >= 0,
    ensures
        1 <= ticked(count, reload, t) <= 0x10000,
        effective(encode(ticked(count, reload, t))) == ticked(count, reload, t),
{
    let c0 = effective(count);
    let r = effective(reload);
    if t < c0 {
    } else {
        lemma_mod_bound(t - c0, r);
    }
}

/// After wall time elapses and any dispatch advances the timer, each
/// channel's denoted counter has decreased by the accumulated ticks modulo
/// its effective reload value: the new counter differs from
/// (old counter - ticks) by a multiple of the reload.
pub proof fn lemma_advance_decrements_modulo(m: PitView, now: u64, i: int)
    requires
        pit_wf(m),
        m.last_update is Some,
        0 <= i < 3,
    ensures
        ({
            let t = ticks_of(m, now);
            let ch = m.channels[i];
            let ch2 = pit_advanced(m, now).channels[i];
            (effective(ch2.count) - (effective(ch.count) - t)) % effective(ch.reload) == 0
        }),
{
    let t = ticks_of(m, now);
    let ch = m.channels[i];
    assert(elapsed_of(m, now) >= 0);
    assert(elapsed_of(m, now) * PIT_FREQUENCY >= 0) by (nonlinear_arith)
        requires
            elapsed_of(m, now) >= 0,
    ;
    lemma_div_pos_is_pos(elapsed_of(m, now) * PIT_FREQUENCY + m.carry, NANOS_PER_SECOND as int);
    lemma_ticked_in_range(ch.count, ch.reload, t);
    lemma_ticks_decrement_modulo(ch, t);
    assert(pit_advanced(m, now).channels[i] == channel_advanced(ch, t));
}

/// Advancing a channel by `t` ticks decrements its denoted counter by `t`
/// modulo the effective reload value: the new counter differs from
/// (old counter - t) by a multiple of the reload.
pub proof fn lemma_ticks_decrement_modulo(ch: PitChannel, t: int)
    requires
        t >= 0,
    ensures
        (ticked(ch.count, ch.reload, t) - (effective(ch.count) - t)) % effective(ch.reload) == 0,
{
    let c0 = effective(ch.count);
    let r = effective(ch.reload);
    if t < c0 {
        lemma_small_mod(0nat, r as nat);
    } else {
        let x = (t - c0) % r;
        lemma_fundamental_div_mod(t - c0, r);
        let q = (t - c0) / r;
        assert(t - c0 == q * r + x);
        assert(ticked(ch.count, ch.reload, t) - (c0 - t) == r - x + (t - c0));
        assert(r - x + (q * r + x) == (q + 1) * r) by (nonlinear_arith);
        lemma_mod_multiples_basic(q + 1, r);
    }
}

} // verus!
