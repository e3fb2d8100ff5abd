//! The PIT: lazy wall-clock advance, the 65,536 wrap of a zero reload, and
//! the control/read/write protocol, all driven through the port dispatcher.

use simple_whp_demo::bus::{Machine, PortInResult, PortOutResult};

fn in_value(m: &mut Machine, port: u16, now: u64) -> u32 {
    match m.port_in(port, 1, now) {
        PortInResult::Value(v) => v,
        other => panic!("expected a value from port {port:#x}, got {other:?}"),
    }
}

fn out_done(m: &mut Machine, port: u16, data: u32, now: u64) {
    assert_eq!(m.port_out(port, 1, data, now), PortOutResult::Done);
}

/// Latch channel 0 and read its 16-bit counter, low byte then high byte.
fn latched_count(m: &mut Machine, now: u64) -> u32 {
    out_done(m, 0x43, 0x00, now);
    let lo = in_value(m, 0x40, now);
    let hi = in_value(m, 0x40, now);
    lo | (hi << 8)
}

#[test]
fn counter_decrements_by_elapsed_ticks_modulo_reload() {
    let mut m = Machine::new();
    let t0: u64 = 1_000;
    // first dispatch only starts the clock; the counter still reads 65,536
    // (stored 0 -> low and high bytes both 0)
    assert_eq!(latched_count(&mut m, t0), 0);
    // one second later: 1,193,182 ticks; from 65,536 with reload 65,536 the
    // counter is 65,536 - ((1,193,182 - 65,536) mod 65,536) = 52,002
    let t1 = t0 + 1_000_000_000;
    assert_eq!(latched_count(&mut m, t1), 52_002);
}

#[test]
fn zero_reload_wraps_at_65536_ticks() {
    let mut m = Machine::new();
    assert_eq!(latched_count(&mut m, 0), 0);
    // 54,924,564 ns = 65,535 ticks: one short of the wrap
    assert_eq!(latched_count(&mut m, 54_924_564), 1);

    let mut m2 = Machine::new();
    assert_eq!(latched_count(&mut m2, 0), 0);
    // 54,925,402 ns = 65,536 ticks: a full wrap, back to the stored 0
    assert_eq!(latched_count(&mut m2, 54_925_402), 0);
}

#[test]
fn counter_write_low_high_sets_reload_and_count() {
    let mut m = Machine::new();
    // channel 2, access low-then-high, mode 3
    out_done(&mut m, 0x43, 0xB6, 0);
    out_done(&mut m, 0x42, 0x52, 0);
    out_done(&mut m, 0x42, 0x09, 0);
    // latch channel 2 and read back: the full write copied 0x0952 into the
    // live counter
    out_done(&mut m, 0x43, 0x80, 0);
    let lo = in_value(&mut m, 0x42, 0);
    let hi = in_value(&mut m, 0x42, 0);
    assert_eq!(lo | (hi << 8), 0x0952);
}

#[test]
fn low_byte_write_keeps_high_byte_of_reload() {
    let mut m = Machine::new();
    // program channel 0 with access low-then-high and load 0x0952
    out_done(&mut m, 0x43, 0x36, 0);
    out_done(&mut m, 0x40, 0x52, 0);
    out_done(&mut m, 0x40, 0x09, 0);
    // switch to access low-byte-only and write 0x11: the high byte 0x09 of
    // the reload survives
    out_done(&mut m, 0x43, 0x16, 0);
    out_done(&mut m, 0x40, 0x11, 0);
    assert_eq!(latched_count(&mut m, 0) & 0xFF00, 0x0900);
    assert_eq!(latched_count(&mut m, 0) & 0x00FF, 0x0011);
}

#[test]
fn high_byte_access_reads_only_the_high_half() {
    let mut m = Machine::new();
    // program channel 0 with access low-then-high and load 0x0952
    out_done(&mut m, 0x43, 0x36, 0);
    out_done(&mut m, 0x40, 0x52, 0);
    out_done(&mut m, 0x40, 0x09, 0);
    // switch to access high-byte-only: reads return 0x09 every time
    out_done(&mut m, 0x43, 0x26, 0);
    assert_eq!(in_value(&mut m, 0x40, 0), 0x09);
    assert_eq!(in_value(&mut m, 0x40, 0), 0x09);
    // a high-byte write replaces only the high half: reload 0x0852
    out_done(&mut m, 0x40, 0x08, 0);
    assert_eq!(in_value(&mut m, 0x40, 0), 0x08);
}

#[test]
fn control_port_reads_back_last_command() {
    let mut m = Machine::new();
    out_done(&mut m, 0x43, 0xB6, 0);
    assert_eq!(in_value(&mut m, 0x43, 0), 0xB6);
}

#[test]
fn latch_holds_value_while_counter_runs() {
    let mut m = Machine::new();
    assert_eq!(latched_count(&mut m, 0), 0);
    // latch at t1, then read the two halves much later: the latched value
    // is still the one captured at t1
    out_done(&mut m, 0x43, 0x00, 54_924_564);
    let lo = in_value(&mut m, 0x40, 2_000_000_000);
    let hi = in_value(&mut m, 0x40, 2_000_000_000);
    assert_eq!(lo | (hi << 8), 1);
}
