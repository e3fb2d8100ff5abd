//! The port dispatcher: system port C, the speaker gate, the disk data
//! port, the CRTC index mask, the latched stub ports and the unknown-port
//! tracker.

use simple_whp_demo::bus::{assemble_in_bytes, Machine, PortInResult, PortOutResult};

fn in_value(m: &mut Machine, port: u16, now: u64) -> u32 {
    match m.port_in(port, 1, now) {
        PortInResult::Value(v) => v,
        other => panic!("expected a value from port {port:#x}, got {other:?}"),
    }
}

fn out_done(m: &mut Machine, port: u16, data: u32, now: u64) {
    assert_eq!(m.port_out(port, 1, data, now), PortOutResult::Done);
}

#[test]
fn sys_portc_selects_memory_nibble() {
    let mut m = Machine::new();
    // control bit 2 set: the low nibble of the memory nibble 18 (0x12)
    out_done(&mut m, 0x61, 0b0000_0100, 0);
    assert_eq!(in_value(&mut m, 0x62, 0), 0x02);
    // control zero: the high nibble
    out_done(&mut m, 0x61, 0b0000_0000, 0);
    assert_eq!(in_value(&mut m, 0x62, 0), 0x01);
    // control bit 1 set mirrors into bit 5
    out_done(&mut m, 0x61, 0b0000_0110, 0);
    assert_eq!(in_value(&mut m, 0x62, 0), 0x22);
}

#[test]
fn speaker_gate_rising_edge_beeps_at_pit_frequency() {
    let mut m = Machine::new();
    // load channel 2 with 2386 (0x0952): 1,193,182 / 2386 = 500 Hz
    out_done(&mut m, 0x43, 0xB6, 0);
    out_done(&mut m, 0x42, 0x52, 0);
    out_done(&mut m, 0x42, 0x09, 0);
    out_done(&mut m, 0x61, 0x00, 0);
    assert_eq!(m.port_out(0x61, 1, 0x03, 0), PortOutResult::Beep(500));
    // the speaker is already running: no new edge, no beep
    assert_eq!(m.port_out(0x61, 1, 0x03, 0), PortOutResult::Done);
    // dropping one control bit and raising it again beeps again
    out_done(&mut m, 0x61, 0x01, 0);
    assert_eq!(m.port_out(0x61, 1, 0x03, 0), PortOutResult::Beep(500));
}

#[test]
fn zero_reload_beeps_at_18_hz() {
    let mut m = Machine::new();
    // channel 2 never programmed: effective reload 65,536 -> 1,193,182 / 65,536 = 18 Hz
    out_done(&mut m, 0x61, 0x00, 0);
    assert_eq!(m.port_out(0x61, 1, 0x03, 0), PortOutResult::Beep(18));
}

#[test]
fn disk_bytes_come_back_after_a_full_wrap() {
    let mut m = Machine::new();
    let image: Vec<u8> = (0..512u32).map(|j| (j % 251) as u8).collect();
    m.disk.load(&image);
    // write 256 bytes 1, 2, ..., 255, 0
    for i in 0..256u32 {
        out_done(&mut m, 0xFF, (i + 1) & 0xFF, 0);
    }
    // the offset now sits past the written run: the next read returns the
    // 257th byte of the initial image
    assert_eq!(in_value(&mut m, 0xFF, 0), (256u32 % 251) as u32);
    // the rest of the image follows
    for j in 257..512u32 {
        assert_eq!(in_value(&mut m, 0xFF, 0), j % 251);
    }
    // after the full wrap the reads reach the written bytes, unchanged
    for i in 0..256u32 {
        assert_eq!(in_value(&mut m, 0xFF, 0), (i + 1) & 0xFF);
    }
}

#[test]
fn disk_write_then_read_round_trips_512_bytes() {
    let mut m = Machine::new();
    let ws: Vec<u8> = (0..512u32).map(|j| (j * 7 + 3) as u8).collect();
    for &b in &ws {
        out_done(&mut m, 0xFF, b as u32, 0);
    }
    for &b in &ws {
        assert_eq!(in_value(&mut m, 0xFF, 0), b as u32);
    }
}

#[test]
fn disk_multi_byte_access_assembles_little_endian() {
    let mut m = Machine::new();
    let mut image = vec![0u8; 512];
    image[0] = 0x78;
    image[1] = 0x56;
    image[2] = 0x34;
    image[3] = 0x12;
    m.disk.load(&image);
    match m.port_in(0xFF, 4, 0) {
        PortInResult::Value(v) => assert_eq!(v, 0x12345678),
        other => panic!("expected a value, got {other:?}"),
    }
    assert_eq!(m.disk.current_offset(), 4);
    // a two-byte write deposits both bytes
    assert_eq!(m.port_out(0xFF, 2, 0xBBAA, 0), PortOutResult::Done);
    assert_eq!(m.disk.data_at(4), 0xAA);
    assert_eq!(m.disk.data_at(5), 0xBB);
}

#[test]
fn crtc_index_is_masked_to_five_bits() {
    let mut m = Machine::new();
    out_done(&mut m, 0x3D4, 0xFF, 0);
    assert_eq!(in_value(&mut m, 0x3D4, 0), 0x1F);
    out_done(&mut m, 0x3D4, 0x2A, 0);
    assert_eq!(in_value(&mut m, 0x3D4, 0), 0x0A);
    // the data port stores into the indexed register
    out_done(&mut m, 0x3D5, 0xAB, 0);
    assert_eq!(in_value(&mut m, 0x3D5, 0), 0xAB);
    // the MDA controller is independent
    out_done(&mut m, 0x3B4, 0xE3, 0);
    assert_eq!(in_value(&mut m, 0x3B4, 0), 0x03);
    assert_eq!(in_value(&mut m, 0x3B5, 0), 0x00);
}

#[test]
fn latched_ports_read_back_their_byte() {
    let mut m = Machine::new();
    let pairs: &[(u16, u32)] = &[
        (0x0A, 0x11),
        (0x0B, 0x22),
        (0x0C, 0x33),
        (0x0D, 0x44),
        (0x81, 0x55),
        (0x3D8, 0x66),
        (0x3B8, 0x77),
        (0x3D9, 0x88),
        (0x3B9, 0x99),
        (0x3F2, 0xAA),
        (0x3F4, 0xBB),
        (0x3F5, 0xCC),
        (0x201, 0xDD),
        (0x210, 0xEE),
        (0x278, 0x12),
        (0x2FA, 0x34),
        (0x378, 0x56),
        (0x3BC, 0x78),
        (0x3FA, 0x9A),
    ];
    for &(port, val) in pairs {
        out_done(&mut m, port, val, 0);
    }
    for &(port, val) in pairs {
        assert_eq!(in_value(&mut m, port, 0), val, "port {port:#x}");
    }
    // only the low byte of a wide write is deposited
    assert_eq!(m.port_out(0x0A, 2, 0xABCD, 0), PortOutResult::Done);
    assert_eq!(in_value(&mut m, 0x0A, 0), 0xCD);
}

#[test]
fn dma_channel_ports_store_per_channel() {
    let mut m = Machine::new();
    for p in 0u16..8 {
        out_done(&mut m, p, 0x40 + p as u32, 0);
    }
    for p in 0u16..8 {
        assert_eq!(in_value(&mut m, p, 0), 0x40 + p as u32);
    }
}

#[test]
fn pic_ports_collapse_to_the_mask_registers() {
    let mut m = Machine::new();
    out_done(&mut m, 0x21, 0xFE, 0);
    assert_eq!(in_value(&mut m, 0x21, 0), 0xFE);
    // the command port stores the mask too, but reads as 0
    out_done(&mut m, 0x20, 0x55, 0);
    assert_eq!(in_value(&mut m, 0x20, 0), 0);
    assert_eq!(in_value(&mut m, 0x21, 0), 0x55);
    out_done(&mut m, 0xA1, 0x7F, 0);
    assert_eq!(in_value(&mut m, 0xA1, 0), 0x7F);
}

#[test]
fn keyboard_port_defers_to_the_caller() {
    let mut m = Machine::new();
    assert_eq!(m.port_in(0x60, 1, 0), PortInResult::Keyboard);
    assert_eq!(in_value(&mut m, 0x64, 0), 0);
    // keyboard writes are accepted and ignored
    out_done(&mut m, 0x60, 0x12, 0);
    out_done(&mut m, 0x64, 0x34, 0);
}

#[test]
fn stub_ports_accept_and_read_zero() {
    let mut m = Machine::new();
    for &p in &[0x08u16, 0x63, 0x80, 0x83, 0xB8, 0x213] {
        out_done(&mut m, p, 0xFF, 0);
        assert_eq!(in_value(&mut m, p, 0), 0, "port {p:#x}");
    }
}

#[test]
fn second_consecutive_unknown_in_terminates() {
    let mut m = Machine::new();
    assert_eq!(m.port_in(0x1234, 1, 0), PortInResult::Unimplemented);
    assert_eq!(m.port_in(0x1234, 1, 0), PortInResult::Terminate);
}

#[test]
fn second_consecutive_unknown_out_terminates() {
    let mut m = Machine::new();
    assert_eq!(m.port_out(0x0777, 1, 0, 0), PortOutResult::Unimplemented);
    assert_eq!(m.port_out(0x0777, 1, 0, 0), PortOutResult::Terminate);
}

#[test]
fn alternating_unknown_ports_do_not_terminate() {
    let mut m = Machine::new();
    assert_eq!(m.port_in(0x1234, 1, 0), PortInResult::Unimplemented);
    assert_eq!(m.port_in(0x4321, 1, 0), PortInResult::Unimplemented);
    assert_eq!(m.port_in(0x1234, 1, 0), PortInResult::Unimplemented);
    assert_eq!(m.port_in(0x1234, 1, 0), PortInResult::Terminate);
}

#[test]
fn assemble_in_bytes_is_little_endian() {
    assert_eq!(assemble_in_bytes(&vec![]), 0);
    assert_eq!(assemble_in_bytes(&vec![0x12]), 0x12);
    assert_eq!(assemble_in_bytes(&vec![0x34, 0x12]), 0x1234);
    assert_eq!(assemble_in_bytes(&vec![0x78, 0x56, 0x34, 0x12]), 0x12345678);
}
