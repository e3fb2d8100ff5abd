//! The CGA text model: printing and scrolling, the guest-RAM resync, the
//! retrace status bit, and the rasterizer with its font and palette.

use font8x8::legacy::BASIC_LEGACY;
use simple_whp_demo::bus::{Machine, PortInResult};
use simple_whp_demo::cga::{row_text, words_from_bytes, CgaText};
use simple_whp_demo::mem::GuestMemory;
use simple_whp_demo::render::{palette_rgb, render_frame};

#[test]
fn put_char_writes_and_advances() {
    let mut c = CgaText::new();
    c.put_char(b'A');
    c.put_char(b'B');
    assert_eq!(c.cell_at(0), 0x0700 | b'A' as u16);
    assert_eq!(c.cell_at(1), 0x0700 | b'B' as u16);
    assert_eq!(c.cursor_index(), 2);
}

#[test]
fn carriage_return_and_line_feed_move_cursor() {
    let mut c = CgaText::new();
    c.put_char(b'A');
    c.put_char(b'B');
    c.put_char(b'\r');
    assert_eq!(c.cursor_index(), 0);
    c.put_char(b'\n');
    assert_eq!(c.cursor_index(), 80);
}

#[test]
fn write_at_last_cell_scrolls_one_row() {
    let mut c = CgaText::new();
    // mark the start of row 1 so the scroll is observable
    c.put_char(b'\n');
    c.put_char(b'Q');
    // walk the cursor to the last cell
    for _ in 0..(2000 - 82) {
        c.put_char(b'.');
    }
    assert_eq!(c.cursor_index(), 1999);
    c.put_char(b'Z');
    // exactly one row scrolled: row 1 became row 0, the last row is blank
    // but for the Z that moved up with it, and the cursor sits at 1920
    assert_eq!(c.cursor_index(), 1920);
    assert_eq!(c.cell_at(0), 0x0700 | b'Q' as u16);
    assert_eq!(c.cell_at(1919), 0x0700 | b'Z' as u16);
    assert_eq!(c.cell_at(1999), 0x0720);
    assert_eq!(c.cell_at(1920), 0x0720);
}

#[test]
fn line_feed_at_bottom_row_scrolls_in_place() {
    let mut c = CgaText::new();
    c.put_char(b'R');
    // move the cursor into the bottom row; line feeds keep the column
    for _ in 0..24 {
        c.put_char(b'\n');
    }
    assert_eq!(c.cursor_index(), 1921);
    c.put_char(b'S');
    assert_eq!(c.cursor_index(), 1922);
    // a further line feed scrolls one row and leaves the cursor where it is
    c.put_char(b'\n');
    assert_eq!(c.cursor_index(), 1922);
    // the marker from row 0 is gone, the one from the old bottom row moved up
    assert_eq!(c.cell_at(0), 0x0720);
    assert_eq!(c.cell_at(1841), 0x0700 | b'S' as u16);
    assert_eq!(c.cell_at(1921), 0x0720);
}

#[test]
fn hello_world_spells_out_in_light_gray() {
    let mut c = CgaText::new();
    for &ch in b"Hello World" {
        c.put_char(ch);
    }
    let expected = b"Hello World";
    for i in 0..11 {
        assert_eq!(c.cell_at(i), 0x0700 | expected[i] as u16);
    }
    assert_eq!(c.cell_at(11), 0x0720);
}

#[test]
fn sync_matches_buffer_to_guest_ram() {
    let mut m = Machine::new();
    let mut mem = GuestMemory::new();
    mem.write_byte(0xB8000, b'H');
    mem.write_byte(0xB8001, 0x07);
    mem.write_byte(0xB8002, b'i');
    mem.write_byte(0xB8003, 0x1F);
    let dirty = m.sync_cga_with_memory(&mem);
    assert!(dirty);
    assert_eq!(m.cga.cell_at(0), 0x0700 | b'H' as u16);
    assert_eq!(m.cga.cell_at(1), 0x1F00 | b'i' as u16);
    // the rest of the region is zero in RAM, and the buffer follows it
    assert_eq!(m.cga.cell_at(2), 0);
    assert_eq!(m.cga.cell_at(1999), 0);
    // a second scan finds nothing new
    assert!(!m.sync_cga_with_memory(&mem));
    // a further RAM write is picked up
    mem.write_byte(0xB8002, b'o');
    assert!(m.sync_cga_with_memory(&mem));
    assert_eq!(m.cga.cell_at(1), 0x1F00 | b'o' as u16);
}

#[test]
fn retrace_bit_flips_only_after_16_ms() {
    let mut m = Machine::new();
    let t0: u64 = 1_000;
    let poll = |m: &mut Machine, now: u64| -> u32 {
        match m.port_in(0x3DA, 1, now) {
            PortInResult::Value(v) => v,
            other => panic!("expected a status value, got {other:?}"),
        }
    };
    // the first poll starts the clock
    assert_eq!(poll(&mut m, t0), 0);
    // polls within the 16 ms window leave bit 3 alone
    assert_eq!(poll(&mut m, t0 + 1_000_000), 0);
    assert_eq!(poll(&mut m, t0 + 15_999_999), 0);
    // at 16 ms the bit toggles
    assert_eq!(poll(&mut m, t0 + 16_000_000), 0x08);
    // and holds within the next window
    assert_eq!(poll(&mut m, t0 + 16_500_000), 0x08);
    // a full further period toggles it back
    assert_eq!(poll(&mut m, t0 + 32_000_000), 0);
}

#[test]
fn words_pair_bytes_little_endian() {
    let bytes = vec![0x34u8, 0x12, 0xFF, 0x00, 0x01, 0x80];
    assert_eq!(words_from_bytes(&bytes), vec![0x1234u16, 0x00FF, 0x8001]);
}

#[test]
fn row_text_shows_low_bytes_with_nul_as_space() {
    let mut cells = vec![0u16; 2000];
    cells[0] = 0x0700 | b'O' as u16;
    cells[1] = 0x0700 | b'K' as u16;
    let row = row_text(&cells, 0);
    assert_eq!(row.len(), 80);
    assert_eq!(&row[0..2], b"OK");
    assert_eq!(row[2], b' ');
}

#[test]
fn rendered_glyph_matches_the_font() {
    let mut cells = vec![0x0720u16; 2000];
    // 'A', white on black, in the top-left cell
    cells[0] = 0x0F00 | b'A' as u16;
    let fb = render_frame(&cells);
    assert_eq!(fb.len(), 640 * 200);
    let glyph = BASIC_LEGACY[b'A' as usize];
    let mut any_set = false;
    for y in 0..8 {
        for x in 0..8 {
            let expected = if (glyph[y] >> (7 - x)) & 1 == 1 {
                any_set = true;
                0x0F
            } else {
                0x00
            };
            assert_eq!(fb[y * 640 + x], expected, "pixel ({x},{y})");
        }
    }
    assert!(any_set, "the font must draw something for 'A'");
}

#[test]
fn blink_flag_suppresses_the_foreground() {
    let mut cells = vec![0x0720u16; 2000];
    cells[0] = 0x8F00 | b'A' as u16;
    let fb = render_frame(&cells);
    for y in 0..8 {
        for x in 0..8 {
            assert_eq!(fb[y * 640 + x], 0x00);
        }
    }
}

#[test]
fn background_bits_color_the_cell() {
    let mut cells = vec![0x0720u16; 2000];
    // blue background (attr 0x17), space glyph in cell at row 1, column 2
    cells[80 + 2] = 0x1700 | b' ' as u16;
    let fb = render_frame(&cells);
    for y in 0..8 {
        for x in 0..8 {
            assert_eq!(fb[(8 + y) * 640 + 16 + x], 0x01);
        }
    }
}

#[test]
fn palette_holds_the_cga_colors() {
    assert_eq!(palette_rgb(0), (0, 0, 0));
    assert_eq!(palette_rgb(1), (0, 0, 170));
    assert_eq!(palette_rgb(6), (170, 85, 0));
    assert_eq!(palette_rgb(7), (170, 170, 170));
    assert_eq!(palette_rgb(8), (85, 85, 85));
    assert_eq!(palette_rgb(15), (255, 255, 255));
}
