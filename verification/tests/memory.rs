//! Guest memory: the high mirror, loading, the reset-vector patch and
//! region mirroring.

use simple_whp_demo::mem::{wrap_offset, GuestMemory, MemError, GUEST_MEM_SIZE};

#[test]
fn write_is_visible_through_both_mappings() {
    let mut mem = GuestMemory::new();
    mem.write_byte(0x123, 0xAB);
    assert_eq!(mem.read_byte(0x123), 0xAB);
    assert_eq!(mem.read_byte(0x123 + 0x100000), 0xAB);
    mem.write_byte(0x100456, 0xCD);
    assert_eq!(mem.read_byte(0x456), 0xCD);
    assert_eq!(mem.read_byte(0x100456), 0xCD);
}

#[test]
fn fresh_memory_is_zero() {
    let mem = GuestMemory::new();
    assert_eq!(mem.read_byte(0), 0);
    assert_eq!(mem.read_byte(0x9FFFF), 0);
    assert_eq!(mem.read_byte(0xFFFFF), 0);
}

#[test]
fn load_at_places_bytes_and_reports_length() {
    let mut mem = GuestMemory::new();
    let data = vec![1u8, 2, 3, 4, 5];
    assert_eq!(mem.load_at(0x10100, &data), Ok(5));
    assert_eq!(mem.read_byte(0x10100), 1);
    assert_eq!(mem.read_byte(0x10104), 5);
    assert_eq!(mem.read_byte(0x10105), 0);
}

#[test]
fn load_at_rejects_overflow() {
    let mut mem = GuestMemory::new();
    let data = vec![0u8; 0x20];
    assert_eq!(
        mem.load_at(GUEST_MEM_SIZE - 0x10, &data),
        Err(MemError::OutOfRange)
    );
    // the memory is untouched
    assert_eq!(mem.read_byte((GUEST_MEM_SIZE - 0x10) as u64), 0);
}

#[test]
fn patch_reset_vector_writes_far_jump() {
    let mut mem = GuestMemory::new();
    mem.patch_reset_vector();
    assert_eq!(mem.read_byte(0xFFFF0), 0xEA);
    assert_eq!(mem.read_byte(0xFFFF1), 0x00);
    assert_eq!(mem.read_byte(0xFFFF2), 0x00);
    assert_eq!(mem.read_byte(0xFFFF3), 0x00);
    assert_eq!(mem.read_byte(0xFFFF4), 0xF0);
}

#[test]
fn mirror_region_replicates_firmware() {
    let mut mem = GuestMemory::new();
    let firmware: Vec<u8> = (0..0x100u32).map(|i| (i as u8) ^ 0x5A).collect();
    mem.load_at(0xF0000, &firmware).unwrap();
    mem.mirror_region(0xF0000, 0x100, 0x10000);
    for copy in 0..0x100 {
        for j in (0..0x100).step_by(37) {
            assert_eq!(
                mem.read_byte((0xF0000 + copy * 0x100 + j) as u64),
                (j as u8) ^ 0x5A
            );
        }
    }
    // the window end is respected
    assert_eq!(mem.read_byte(0xE0000), 0);
}

#[test]
fn mirror_region_twice_changes_nothing() {
    let mut mem = GuestMemory::new();
    let firmware: Vec<u8> = (0..0x180u32).map(|i| i as u8).collect();
    mem.load_at(0xF0000, &firmware).unwrap();
    mem.mirror_region(0xF0000, 0x180, 0x10000);
    let once = mem.read_region(0xF0000, 0x10000);
    mem.mirror_region(0xF0000, 0x180, 0x10000);
    let twice = mem.read_region(0xF0000, 0x10000);
    assert_eq!(once, twice);
}

#[test]
fn mirror_region_degenerate_sizes_change_nothing() {
    let mut mem = GuestMemory::new();
    let data = vec![7u8; 0x40];
    mem.load_at(0x1000, &data).unwrap();
    let before = mem.read_region(0, 0x2000);
    mem.mirror_region(0x1000, 0, 0x40);
    mem.mirror_region(0x1000, 0x40, 0x40);
    mem.mirror_region(0x1000, 0x80, 0x40);
    assert_eq!(mem.read_region(0, 0x2000), before);
}

#[test]
fn wrap_offset_wraps_per_byte() {
    assert_eq!(wrap_offset(0x100010, 0), 0x10);
    assert_eq!(wrap_offset(0xFFFFF, 1), 0);
    assert_eq!(wrap_offset(0x42, 3), 0x45);
    assert_eq!(wrap_offset(0x2FFFFE, 4), 2);
}
