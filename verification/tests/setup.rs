//! Boot decisions, the initial register bank, the memory map and the
//! run-loop decisions.

use simple_whp_demo::boot::{
    is_firmware_name_bytes, on_firmware_load_failure, select_boot, BootSelection,
    FirmwareFallback, FIRMWARE_LOAD_OFFSET, FIRMWARE_REGION_SIZE, PROGRAM_LOAD_OFFSET,
};
use simple_whp_demo::vcpu::{
    action_for_exit, emulation_complete, halt_resume_rip, RunAction, VcpuExit,
};
use simple_whp_demo::vm::{guest_memory_mappings, initial_registers, RegInit};

#[test]
fn firmware_names_end_in_bin_or_fw() {
    assert!(is_firmware_name_bytes(&b"bios.bin".to_vec()));
    assert!(is_firmware_name_bytes(&b"ivt.fw".to_vec()));
    assert!(!is_firmware_name_bytes(&b"hello.com".to_vec()));
    assert!(!is_firmware_name_bytes(&b"bin".to_vec()));
    assert!(!is_firmware_name_bytes(&b"".to_vec()));
}

#[test]
fn no_arguments_boot_the_defaults() {
    assert!(matches!(select_boot(&vec![]), BootSelection::Defaults));
    assert!(matches!(
        select_boot(&vec![b"emu".to_vec()]),
        BootSelection::Defaults
    ));
}

#[test]
fn one_argument_is_firmware_or_program_by_suffix() {
    match select_boot(&vec![b"emu".to_vec(), b"rom.bin".to_vec()]) {
        BootSelection::FirmwareOnly(f) => assert_eq!(f, b"rom.bin".to_vec()),
        other => panic!("expected a firmware-only boot, got {other:?}"),
    }
    match select_boot(&vec![b"emu".to_vec(), b"game.com".to_vec()]) {
        BootSelection::ProgramWithDefaultFirmware(p) => assert_eq!(p, b"game.com".to_vec()),
        other => panic!("expected a program boot, got {other:?}"),
    }
}

#[test]
fn two_arguments_name_program_then_firmware() {
    match select_boot(&vec![
        b"emu".to_vec(),
        b"prog.com".to_vec(),
        b"rom.bin".to_vec(),
    ]) {
        BootSelection::Explicit { program, firmware } => {
            assert_eq!(program, b"prog.com".to_vec());
            assert_eq!(firmware, b"rom.bin".to_vec());
        }
        other => panic!("expected an explicit boot, got {other:?}"),
    }
}

#[test]
fn only_the_default_firmware_falls_back_to_the_stub() {
    assert_eq!(
        on_firmware_load_failure(true),
        FirmwareFallback::UseFallbackStub
    );
    assert_eq!(on_firmware_load_failure(false), FirmwareFallback::Abort);
}

#[test]
fn load_offsets_match_the_memory_map() {
    assert_eq!(PROGRAM_LOAD_OFFSET, 0x10100);
    assert_eq!(FIRMWARE_LOAD_OFFSET, 0xF0000);
    assert_eq!(FIRMWARE_REGION_SIZE, 0x10000);
}

#[test]
fn initial_register_bank_holds_the_reset_state() {
    let v = initial_registers();
    assert_eq!(v.len(), 40);
    assert_eq!(v[0], RegInit::Gp(0)); // RAX
    assert_eq!(v[4], RegInit::Gp(0xFFF0)); // RSP
    assert_eq!(v[16], RegInit::Gp(0xFFF0)); // RIP
    assert_eq!(v[17], RegInit::Gp(0x2)); // RFLAGS
    assert_eq!(
        v[19],
        RegInit::Seg { base: 0xF0000, limit: 0xFFFF, selector: 0xF000, attributes: 0x9B }
    ); // CS
    assert_eq!(
        v[21],
        RegInit::Seg { base: 0, limit: 0xFFFF, selector: 0, attributes: 0x93 }
    ); // DS
    assert_eq!(
        v[24],
        RegInit::Seg { base: 0, limit: 0xFFFF, selector: 0, attributes: 0x82 }
    ); // LDTR
    assert_eq!(v[26], RegInit::Table { base: 0, limit: 0xFFFF }); // IDTR
    assert_eq!(v[28], RegInit::Gp(0x10)); // CR0
    assert_eq!(v[36], RegInit::Gp(0xFFFF0FF0)); // DR6
    assert_eq!(v[37], RegInit::Gp(0x400)); // DR7
    assert_eq!(v[38], RegInit::Gp(1)); // XCR0
    assert_eq!(v[39], RegInit::Fp { control: 0x40, status: 0, tag: 0x55 });
}

#[test]
fn guest_memory_maps_twice() {
    let maps = guest_memory_mappings(0x100000);
    assert_eq!(maps, vec![(0, 0x100000), (0x100000, 0x100000)]);
}

#[test]
fn exits_map_to_run_actions() {
    assert_eq!(action_for_exit(&VcpuExit::IoPort), RunAction::EmulateIo);
    assert_eq!(action_for_exit(&VcpuExit::Halt), RunAction::SkipHalt);
    assert_eq!(action_for_exit(&VcpuExit::Other(0x42)), RunAction::Stop);
}

#[test]
fn halt_skips_the_one_byte_opcode() {
    assert_eq!(halt_resume_rip(0xFFF0), 0xFFF1);
}

#[test]
fn emulator_status_one_means_complete() {
    assert!(emulation_complete(1));
    assert!(!emulation_complete(0));
    assert!(!emulation_complete(0x80000021));
}
