//! Boot decisions: which firmware and program the command line selects,
//! where they load, and what happens when the default firmware is missing.

use vstd::prelude::*;

verus! {

/// Guest physical load offset of the program (CS:0100 with CS = 0x1000).
pub const PROGRAM_LOAD_OFFSET: usize = 0x10100;

/// Guest physical load offset of the firmware.
pub const FIRMWARE_LOAD_OFFSET: usize = 0xF0000;

/// Size of the firmware shadow region 0xF0000..0xFFFFF; firmware smaller
/// than this is replicated to fill it.
pub const FIRMWARE_REGION_SIZE: usize = 0x10000;

/// Whether `s` ends in `suffix`.
pub open spec fn ends_with(s: Seq<u8>, suffix: Seq<u8>) -> bool {
    s.len() >= suffix.len() && s.subrange(s.len() - suffix.len(), s.len() as int) == suffix
}

/// The bytes of ".bin".
pub open spec fn bin_suffix() -> Seq<u8> {
    seq![46u8, 98u8, 105u8, 110u8]
}

/// The bytes of ".fw".
pub open spec fn fw_suffix() -> Seq<u8> {
    seq![46u8, 102u8, 119u8]
}

/// A command-line argument names a firmware image when it ends in ".bin"
/// or ".fw".
pub open spec fn is_firmware_name(s: Seq<u8>) -> bool {
    ends_with(s, bin_suffix()) || ends_with(s, fw_suffix())
}

/// Whether the byte string `s` ends in `suffix`.
pub fn ends_with_bytes(s: &Vec<u8>, suffix: &Vec<u8>) -> (r: bool)
    ensures
        r == ends_with(s@, suffix@),
{
    if s.len() < suffix.len() {
        assert(!ends_with(s@, suffix@));
        return false;
    }
    let start: usize = s.len() - suffix.len();
    let mut j: usize = 0;
    while j < suffix.len()
        invariant
            suffix@.len() <= s@.len(),
            s@.len() <= usize::MAX,
            start == s@.len() - suffix@.len(),
            j <= suffix@.len(),
            forall|k: int| 0 <= k < j ==> s@[start + k] == suffix@[k],
        decreases suffix@.len() - j,
    {
        assert(start + j < s@.len());
        if s[start + j] != suffix[j] {
            assert(s@.subrange(start as int, s@.len() as int)[j as int] != suffix@[j as int]);
            return false;
        }
        j += 1;
    }
    proof {
        assert(s@.subrange(start as int, s@.len() as int) =~= suffix@);
    }
    true
}

/// The bytes of ".bin", as a value.
pub fn bin_suffix_bytes() -> (v: Vec<u8>)
    ensures
        v@ == bin_suffix(),
{
    let mut v: Vec<u8> = Vec::new();
    v.push(46);
    v.push(98);
    v.push(105);
    v.push(110);
    proof {
        assert(v@ =~= bin_suffix());
    }
    v
}

/// The bytes of ".fw", as a value.
pub fn fw_suffix_bytes() -> (v: Vec<u8>)
    ensures
        v@ == fw_suffix(),
{
    let mut v: Vec<u8> = Vec::new();
    v.push(46);
    v.push(102);
    v.push(119);
    proof {
        assert(v@ =~= fw_suffix());
    }
    v
}

/// Whether a command-line argument names a firmware image.
pub fn is_firmware_name_bytes(name: &Vec<u8>) -> (r: bool)
    ensures
        r == is_firmware_name(name@),
{
    let bin = bin_suffix_bytes();
    let fw = fw_suffix_bytes();
    ends_with_bytes(name, &bin) || ends_with_bytes(name, &fw)
}

/// What the command line selects to boot.
#[derive(Debug)]
pub enum BootSelection {
    /// No argument: the default firmware and the default program.
    Defaults,
    /// One argument naming a firmware image: that firmware, no program.
    FirmwareOnly(Vec<u8>),
    /// One argument naming a program: that program with the default
    /// firmware.
    ProgramWithDefaultFirmware(Vec<u8>),
    /// Two arguments: the named program and the named firmware.
    Explicit {
        /// The program image name.
        program: Vec<u8>,
        /// The firmware image name.
        firmware: Vec<u8>,
    },
}

/// Copy a byte string.
fn clone_bytes(v: &Vec<u8>) -> (r: Vec<u8>)
    ensures
        r@ == v@,
{
    let mut r: Vec<u8> = Vec::new();
    let mut j: usize = 0;
    while j < v.len()
        invariant
            j <= v@.len(),
            r@.len() == j,
            forall|k: int| 0 <= k < j ==> r@[k] == v@[k],
        decreases v@.len() - j,
    {
        r.push(v[j]);
        j += 1;
    }
    proof {
        assert(r@ =~= v@);
    }
    r
}

/// Decide what to boot from the full argument vector (`args[0]` is the
/// program's own name): no argument boots the defaults; a single argument
/// is a firmware image if it ends in ".bin" or ".fw" and a program
/// otherwise; two arguments name the program and the firmware in that
/// order.
pub fn select_boot(args: &Vec<Vec<u8>>) -> (s: BootSelection)
    ensures
        args@.len() <= 1 ==> s is Defaults,
        args@.len() == 2 && is_firmware_name(args@[1]@) ==> (s
            matches BootSelection::FirmwareOnly(f) && f@ == args@[1]@),
        args@.len() == 2 && !is_firmware_name(args@[1]@) ==> (s
            matches BootSelection::ProgramWithDefaultFirmware(p) && p@ == args@[1]@),
        args@.len() >= 3 ==> (s matches BootSelection::Explicit { program, firmware } && program@
            == args@[1]@ && firmware@ == args@[2]@),
{
    if args.len() >= 3 {
        BootSelection::Explicit {
            program: clone_bytes(&args[1]),
            firmware: clone_bytes(&args[2]),
        }
    } else if args.len() == 2 {
        if is_firmware_name_bytes(&args[1]) {
            BootSelection::FirmwareOnly(clone_bytes(&args[1]))
        } else {
            BootSelection::ProgramWithDefaultFirmware(clone_bytes(&args[1]))
        }
    } else {
        BootSelection::Defaults
    }
}

/// What to do when the firmware image cannot be read.
#[derive(Clone, Copy, Debug, PartialEq, Eq, Structural)]
pub enum FirmwareFallback {
    /// The default firmware was asked for: load the bundled stub instead
    /// and patch the reset vector to enter it at F000:0000.
    UseFallbackStub,
    /// A firmware was named explicitly: abort.
    Abort,
}

/// Decide how to handle a firmware load failure: only the default firmware
/// falls back to the bundled stub.
pub fn on_firmware_load_failure(used_default_firmware: bool) -> (r: FirmwareFallback)
    ensures
        r == (if used_default_firmware {
            FirmwareFallback::UseFallbackStub
        } else {
            FirmwareFallback::Abort
        }),
{
    if used_default_firmware {
        FirmwareFallback::UseFallbackStub
    } else {
        FirmwareFallback::Abort
    }
}

} // verus!
