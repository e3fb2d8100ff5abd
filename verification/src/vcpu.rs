//! Run-loop decisions: how each vCPU exit is handled. The host service runs
//! the processor and reports an exit; the loop emulates port I/O, skips HLT
//! by advancing the instruction pointer (interrupts are never injected, so
//! HLT must not park the guest), and stops on anything else.

use vstd::prelude::*;

verus! {

/// A classified vCPU exit.
#[derive(Clone, Copy, Debug, PartialEq, Eq, Structural)]
pub enum VcpuExit {
    /// The guest executed IN or OUT.
    IoPort,
    /// The guest executed HLT.
    Halt,
    /// Any other exit, with the host's raw reason code.
    Other(u64),
}

/// What the run loop does with an exit.
#[derive(Clone, Copy, Debug, PartialEq, Eq, Structural)]
pub enum RunAction {
    /// Hand the exit to the host instruction emulator.
    EmulateIo,
    /// Advance the instruction pointer past the HLT and resume.
    SkipHalt,
    /// Leave the run loop.
    Stop,
}

/// The action an exit demands.
pub fn action_for_exit(exit: &VcpuExit) -> (a: RunAction)
    ensures
        a == (match exit {
            VcpuExit::IoPort => RunAction::EmulateIo,
            VcpuExit::Halt => RunAction::SkipHalt,
            VcpuExit::Other(_) => RunAction::Stop,
        }),
{
    match exit {
        VcpuExit::IoPort => RunAction::EmulateIo,
        VcpuExit::Halt => RunAction::SkipHalt,
        VcpuExit::Other(_) => RunAction::Stop,
    }
}

/// The instruction pointer to resume at after a HLT exit: one past the
/// 1-byte HLT opcode.
pub fn halt_resume_rip(rip: u64) -> (r: u64)
    requires
        rip < u64::MAX,
    ensures
        r == rip + 1,
{
    rip + 1
}

/// Whether the emulator status word reports the instruction as complete;
/// anything else is logged and emulation continues.
pub fn emulation_complete(status: u32) -> (c: bool)
    ensures
        c == (status == 1),
{
    status == 1
}

} // verus!
