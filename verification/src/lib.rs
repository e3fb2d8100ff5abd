//! A verified model of a minimal 8088/PC-compatible virtual machine core:
//! the 1 MiB guest address space with its high-memory mirror, the PIT
//! down-counters, the CGA text buffer with its guest-RAM shadow, the legacy
//! device latches, the port-I/O dispatcher, and the run-loop decisions.
//!
//! The host hypervisor, the window, the audio sink and all file handling are
//! external collaborators; they live outside this crate and exchange plain
//! values with it.

pub mod mem;
pub mod pit;
pub mod cga;
pub mod disk;
pub mod crtc;
pub mod devices;
pub mod bus;
pub mod vcpu;
pub mod vm;
pub mod boot;
pub mod render;
