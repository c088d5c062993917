//! An instruction-set simulator for a 32-bit RISC load/store architecture.
//!
//! The crate is organised around three verified components: the binary
//! instruction decoder ([`instruction`]), the machine state with its
//! segmented memory model ([`memory`]), and the execution engine that
//! applies one instruction per cycle ([`processor`]).  The environment-call
//! dispatcher ([`syscall`]) maps service codes onto their effects, and
//! [`machine`] drives the fetch-decode-execute loop.

pub mod instruction;
pub mod machine;
pub mod memory;
pub mod processor;
pub mod syscall;
pub mod util;
