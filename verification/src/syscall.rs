//! The environment-call dispatcher: maps small integer service codes, with
//! arguments passed in registers, onto host-level effects.
//!
//! State changes (heap allocation and release) are applied here; host-side
//! effects (console output, process termination) are described by the
//! returned [`ServiceOutcome`] and performed by the embedder.

use vstd::prelude::*;

use crate::memory::alloc_start;
use crate::memory::can_alloc;
use crate::memory::free_result;
use crate::memory::MemModel;
use crate::memory::Memory;
use crate::memory::SegModel;

verus! {

/// What a dispatched service call asks of the host, beside the state
/// change already applied.
#[derive(Clone, Copy, Debug, PartialEq, Eq, Structural)]
pub enum ServiceOutcome {
    /// Terminate the process with the given exit status.
    Terminate { status: i32 },
    /// Print the argument as a signed integer; the result code is 0.
    PrintInt { value: i32 },
    /// Print the character in the argument's low byte; the result code is 1.
    PutChar { byte: u8 },
    /// Heap memory was allocated; the result code is its address, or 0 when
    /// the request cannot fit the 32-bit address space.
    Allocated { address: u32 },
    /// A heap release was handled: the status byte is 0 on success, 1 for
    /// a persistent segment or an unknown address.
    Released { code: u8 },
    /// An unrecognized service code; the sentinel result is -1.
    UnknownService,
}

/// The result code a service call reports back to the simulated program.
pub open spec fn outcome_code(o: ServiceOutcome) -> i32 {
    match o {
        ServiceOutcome::Terminate { status } => status,
        ServiceOutcome::PrintInt { .. } => 0,
        ServiceOutcome::PutChar { .. } => 1,
        ServiceOutcome::Allocated { address } => address as i32,
        ServiceOutcome::Released { code } => code as i32,
        ServiceOutcome::UnknownService => -1i32,
    }
}

/// What dispatching a service call does to the machine state, and the
/// outcome it reports.
pub open spec fn call_spec(m: MemModel, code: i32, args: Seq<i32>) -> (MemModel, ServiceOutcome)
    recommends
        args.len() == 7,
{
    if code == 500 {
        (m, ServiceOutcome::Terminate { status: args[0] })
    } else if code == 501 {
        (m, ServiceOutcome::PrintInt { value: args[0] })
    } else if code == 502 {
        (m, ServiceOutcome::PutChar { byte: (((args[0] as u32) % 0x100) as u8) })
    } else if code == 503 {
        if args[0] >= 0 && can_alloc(m, args[0] as int) {
            (
                MemModel {
                    segs: m.segs.push(
                        SegModel {
                            start: alloc_start(m),
                            size: args[0] as int,
                            content: Seq::new(args[0] as nat, |k: int| 0u8),
                            persistent: false,
                        },
                    ),
                    ..m
                },
                ServiceOutcome::Allocated { address: alloc_start(m) as u32 },
            )
        } else {
            (m, ServiceOutcome::Allocated { address: 0 })
        }
    } else if code == 504 {
        let r = free_result(m, (args[0] as u32) as int);
        (r.0, ServiceOutcome::Released { code: r.1 })
    } else {
        (m, ServiceOutcome::UnknownService)
    }
}

/// The environment-call dispatcher.
pub struct Syscall;

impl Syscall {
    /// Reports the result code of an outcome, as handed back to the
    /// simulated program.
    pub fn result_code(o: ServiceOutcome) -> (r: i32)
        ensures
            r == outcome_code(o),
    {
        match o {
            ServiceOutcome::Terminate { status } => status,
            ServiceOutcome::PrintInt { .. } => 0,
            ServiceOutcome::PutChar { .. } => 1,
            ServiceOutcome::Allocated { address } => address as i32,
            ServiceOutcome::Released { code } => code as i32,
            ServiceOutcome::UnknownService => -1,
        }
    }

    /// Dispatches one service call: terminate, print an integer, put a
    /// character, allocate heap memory, or release it.  An unrecognized
    /// code reports a sentinel failure rather than aborting; so does an
    /// allocation request that cannot fit the 32-bit address space.
    pub fn call(mem: &mut Memory, code: i32, args: [i32; 7]) -> (r: ServiceOutcome)
        requires
            old(mem).wf(),
        ensures
            final(mem).wf(),
            ({
                let (m2, o) = call_spec(old(mem)@, code, args@);
                final(mem)@ == m2 && r == o
            }),
    {
        if code == 500 {
            ServiceOutcome::Terminate { status: args[0] }
        } else if code == 501 {
            ServiceOutcome::PrintInt { value: args[0] }
        } else if code == 502 {
            let x: u32 = args[0] as u32;
            ServiceOutcome::PutChar { byte: (x % 0x100) as u8 }
        } else if code == 503 {
            if args[0] >= 0 {
                let size: usize = args[0] as usize;
                if mem.can_allocate(size) {
                    let a: u32 = mem.malloc(size, 0);
                    ServiceOutcome::Allocated { address: a }
                } else {
                    ServiceOutcome::Allocated { address: 0 }
                }
            } else {
                ServiceOutcome::Allocated { address: 0 }
            }
        } else if code == 504 {
            let st: u8 = mem.free(args[0] as u32);
            ServiceOutcome::Released { code: st }
        } else {
            ServiceOutcome::UnknownService
        }
    }
}

} // verus!
