//! The machine: drives the fetch-decode-execute loop and dispatches
//! environment calls, collecting the console output the program requests.
//!
//! Termination is an explicit, observable value: the run ends with the
//! program's exit status, a fatal error, or exhausted fuel, and the caller
//! decides what to do with it.

use vstd::prelude::*;

use crate::memory::mem_wf;
use crate::memory::reg_val;
use crate::memory::upd_reg;
use crate::memory::MemModel;
use crate::memory::Memory;
use crate::processor::tick_spec;
use crate::processor::Processor;
use crate::processor::SimError;
use crate::processor::StepEvent;
use crate::syscall::call_spec;
use crate::syscall::outcome_code;
use crate::syscall::ServiceOutcome;
use crate::syscall::Syscall;

verus! {

/// Console output requested by the simulated program, in order.
#[derive(Clone, Copy, Debug, PartialEq, Eq, Structural)]
pub enum OutputEvent {
    /// A signed integer to print, from the print-integer service.
    Int(i32),
    /// A character to print, from the put-character service.
    Char(u8),
    /// A reported debug breakpoint.
    Break,
}

/// How a run ended.
#[derive(Clone, Copy, Debug, PartialEq, Eq, Structural)]
pub enum RunOutcome {
    /// The program called the exit service with this status.
    Exited { status: i32 },
    /// The fuel ran out before the program exited.
    OutOfFuel,
    /// A fatal decode or memory error.
    Fault { error: SimError },
}

/// The service code the dispatcher reads: register 17, as a signed value.
pub open spec fn service_code(m: MemModel) -> i32 {
    reg_val(m, 17) as i32
}

/// The service arguments the dispatcher reads: registers 10 through 16, as
/// signed values.
pub open spec fn service_args(m: MemModel) -> Seq<i32> {
    seq![
        reg_val(m, 10) as i32,
        reg_val(m, 11) as i32,
        reg_val(m, 12) as i32,
        reg_val(m, 13) as i32,
        reg_val(m, 14) as i32,
        reg_val(m, 15) as i32,
        reg_val(m, 16) as i32,
    ]
}

/// What running at most `fuel` cycles does: the final state, how the run
/// ended, and the console output in order.  Each cycle is [`tick_spec`];
/// a service call is dispatched by [`call_spec`], its result code is
/// written back to register 10, and an exit request stops the run.
pub open spec fn run_spec(m: MemModel, fuel: nat) -> (MemModel, RunOutcome, Seq<OutputEvent>)
    decreases fuel,
{
    if fuel == 0 {
        (m, RunOutcome::OutOfFuel, Seq::<OutputEvent>::empty())
    } else {
        let (m1, res) = tick_spec(m);
        match res {
            Err(e) => (m1, RunOutcome::Fault { error: e }, Seq::<OutputEvent>::empty()),
            Ok(StepEvent::Proceed) => run_spec(m1, (fuel - 1) as nat),
            Ok(StepEvent::DebugBreak) => {
                let rest = run_spec(m1, (fuel - 1) as nat);
                (rest.0, rest.1, seq![OutputEvent::Break] + rest.2)
            },
            Ok(StepEvent::ServiceCall) => {
                let (m2, o) = call_spec(m1, service_code(m1), service_args(m1));
                match o {
                    ServiceOutcome::Terminate { status } => (
                        m2,
                        RunOutcome::Exited { status },
                        Seq::<OutputEvent>::empty(),
                    ),
                    _ => {
                        let m3 = upd_reg(m2, 10, outcome_code(o) as u32);
                        let ev0 = match o {
                            ServiceOutcome::PrintInt { value } => seq![OutputEvent::Int(value)],
                            ServiceOutcome::PutChar { byte } => seq![OutputEvent::Char(byte)],
                            _ => Seq::<OutputEvent>::empty(),
                        };
                        let rest = run_spec(m3, (fuel - 1) as nat);
                        (rest.0, rest.1, ev0 + rest.2)
                    },
                }
            },
        }
    }
}

/// The simulator: machine state plus the drive loop.
pub struct Machine {
    mem: Memory,
}

impl View for Machine {
    type V = MemModel;

    closed spec fn view(&self) -> MemModel {
        self.mem@
    }
}

impl Machine {
    /// The machine state is well-formed.
    pub open spec fn wf(&self) -> bool {
        mem_wf(self@)
    }

    /// Wraps a loaded machine state.
    pub fn new(mem: Memory) -> (r: Machine)
        ensures
            r@ == mem@,
    {
        Machine { mem }
    }

    /// The machine state, for inspection.
    pub fn mem(&self) -> (r: &Memory)
        ensures
            r@ == self@,
    {
        &self.mem
    }

    /// Runs fetch-decode-execute cycles until the program exits through the
    /// exit service, a fatal error is raised, or `fuel` cycles have run;
    /// returns how the run ended, together with the console output the
    /// program requested, in order.
    #[verifier::rlimit(100)]
    pub fn run(&mut self, fuel: u64) -> (r: (RunOutcome, Vec<OutputEvent>))
        requires
            old(self).wf(),
        ensures
            final(self).wf(),
            ({
                let (m2, oc, ev) = run_spec(old(self)@, fuel as nat);
                final(self)@ == m2 && r.0 == oc && r.1@ == ev
            }),
    {
        let mut out: Vec<OutputEvent> = Vec::new();
        let mut left: u64 = fuel;
        loop
            invariant
                self.wf(),
                ({
                    let full = run_spec(old(self)@, fuel as nat);
                    let cur = run_spec(self@, left as nat);
                    full.0 == cur.0 && full.1 == cur.1 && full.2 == out@ + cur.2
                }),
            decreases left,
        {
            if left == 0 {
                proof {
                    assert(out@ + Seq::<OutputEvent>::empty() =~= out@);
                }
                return (RunOutcome::OutOfFuel, out);
            }
            let ghost pre = self@;
            let ghost lpre = left as nat;
            let res: Result<StepEvent, SimError> = Processor::tick(&mut self.mem);
            let ghost m1 = self@;
            match res {
                Err(e) => {
                    proof {
                        assert(out@ + Seq::<OutputEvent>::empty() =~= out@);
                    }
                    return (RunOutcome::Fault { error: e }, out);
                },
                Ok(StepEvent::Proceed) => {
                    proof {
                        assert(run_spec(pre, lpre) == run_spec(m1, (lpre - 1) as nat));
                    }
                },
                Ok(StepEvent::DebugBreak) => {
                    let ghost outpre = out@;
                    out.push(OutputEvent::Break);
                    proof {
                        let rest = run_spec(m1, (lpre - 1) as nat);
                        assert(run_spec(pre, lpre).2 == seq![OutputEvent::Break] + rest.2);
                        assert(outpre + (seq![OutputEvent::Break] + rest.2) =~= out@ + rest.2);
                    }
                },
                Ok(StepEvent::ServiceCall) => {
                    let code: i32 = self.mem.get_register(17) as i32;
                    let args: [i32; 7] = [
                        self.mem.get_register(10) as i32,
                        self.mem.get_register(11) as i32,
                        self.mem.get_register(12) as i32,
                        self.mem.get_register(13) as i32,
                        self.mem.get_register(14) as i32,
                        self.mem.get_register(15) as i32,
                        self.mem.get_register(16) as i32,
                    ];
                    proof {
                        assert(code == service_code(m1));
                        assert(args@ =~= service_args(m1));
                    }
                    let o: ServiceOutcome = Syscall::call(&mut self.mem, code, args);
                    let ghost m2 = self@;
                    let ghost outpre = out@;
                    match o {
                        ServiceOutcome::Terminate { status } => {
                            proof {
                                assert(out@ + Seq::<OutputEvent>::empty() =~= out@);
                            }
                            return (RunOutcome::Exited { status }, out);
                        },
                        ServiceOutcome::PrintInt { value } => {
                            out.push(OutputEvent::Int(value));
                        },
                        ServiceOutcome::PutChar { byte } => {
                            out.push(OutputEvent::Char(byte));
                        },
                        _ => {},
                    }
                    let rc: i32 = Syscall::result_code(o);
                    self.mem.set_register(rc as u32, 10);
                    proof {
                        let m3 = upd_reg(m2, 10, outcome_code(o) as u32);
                        assert(self@ == m3);
                        let rest = run_spec(m3, (lpre - 1) as nat);
                        let ev0 = match o {
                            ServiceOutcome::PrintInt { value } => seq![OutputEvent::Int(value)],
                            ServiceOutcome::PutChar { byte } => seq![OutputEvent::Char(byte)],
                            _ => Seq::<OutputEvent>::empty(),
                        };
                        assert(run_spec(pre, lpre).2 == ev0 + rest.2);
                        assert(out@ =~= outpre + ev0);
                        assert(outpre + (ev0 + rest.2) =~= out@ + rest.2);
                    }
                },
            }
            left = left - 1;
        }
    }
}

} // verus!
