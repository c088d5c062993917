//! The execution engine: one fetch-decode-execute cycle per call.
//!
//! A cycle reads four bytes at the program counter, decodes them, applies
//! the operation's semantics to the address space, and advances or
//! redirects the program counter.  Each cycle's outcome depends only on the
//! state visible at its start; an instruction either fully applies its
//! register, memory and counter updates or, on failure, applies none.

use vstd::prelude::*;

use crate::instruction::decode_spec;
use crate::instruction::lemma_decode_legal;
use crate::instruction::DecodeError;
use crate::instruction::Instruction;
use crate::memory::bytes_at;
use crate::memory::can_access;
use crate::memory::mem_wf;
use crate::memory::pc_plus4;
use crate::memory::reg_val;
use crate::memory::store_bytes;
use crate::memory::upd_reg;
use crate::memory::with_pc;
use crate::memory::MemModel;
use crate::memory::Memory;
use crate::util::bytes_of_word;
use crate::util::from_u32;
use crate::util::to_u32;
use crate::util::word_of_bytes;

verus! {

/// What one cycle reports besides its state change.
#[derive(Clone, Copy, Debug, PartialEq, Eq, Structural)]
pub enum StepEvent {
    /// An ordinary instruction completed.
    Proceed,
    /// A trap instruction requested a host service; the dispatcher reads
    /// its operands from the well-known registers.
    ServiceCall,
    /// A breakpoint was reached; it is reported and execution goes on.
    DebugBreak,
}

/// A fatal condition: the instruction stream or the memory model invariant
/// has been violated and the simulation cannot meaningfully continue.
#[derive(Clone, Copy, Debug, PartialEq, Eq, Structural)]
pub enum SimError {
    /// The fetched word does not decode.
    Decode(DecodeError),
    /// A fetch, load or store touched memory the program does not own.
    MemoryAccess,
}

/// One byte sign-extended to 32 bits.
pub open spec fn sext8(b: u8) -> u32 {
    if b >= 0x80 {
        (b + 0xFFFF_FF00) as u32
    } else {
        b as u32
    }
}

/// Two little-endian bytes sign-extended to 32 bits.
pub open spec fn sext16(lo: u8, hi: u8) -> u32 {
    if hi >= 0x80 {
        (lo + hi * 0x100 + 0xFFFF_0000) as u32
    } else {
        (lo + hi * 0x100) as u32
    }
}

/// Two little-endian bytes zero-extended to 32 bits.
pub open spec fn zext16(lo: u8, hi: u8) -> u32 {
    (lo + hi * 0x100) as u32
}

/// The effective address of a load or store: the base register value,
/// reinterpreted as signed, plus the sign-extended immediate, wrapped to an
/// unsigned 32-bit address.
pub open spec fn eff_addr(m: MemModel, rs1: u8, imm: i32) -> u32 {
    reg_val(m, rs1).wrapping_add_signed(imm)
}

/// The state after a conditional branch: redirected by `imm` relative to
/// the current counter when taken, advanced past the instruction otherwise.
pub open spec fn branch_to(m: MemModel, imm: i32, taken: bool) -> MemModel {
    if taken {
        with_pc(m, m.pc.wrapping_add_signed(imm))
    } else {
        pc_plus4(m)
    }
}

/// The semantics of one decoded operation against a machine state: the new
/// state and the reported event, or `None` when a load or store touches
/// memory the program does not own (in which case nothing is applied).
pub open spec fn exec_inst(m: MemModel, inst: Instruction) -> Option<(MemModel, StepEvent)> {
    match inst {
        Instruction::LUI { imm, rd } => Some(
            (pc_plus4(upd_reg(m, rd, imm as u32)), StepEvent::Proceed),
        ),
        Instruction::AUIPC { imm, rd } => Some(
            (pc_plus4(upd_reg(m, rd, m.pc.wrapping_add_signed(imm))), StepEvent::Proceed),
        ),
        Instruction::JAL { imm, rd } => Some(
            (
                with_pc(upd_reg(m, rd, m.pc.wrapping_add(4)), m.pc.wrapping_add_signed(imm)),
                StepEvent::Proceed,
            ),
        ),
        Instruction::JALR { imm, rd, rs1 } => Some(
            (
                with_pc(
                    upd_reg(m, rd, m.pc.wrapping_add(4)),
                    reg_val(m, rs1).wrapping_add_signed(imm),
                ),
                StepEvent::Proceed,
            ),
        ),
        Instruction::BEQ { imm, rs1, rs2 } => Some(
            (branch_to(m, imm, reg_val(m, rs1) == reg_val(m, rs2)), StepEvent::Proceed),
        ),
        Instruction::BNE { imm, rs1, rs2 } => Some(
            (branch_to(m, imm, reg_val(m, rs1) != reg_val(m, rs2)), StepEvent::Proceed),
        ),
        Instruction::BLT { imm, rs1, rs2 } => Some(
            (
                branch_to(m, imm, (reg_val(m, rs1) as i32) < (reg_val(m, rs2) as i32)),
                StepEvent::Proceed,
            ),
        ),
        Instruction::BGE { imm, rs1, rs2 } => Some(
            (
                branch_to(m, imm, (reg_val(m, rs1) as i32) >= (reg_val(m, rs2) as i32)),
                StepEvent::Proceed,
            ),
        ),
        Instruction::BLTU { imm, rs1, rs2 } => Some(
            (branch_to(m, imm, reg_val(m, rs1) < reg_val(m, rs2)), StepEvent::Proceed),
        ),
        Instruction::BGEU { imm, rs1, rs2 } => Some(
            (branch_to(m, imm, reg_val(m, rs1) >= reg_val(m, rs2)), StepEvent::Proceed),
        ),
        Instruction::LB { imm, rs1, rd } => {
            let ea = eff_addr(m, rs1, imm);
            if can_access(m.segs, ea as int, 1) {
                let b = bytes_at(m.segs, ea as int, 1);
                Some((pc_plus4(upd_reg(m, rd, sext8(b[0]))), StepEvent::Proceed))
            } else {
                None
            }
        },
        Instruction::LH { imm, rs1, rd } => {
            let ea = eff_addr(m, rs1, imm);
            if can_access(m.segs, ea as int, 2) {
                let b = bytes_at(m.segs, ea as int, 2);
                Some((pc_plus4(upd_reg(m, rd, sext16(b[0], b[1]))), StepEvent::Proceed))
            } else {
                None
            }
        },
        Instruction::LW { imm, rs1, rd } => {
            let ea = eff_addr(m, rs1, imm);
            if can_access(m.segs, ea as int, 4) {
                let b = bytes_at(m.segs, ea as int, 4);
                Some((pc_plus4(upd_reg(m, rd, word_of_bytes(b))), StepEvent::Proceed))
            } else {
                None
            }
        },
        Instruction::LBU { imm, rs1, rd } => {
            let ea = eff_addr(m, rs1, imm);
            if can_access(m.segs, ea as int, 1) {
                let b = bytes_at(m.segs, ea as int, 1);
                Some((pc_plus4(upd_reg(m, rd, b[0] as u32)), StepEvent::Proceed))
            } else {
                None
            }
        },
        Instruction::LHU { imm, rs1, rd } => {
            let ea = eff_addr(m, rs1, imm);
            if can_access(m.segs, ea as int, 2) {
                let b = bytes_at(m.segs, ea as int, 2);
                Some((pc_plus4(upd_reg(m, rd, zext16(b[0], b[1]))), StepEvent::Proceed))
            } else {
                None
            }
        },
        Instruction::SB { imm, rs1, rs2 } => {
            let ea = eff_addr(m, rs1, imm);
            let data = bytes_of_word(reg_val(m, rs2)).take(1);
            if can_access(m.segs, ea as int, 1) {
                Some(
                    (
                        pc_plus4(MemModel { segs: store_bytes(m.segs, ea as int, data), ..m }),
                        StepEvent::Proceed,
                    ),
                )
            } else {
                None
            }
        },
        Instruction::SH { imm, rs1, rs2 } => {
            let ea = eff_addr(m, rs1, imm);
            let data = bytes_of_word(reg_val(m, rs2)).take(2);
            if can_access(m.segs, ea as int, 2) {
                Some(
                    (
                        pc_plus4(MemModel { segs: store_bytes(m.segs, ea as int, data), ..m }),
                        StepEvent::Proceed,
                    ),
                )
            } else {
                None
            }
        },
        Instruction::SW { imm, rs1, rs2 } => {
            let ea = eff_addr(m, rs1, imm);
            let data = bytes_of_word(reg_val(m, rs2));
            if can_access(m.segs, ea as int, 4) {
                Some(
                    (
                        pc_plus4(MemModel { segs: store_bytes(m.segs, ea as int, data), ..m }),
                        StepEvent::Proceed,
                    ),
                )
            } else {
                None
            }
        },
        Instruction::ADDI { imm, rs1, rd } => Some(
            (
                pc_plus4(upd_reg(m, rd, reg_val(m, rs1).wrapping_add_signed(imm))),
                StepEvent::Proceed,
            ),
        ),
        Instruction::SLTI { imm, rs1, rd } => Some(
            (
                pc_plus4(
                    upd_reg(
                        m,
                        rd,
                        if (reg_val(m, rs1) as i32) < imm {
                            1u32
                        } else {
                            0u32
                        },
                    ),
                ),
                StepEvent::Proceed,
            ),
        ),
        Instruction::SLTIU { imm, rs1, rd } => Some(
            (
                pc_plus4(
                    upd_reg(
                        m,
                        rd,
                        if reg_val(m, rs1) < (imm as u32) {
                            1u32
                        } else {
                            0u32
                        },
                    ),
                ),
                StepEvent::Proceed,
            ),
        ),
        Instruction::XORI { imm, rs1, rd } => Some(
            (pc_plus4(upd_reg(m, rd, reg_val(m, rs1) ^ (imm as u32))), StepEvent::Proceed),
        ),
        Instruction::ORI { imm, rs1, rd } => Some(
            (pc_plus4(upd_reg(m, rd, reg_val(m, rs1) | (imm as u32))), StepEvent::Proceed),
        ),
        Instruction::ANDI { imm, rs1, rd } => Some(
            (pc_plus4(upd_reg(m, rd, reg_val(m, rs1) & (imm as u32))), StepEvent::Proceed),
        ),
        Instruction::SLLI { shift, rs1, rd } => Some(
            (pc_plus4(upd_reg(m, rd, reg_val(m, rs1) << (shift as u32))), StepEvent::Proceed),
        ),
        Instruction::SRLI { shift, rs1, rd } => Some(
            (pc_plus4(upd_reg(m, rd, reg_val(m, rs1) >> (shift as u32))), StepEvent::Proceed),
        ),
        Instruction::SRAI { shift, rs1, rd } => Some(
            (
                pc_plus4(
                    upd_reg(m, rd, (((reg_val(m, rs1) as i32) >> (shift as u32)) as u32)),
                ),
                StepEvent::Proceed,
            ),
        ),
        Instruction::ADD { rs1, rs2, rd } => Some(
            (
                pc_plus4(upd_reg(m, rd, reg_val(m, rs1).wrapping_add(reg_val(m, rs2)))),
                StepEvent::Proceed,
            ),
        ),
        Instruction::SUB { rs1, rs2, rd } => Some(
            (
                pc_plus4(upd_reg(m, rd, reg_val(m, rs2).wrapping_sub(reg_val(m, rs1)))),
                StepEvent::Proceed,
            ),
        ),
        Instruction::SLL { rs1, rs2, rd } => Some(
            (
                pc_plus4(upd_reg(m, rd, reg_val(m, rs2) << (reg_val(m, rs1) & 0x1f))),
                StepEvent::Proceed,
            ),
        ),
        Instruction::SLT { rs1, rs2, rd } => Some(
            (
                pc_plus4(
                    upd_reg(
                        m,
                        rd,
                        if (reg_val(m, rs1) as i32) < (reg_val(m, rs2) as i32) {
                            1u32
                        } else {
                            0u32
                        },
                    ),
                ),
                StepEvent::Proceed,
            ),
        ),
        Instruction::SLTU { rs1, rs2, rd } => Some(
            (
                pc_plus4(
                    upd_reg(
                        m,
                        rd,
                        if reg_val(m, rs1) < reg_val(m, rs2) {
                            1u32
                        } else {
                            0u32
                        },
                    ),
                ),
                StepEvent::Proceed,
            ),
        ),
        Instruction::XOR { rs1, rs2, rd } => Some(
            (pc_plus4(upd_reg(m, rd, reg_val(m, rs2) ^ reg_val(m, rs1))), StepEvent::Proceed),
        ),
        Instruction::SRL { rs1, rs2, rd } => Some(
            (
                pc_plus4(upd_reg(m, rd, reg_val(m, rs2) >> (reg_val(m, rs1) & 0x1f))),
                StepEvent::Proceed,
            ),
        ),
        Instruction::SRA { rs1, rs2, rd } => Some(
            (
                pc_plus4(
                    upd_reg(
                        m,
                        rd,
                        (((reg_val(m, rs2) as i32) >> (reg_val(m, rs1) & 0x1f)) as u32),
                    ),
                ),
                StepEvent::Proceed,
            ),
        ),
        Instruction::OR { rs1, rs2, rd } => Some(
            (pc_plus4(upd_reg(m, rd, reg_val(m, rs2) | reg_val(m, rs1))), StepEvent::Proceed),
        ),
        Instruction::AND { rs1, rs2, rd } => Some(
            (pc_plus4(upd_reg(m, rd, reg_val(m, rs2) & reg_val(m, rs1))), StepEvent::Proceed),
        ),
        Instruction::ECALL => Some((pc_plus4(m), StepEvent::ServiceCall)),
        Instruction::EBREAK => Some((pc_plus4(m), StepEvent::DebugBreak)),
    }
}

/// The instruction word at the program counter, if the counter points into
/// owned memory.
pub open spec fn fetch_spec(m: MemModel) -> Option<u32> {
    if can_access(m.segs, m.pc as int, 4) {
        Some(word_of_bytes(bytes_at(m.segs, m.pc as int, 4)))
    } else {
        None
    }
}

/// What one whole cycle does: fetch, decode, execute.  On a fetch, decode
/// or access failure the state is returned untouched beside the error.
#[verifier::opaque]
pub open spec fn tick_spec(m: MemModel) -> (MemModel, Result<StepEvent, SimError>) {
    match fetch_spec(m) {
        None => (m, Err(SimError::MemoryAccess)),
        Some(w) => match decode_spec(w) {
            Err(e) => (m, Err(SimError::Decode(e))),
            Ok(inst) => match exec_inst(m, inst) {
                None => (m, Err(SimError::MemoryAccess)),
                Some((m2, ev)) => (m2, Ok(ev)),
            },
        },
    }
}

/// Register zero is immutable: whatever operation with legal operand
/// ranges executes (and every decoded operation has them), register 0
/// still holds zero afterward, destination register 0 or not.
proof fn lemma_upd_reg_zero_all(m: MemModel)
    requires
        m.regs.len() == 32,
        m.regs[0] == 0,
    ensures
        forall|rd: u8, val: u32| rd < 32 ==> (#[trigger] upd_reg(m, rd, val)).regs[0] == 0,
{
    assert forall|rd: u8, val: u32| rd < 32 implies (#[trigger] upd_reg(m, rd, val)).regs[0]
        == 0 by {
        if rd != 0 {
            assert(upd_reg(m, rd, val).regs =~= m.regs.update(rd as int, val));
            assert(m.regs.update(rd as int, val)[0] == m.regs[0]);
        }
    }
}

#[verifier::rlimit(60)]
pub proof fn lemma_register_zero_immutable(m: MemModel, inst: Instruction)
    requires
        mem_wf(m),
        inst.legal(),
    ensures
        exec_inst(m, inst) matches Some((m2, ev)) ==> m2.regs[0] == 0,
{
    lemma_upd_reg_zero_all(m);
    match inst {
        Instruction::LUI { .. } => {
            assert(exec_inst(m, inst) matches Some((m2, ev)) ==> m2.regs[0] == 0);
        },
        Instruction::AUIPC { .. } => {
            assert(exec_inst(m, inst) matches Some((m2, ev)) ==> m2.regs[0] == 0);
        },
        Instruction::JAL { .. } => {
            assert(exec_inst(m, inst) matches Some((m2, ev)) ==> m2.regs[0] == 0);
        },
        Instruction::JALR { .. } => {
            assert(exec_inst(m, inst) matches Some((m2, ev)) ==> m2.regs[0] == 0);
        },
        Instruction::BEQ { .. } => {
            assert(exec_inst(m, inst) matches Some((m2, ev)) ==> m2.regs[0] == 0);
        },
        Instruction::BNE { .. } => {
            assert(exec_inst(m, inst) matches Some((m2, ev)) ==> m2.regs[0] == 0);
        },
        Instruction::BLT { .. } => {
            assert(exec_inst(m, inst) matches Some((m2, ev)) ==> m2.regs[0] == 0);
        },
        Instruction::BGE { .. } => {
            assert(exec_inst(m, inst) matches Some((m2, ev)) ==> m2.regs[0] == 0);
        },
        Instruction::BLTU { .. } => {
            assert(exec_inst(m, inst) matches Some((m2, ev)) ==> m2.regs[0] == 0);
        },
        Instruction::BGEU { .. } => {
            assert(exec_inst(m, inst) matches Some((m2, ev)) ==> m2.regs[0] == 0);
        },
        Instruction::LB { .. } => {
            assert(exec_inst(m, inst) matches Some((m2, ev)) ==> m2.regs[0] == 0);
        },
        Instruction::LH { .. } => {
            assert(exec_inst(m, inst) matches Some((m2, ev)) ==> m2.regs[0] == 0);
        },
        Instruction::LW { .. } => {
            assert(exec_inst(m, inst) matches Some((m2, ev)) ==> m2.regs[0] == 0);
        },
        Instruction::LBU { .. } => {
            assert(exec_inst(m, inst) matches Some((m2, ev)) ==> m2.regs[0] == 0);
        },
        Instruction::LHU { .. } => {
            assert(exec_inst(m, inst) matches Some((m2, ev)) ==> m2.regs[0] == 0);
        },
        Instruction::SB { .. } => {
            assert(exec_inst(m, inst) matches Some((m2, ev)) ==> m2.regs[0] == 0);
        },
        Instruction::SH { .. } => {
            assert(exec_inst(m, inst) matches Some((m2, ev)) ==> m2.regs[0] == 0);
        },
        Instruction::SW { .. } => {
            assert(exec_inst(m, inst) matches Some((m2, ev)) ==> m2.regs[0] == 0);
        },
        Instruction::ADDI { .. } => {
            assert(exec_inst(m, inst) matches Some((m2, ev)) ==> m2.regs[0] == 0);
        },
        Instruction::SLTI { .. } => {
            assert(exec_inst(m, inst) matches Some((m2, ev)) ==> m2.regs[0] == 0);
        },
        Instruction::SLTIU { .. } => {
            assert(exec_inst(m, inst) matches Some((m2, ev)) ==> m2.regs[0] == 0);
        },
        Instruction::XORI { .. } => {
            assert(exec_inst(m, inst) matches Some((m2, ev)) ==> m2.regs[0] == 0);
        },
        Instruction::ORI { .. } => {
            assert(exec_inst(m, inst) matches Some((m2, ev)) ==> m2.regs[0] == 0);
        },
        Instruction::ANDI { .. } => {
            assert(exec_inst(m, inst) matches Some((m2, ev)) ==> m2.regs[0] == 0);
        },
        Instruction::SLLI { .. } => {
            assert(exec_inst(m, inst) matches Some((m2, ev)) ==> m2.regs[0] == 0);
        },
        Instruction::SRLI { .. } => {
            assert(exec_inst(m, inst) matches Some((m2, ev)) ==> m2.regs[0] == 0);
        },
        Instruction::SRAI { .. } => {
            assert(exec_inst(m, inst) matches Some((m2, ev)) ==> m2.regs[0] == 0);
        },
        Instruction::ADD { .. } => {
            assert(exec_inst(m, inst) matches Some((m2, ev)) ==> m2.regs[0] == 0);
        },
        Instruction::SUB { .. } => {
            assert(exec_inst(m, inst) matches Some((m2, ev)) ==> m2.regs[0] == 0);
        },
        Instruction::SLL { .. } => {
            assert(exec_inst(m, inst) matches Some((m2, ev)) ==> m2.regs[0] == 0);
        },
        Instruction::SLT { .. } => {
            assert(exec_inst(m, inst) matches Some((m2, ev)) ==> m2.regs[0] == 0);
        },
        Instruction::SLTU { .. } => {
            assert(exec_inst(m, inst) matches Some((m2, ev)) ==> m2.regs[0] == 0);
        },
        Instruction::XOR { .. } => {
            assert(exec_inst(m, inst) matches Some((m2, ev)) ==> m2.regs[0] == 0);
        },
        Instruction::SRL { .. } => {
            assert(exec_inst(m, inst) matches Some((m2, ev)) ==> m2.regs[0] == 0);
        },
        Instruction::SRA { .. } => {
            assert(exec_inst(m, inst) matches Some((m2, ev)) ==> m2.regs[0] == 0);
        },
        Instruction::OR { .. } => {
            assert(exec_inst(m, inst) matches Some((m2, ev)) ==> m2.regs[0] == 0);
        },
        Instruction::AND { .. } => {
            assert(exec_inst(m, inst) matches Some((m2, ev)) ==> m2.regs[0] == 0);
        },
        Instruction::ECALL => {
            assert(exec_inst(m, inst) matches Some((m2, ev)) ==> m2.regs[0] == 0);
        },
        Instruction::EBREAK => {
            assert(exec_inst(m, inst) matches Some((m2, ev)) ==> m2.regs[0] == 0);
        },
    }
}

proof fn lemma_mask5(x: u32)
    by (bit_vector)
    ensures
        x & 0x1f < 32,
{
}

/// The execution engine.
pub struct Processor;

impl Processor {
    /// Fetches and decodes the instruction at the program counter.
    fn fetch(mem: &Memory) -> (r: Result<Instruction, SimError>)
        requires
            mem.wf(),
        ensures
            match fetch_spec(mem@) {
                None => r == Err::<Instruction, SimError>(SimError::MemoryAccess),
                Some(w) => match decode_spec(w) {
                    Ok(i) => r == Ok::<Instruction, SimError>(i),
                    Err(e) => r == Err::<Instruction, SimError>(SimError::Decode(e)),
                },
            },
            r matches Ok(i) ==> i.legal(),
    {
        let bytes: [u8; 4] = match mem.get_instr() {
            Ok(b) => b,
            Err(_) => {
                return Err(SimError::MemoryAccess);
            },
        };
        let w: u32 = to_u32(&bytes);
        proof {
            lemma_decode_legal(w);
        }
        match Instruction::new(w) {
            Ok(i) => Ok(i),
            Err(e) => Err(SimError::Decode(e)),
        }
    }

    /// Performs exactly one fetch-decode-execute cycle.  On success the
    /// event says whether an ordinary instruction completed, a service call
    /// was requested, or a breakpoint was reported; on a fatal error the
    /// state is left untouched.
    #[verifier::rlimit(100)]
    pub fn tick(mem: &mut Memory) -> (r: Result<StepEvent, SimError>)
        requires
            old(mem).wf(),
        ensures
            final(mem).wf(),
            ({
                let (m2, res) = tick_spec(old(mem)@);
                final(mem)@ == m2 && r == res
            }),
    {
        proof {
            reveal(tick_spec);
        }
        let inst: Instruction = match Processor::fetch(mem) {
            Ok(i) => i,
            Err(e) => {
                return Err(e);
            },
        };
        match inst {
            Instruction::LUI { imm, rd } => {
                mem.set_register(imm as u32, rd);
                mem.incr_pc();
                Ok(StepEvent::Proceed)
            },
            Instruction::AUIPC { imm, rd } => {
                let v: u32 = mem.get_pc().wrapping_add_signed(imm);
                mem.set_register(v, rd);
                mem.incr_pc();
                Ok(StepEvent::Proceed)
            },
            Instruction::JAL { imm, rd } => {
                let pc: u32 = mem.get_pc();
                mem.set_register(pc.wrapping_add(4), rd);
                mem.set_pc(pc.wrapping_add_signed(imm));
                Ok(StepEvent::Proceed)
            },
            Instruction::JALR { imm, rd, rs1 } => {
                let rv: u32 = mem.get_register(rs1);
                let pc: u32 = mem.get_pc();
                mem.set_register(pc.wrapping_add(4), rd);
                mem.set_pc(rv.wrapping_add_signed(imm));
                Ok(StepEvent::Proceed)
            },
            Instruction::BEQ { imm, rs1, rs2 } => {
                if mem.get_register(rs1) == mem.get_register(rs2) {
                    let pc: u32 = mem.get_pc();
                    mem.set_pc(pc.wrapping_add_signed(imm));
                } else {
                    mem.incr_pc();
                }
                Ok(StepEvent::Proceed)
            },
            Instruction::BNE { imm, rs1, rs2 } => {
                if mem.get_register(rs1) != mem.get_register(rs2) {
                    let pc: u32 = mem.get_pc();
                    mem.set_pc(pc.wrapping_add_signed(imm));
                } else {
                    mem.incr_pc();
                }
                Ok(StepEvent::Proceed)
            },
            Instruction::BLT { imm, rs1, rs2 } => {
                if (mem.get_register(rs1) as i32) < (mem.get_register(rs2) as i32) {
                    let pc: u32 = mem.get_pc();
                    mem.set_pc(pc.wrapping_add_signed(imm));
                } else {
                    mem.incr_pc();
                }
                Ok(StepEvent::Proceed)
            },
            Instruction::BGE { imm, rs1, rs2 } => {
                if (mem.get_register(rs1) as i32) >= (mem.get_register(rs2) as i32) {
                    let pc: u32 = mem.get_pc();
                    mem.set_pc(pc.wrapping_add_signed(imm));
                } else {
                    mem.incr_pc();
                }
                Ok(StepEvent::Proceed)
            },
            Instruction::BLTU { imm, rs1, rs2 } => {
                if mem.get_register(rs1) < mem.get_register(rs2) {
                    let pc: u32 = mem.get_pc();
                    mem.set_pc(pc.wrapping_add_signed(imm));
                } else {
                    mem.incr_pc();
                }
                Ok(StepEvent::Proceed)
            },
            Instruction::BGEU { imm, rs1, rs2 } => {
                if mem.get_register(rs1) >= mem.get_register(rs2) {
                    let pc: u32 = mem.get_pc();
                    mem.set_pc(pc.wrapping_add_signed(imm));
                } else {
                    mem.incr_pc();
                }
                Ok(StepEvent::Proceed)
            },
            Instruction::LB { imm, rs1, rd } => {
                let base: u32 = mem.get_register(rs1);
                let ea: u32 = base.wrapping_add_signed(imm);
                let bytes: Vec<u8> = match mem.read(ea as usize, 1) {
                    Ok(b) => b,
                    Err(_) => {
                        return Err(SimError::MemoryAccess);
                    },
                };
                let b0: u8 = bytes[0];
                let val: u32 = if b0 >= 0x80 {
                    (b0 as u32) + 0xFFFF_FF00
                } else {
                    b0 as u32
                };
                mem.set_register(val, rd);
                mem.incr_pc();
                Ok(StepEvent::Proceed)
            },
            Instruction::LH { imm, rs1, rd } => {
                let base: u32 = mem.get_register(rs1);
                let ea: u32 = base.wrapping_add_signed(imm);
                let bytes: Vec<u8> = match mem.read(ea as usize, 2) {
                    Ok(b) => b,
                    Err(_) => {
                        return Err(SimError::MemoryAccess);
                    },
                };
                let lo: u8 = bytes[0];
                let hi: u8 = bytes[1];
                let val: u32 = if hi >= 0x80 {
                    (lo as u32) + (hi as u32) * 0x100 + 0xFFFF_0000
                } else {
                    (lo as u32) + (hi as u32) * 0x100
                };
                mem.set_register(val, rd);
                mem.incr_pc();
                Ok(StepEvent::Proceed)
            },
            Instruction::LW { imm, rs1, rd } => {
                let base: u32 = mem.get_register(rs1);
                let ea: u32 = base.wrapping_add_signed(imm);
                let bytes: Vec<u8> = match mem.read(ea as usize, 4) {
                    Ok(b) => b,
                    Err(_) => {
                        return Err(SimError::MemoryAccess);
                    },
                };
                let buf: [u8; 4] = [bytes[0], bytes[1], bytes[2], bytes[3]];
                proof {
                    assert(buf@ =~= bytes@);
                }
                let val: u32 = to_u32(&buf);
                mem.set_register(val, rd);
                mem.incr_pc();
                Ok(StepEvent::Proceed)
            },
            Instruction::LBU { imm, rs1, rd } => {
                let base: u32 = mem.get_register(rs1);
                let ea: u32 = base.wrapping_add_signed(imm);
                let bytes: Vec<u8> = match mem.read(ea as usize, 1) {
                    Ok(b) => b,
                    Err(_) => {
                        return Err(SimError::MemoryAccess);
                    },
                };
                let val: u32 = bytes[0] as u32;
                mem.set_register(val, rd);
                mem.incr_pc();
                Ok(StepEvent::Proceed)
            },
            Instruction::LHU { imm, rs1, rd } => {
                let base: u32 = mem.get_register(rs1);
                let ea: u32 = base.wrapping_add_signed(imm);
                let bytes: Vec<u8> = match mem.read(ea as usize, 2) {
                    Ok(b) => b,
                    Err(_) => {
                        return Err(SimError::MemoryAccess);
                    },
                };
                let val: u32 = (bytes[0] as u32) + (bytes[1] as u32) * 0x100;
                mem.set_register(val, rd);
                mem.incr_pc();
                Ok(StepEvent::Proceed)
            },
            Instruction::SB { imm, rs1, rs2 } => {
                let v: u32 = mem.get_register(rs2);
                let rb: [u8; 4] = from_u32(v);
                let base: u32 = mem.get_register(rs1);
                let ea: u32 = base.wrapping_add_signed(imm);
                let mut data: Vec<u8> = Vec::new();
                data.push(rb[0]);
                proof {
                    assert(data@ =~= bytes_of_word(reg_val(mem@, rs2)).take(1));
                }
                match mem.read_mut(ea as usize, data.as_slice()) {
                    Ok(_) => {},
                    Err(_) => {
                        return Err(SimError::MemoryAccess);
                    },
                }
                mem.incr_pc();
                Ok(StepEvent::Proceed)
            },
            Instruction::SH { imm, rs1, rs2 } => {
                let v: u32 = mem.get_register(rs2);
                let rb: [u8; 4] = from_u32(v);
                let base: u32 = mem.get_register(rs1);
                let ea: u32 = base.wrapping_add_signed(imm);
                let mut data: Vec<u8> = Vec::new();
                data.push(rb[0]);
                data.push(rb[1]);
                proof {
                    assert(data@ =~= bytes_of_word(reg_val(mem@, rs2)).take(2));
                }
                match mem.read_mut(ea as usize, data.as_slice()) {
                    Ok(_) => {},
                    Err(_) => {
                        return Err(SimError::MemoryAccess);
                    },
                }
                mem.incr_pc();
                Ok(StepEvent::Proceed)
            },
            Instruction::SW { imm, rs1, rs2 } => {
                let v: u32 = mem.get_register(rs2);
                let rb: [u8; 4] = from_u32(v);
                let base: u32 = mem.get_register(rs1);
                let ea: u32 = base.wrapping_add_signed(imm);
                let mut data: Vec<u8> = Vec::new();
                data.push(rb[0]);
                data.push(rb[1]);
                data.push(rb[2]);
                data.push(rb[3]);
                proof {
                    assert(data@ =~= bytes_of_word(reg_val(mem@, rs2)));
                }
                match mem.read_mut(ea as usize, data.as_slice()) {
                    Ok(_) => {},
                    Err(_) => {
                        return Err(SimError::MemoryAccess);
                    },
                }
                mem.incr_pc();
                Ok(StepEvent::Proceed)
            },
            Instruction::ADDI { imm, rs1, rd } => {
                let v: u32 = mem.get_register(rs1).wrapping_add_signed(imm);
                mem.set_register(v, rd);
                mem.incr_pc();
                Ok(StepEvent::Proceed)
            },
            Instruction::SLTI { imm, rs1, rd } => {
                if (mem.get_register(rs1) as i32) < imm {
                    mem.set_register(1, rd);
                } else {
                    mem.set_register(0, rd);
                }
                mem.incr_pc();
                Ok(StepEvent::Proceed)
            },
            Instruction::SLTIU { imm, rs1, rd } => {
                if imm == 1 {
                    // the architecture's idiom: the result tests "is rs1 zero"
                    if mem.get_register(rs1) == 0 {
                        mem.set_register(1, rd);
                    } else {
                        mem.set_register(0, rd);
                    }
                } else {
                    if mem.get_register(rs1) < (imm as u32) {
                        mem.set_register(1, rd);
                    } else {
                        mem.set_register(0, rd);
                    }
                }
                mem.incr_pc();
                Ok(StepEvent::Proceed)
            },
            Instruction::XORI { imm, rs1, rd } => {
                let v: u32 = mem.get_register(rs1) ^ (imm as u32);
                mem.set_register(v, rd);
                mem.incr_pc();
                Ok(StepEvent::Proceed)
            },
            Instruction::ORI { imm, rs1, rd } => {
                let v: u32 = mem.get_register(rs1) | (imm as u32);
                mem.set_register(v, rd);
                mem.incr_pc();
                Ok(StepEvent::Proceed)
            },
            Instruction::ANDI { imm, rs1, rd } => {
                let v: u32 = mem.get_register(rs1) & (imm as u32);
                mem.set_register(v, rd);
                mem.incr_pc();
                Ok(StepEvent::Proceed)
            },
            Instruction::SLLI { shift, rs1, rd } => {
                let v: u32 = mem.get_register(rs1) << (shift as u32);
                mem.set_register(v, rd);
                mem.incr_pc();
                Ok(StepEvent::Proceed)
            },
            Instruction::SRLI { shift, rs1, rd } => {
                let v: u32 = mem.get_register(rs1) >> (shift as u32);
                mem.set_register(v, rd);
                mem.incr_pc();
                Ok(StepEvent::Proceed)
            },
            Instruction::SRAI { shift, rs1, rd } => {
                let v: u32 = ((mem.get_register(rs1) as i32) >> (shift as u32)) as u32;
                mem.set_register(v, rd);
                mem.incr_pc();
                Ok(StepEvent::Proceed)
            },
            Instruction::ADD { rs1, rs2, rd } => {
                let v: u32 = mem.get_register(rs1).wrapping_add(mem.get_register(rs2));
                mem.set_register(v, rd);
                mem.incr_pc();
                Ok(StepEvent::Proceed)
            },
            Instruction::SUB { rs1, rs2, rd } => {
                let v: u32 = mem.get_register(rs2).wrapping_sub(mem.get_register(rs1));
                mem.set_register(v, rd);
                mem.incr_pc();
                Ok(StepEvent::Proceed)
            },
            Instruction::SLL { rs1, rs2, rd } => {
                proof {
                    lemma_mask5(reg_val(mem@, rs1));
                }
                let sh: u32 = mem.get_register(rs1) & 0x1f;
                let v: u32 = mem.get_register(rs2) << sh;
                mem.set_register(v, rd);
                mem.incr_pc();
                Ok(StepEvent::Proceed)
            },
            Instruction::SLT { rs1, rs2, rd } => {
                if (mem.get_register(rs1) as i32) < (mem.get_register(rs2) as i32) {
                    mem.set_register(1, rd);
                } else {
                    mem.set_register(0, rd);
                }
                mem.incr_pc();
                Ok(StepEvent::Proceed)
            },
            Instruction::SLTU { rs1, rs2, rd } => {
                if rs1 == 0 {
                    // the architecture's idiom: the result tests "is rs2 nonzero"
                    if mem.get_register(rs2) != 0 {
                        mem.set_register(1, rd);
                    } else {
                        mem.set_register(0, rd);
                    }
                } else {
                    if mem.get_register(rs1) < mem.get_register(rs2) {
                        mem.set_register(1, rd);
                    } else {
                        mem.set_register(0, rd);
                    }
                }
                mem.incr_pc();
                Ok(StepEvent::Proceed)
            },
            Instruction::XOR { rs1, rs2, rd } => {
                let v: u32 = mem.get_register(rs2) ^ mem.get_register(rs1);
                mem.set_register(v, rd);
                mem.incr_pc();
                Ok(StepEvent::Proceed)
            },
            Instruction::SRL { rs1, rs2, rd } => {
                proof {
                    lemma_mask5(reg_val(mem@, rs1));
                }
                let sh: u32 = mem.get_register(rs1) & 0x1f;
                let v: u32 = mem.get_register(rs2) >> sh;
                mem.set_register(v, rd);
                mem.incr_pc();
                Ok(StepEvent::Proceed)
            },
            Instruction::SRA { rs1, rs2, rd } => {
                proof {
                    lemma_mask5(reg_val(mem@, rs1));
                }
                let sh: u32 = mem.get_register(rs1) & 0x1f;
                let v: u32 = ((mem.get_register(rs2) as i32) >> sh) as u32;
                mem.set_register(v, rd);
                mem.incr_pc();
                Ok(StepEvent::Proceed)
            },
            Instruction::OR { rs1, rs2, rd } => {
                let v: u32 = mem.get_register(rs2) | mem.get_register(rs1);
                mem.set_register(v, rd);
                mem.incr_pc();
                Ok(StepEvent::Proceed)
            },
            Instruction::AND { rs1, rs2, rd } => {
                let v: u32 = mem.get_register(rs2) & mem.get_register(rs1);
                mem.set_register(v, rd);
                mem.incr_pc();
                Ok(StepEvent::Proceed)
            },
            Instruction::ECALL => {
                mem.incr_pc();
                Ok(StepEvent::ServiceCall)
            },
            Instruction::EBREAK => {
                mem.incr_pc();
                Ok(StepEvent::DebugBreak)
            },
        }
    }
}

} // verus!
