//! The binary instruction decoder.
//!
//! A raw 32-bit word is turned into a structured [`Instruction`] whose
//! operand fields are extracted and sign-extended exactly per the
//! architecture's encoding rules.  Decoding is total over the supported
//! encodings and reports a [`DecodeError`] for every other word.

use vstd::prelude::*;

verus! {

/// One decoded operation.  Each variant carries exactly the operand fields
/// its form needs: a sign-extended immediate, up to two source-register
/// indices, a destination-register index, or a 5-bit shift amount.
#[derive(Clone, Copy, Debug, PartialEq, Eq, Structural)]
pub enum Instruction {
    /// Load the upper 20 bits, low 12 bits zero, into `rd`.
    LUI { imm: i32, rd: u8 },
    /// Add the upper immediate to the program counter, result into `rd`.
    AUIPC { imm: i32, rd: u8 },
    /// Jump relative to the current instruction; the following address goes into `rd`.
    JAL { imm: i32, rd: u8 },
    /// Jump to `rs1 + imm`; the following address goes into `rd`.
    JALR { imm: i32, rd: u8, rs1: u8 },
    /// Branch if `rs1 == rs2`.
    BEQ { imm: i32, rs1: u8, rs2: u8 },
    /// Branch if `rs1 != rs2`.
    BNE { imm: i32, rs1: u8, rs2: u8 },
    /// Branch if `rs1 < rs2`, signed.
    BLT { imm: i32, rs1: u8, rs2: u8 },
    /// Branch if `rs1 >= rs2`, signed.
    BGE { imm: i32, rs1: u8, rs2: u8 },
    /// Branch if `rs1 < rs2`, unsigned.
    BLTU { imm: i32, rs1: u8, rs2: u8 },
    /// Branch if `rs1 >= rs2`, unsigned.
    BGEU { imm: i32, rs1: u8, rs2: u8 },
    /// Load one byte, sign-extended.
    LB { imm: i32, rs1: u8, rd: u8 },
    /// Load two bytes, sign-extended.
    LH { imm: i32, rs1: u8, rd: u8 },
    /// Load a four-byte word.
    LW { imm: i32, rs1: u8, rd: u8 },
    /// Load one byte, zero-extended.
    LBU { imm: i32, rs1: u8, rd: u8 },
    /// Load two bytes, zero-extended.
    LHU { imm: i32, rs1: u8, rd: u8 },
    /// Store the low byte of `rs2`.
    SB { imm: i32, rs1: u8, rs2: u8 },
    /// Store the low two bytes of `rs2`.
    SH { imm: i32, rs1: u8, rs2: u8 },
    /// Store the four bytes of `rs2`.
    SW { imm: i32, rs1: u8, rs2: u8 },
    /// `rs1 + imm -> rd`, wrapping.
    ADDI { imm: i32, rs1: u8, rd: u8 },
    /// `rd = 1` if `rs1 < imm` signed, else `0`.
    SLTI { imm: i32, rs1: u8, rd: u8 },
    /// `rd = 1` if `rs1 < imm` unsigned, else `0`.
    SLTIU { imm: i32, rs1: u8, rd: u8 },
    /// `rs1 ^ imm -> rd`.
    XORI { imm: i32, rs1: u8, rd: u8 },
    /// `rs1 | imm -> rd`.
    ORI { imm: i32, rs1: u8, rd: u8 },
    /// `rs1 & imm -> rd`.
    ANDI { imm: i32, rs1: u8, rd: u8 },
    /// Logical left shift of `rs1` by a constant amount.
    SLLI { shift: u8, rs1: u8, rd: u8 },
    /// Logical right shift of `rs1` by a constant amount.
    SRLI { shift: u8, rs1: u8, rd: u8 },
    /// Arithmetic right shift of `rs1` by a constant amount.
    SRAI { shift: u8, rs1: u8, rd: u8 },
    /// `rs1 + rs2 -> rd`, wrapping.
    ADD { rs1: u8, rs2: u8, rd: u8 },
    /// `rs2 - rs1 -> rd`, wrapping (the documented operand order of this design).
    SUB { rs1: u8, rs2: u8, rd: u8 },
    /// Logical left shift of `rs2` by the low five bits of `rs1`.
    SLL { rs1: u8, rs2: u8, rd: u8 },
    /// `rd = 1` if `rs1 < rs2` signed, else `0`.
    SLT { rs1: u8, rs2: u8, rd: u8 },
    /// `rd = 1` if `rs1 < rs2` unsigned, else `0`.
    SLTU { rs1: u8, rs2: u8, rd: u8 },
    /// `rs1 ^ rs2 -> rd`.
    XOR { rs1: u8, rs2: u8, rd: u8 },
    /// Logical right shift of `rs2` by the low five bits of `rs1`.
    SRL { rs1: u8, rs2: u8, rd: u8 },
    /// Arithmetic right shift of `rs2` by the low five bits of `rs1`.
    SRA { rs1: u8, rs2: u8, rd: u8 },
    /// `rs1 | rs2 -> rd`.
    OR { rs1: u8, rs2: u8, rd: u8 },
    /// `rs1 & rs2 -> rd`.
    AND { rs1: u8, rs2: u8, rd: u8 },
    /// Environment call: request a host service.
    ECALL,
    /// Environment break: report a debug breakpoint.
    EBREAK,
}

/// A word that does not decode to any supported operation.  The two cases
/// distinguish an unknown operation-code group from an unknown function-code
/// combination inside a recognized group.  Both are fatal for the simulator.
#[derive(Clone, Copy, Debug, PartialEq, Eq, Structural)]
pub enum DecodeError {
    /// The low seven bits select no recognized operation-code group.
    UnknownOpcode { opcode: u32 },
    /// The function selector picks no operation within its group.
    UnknownFunction { opcode: u32, func3: u8 },
}

/// The destination-register field, bits 11 down to 7.
pub open spec fn spec_rd(w: u32) -> u8 {
    ((w & (0x1fu32 << 7)) >> 7) as u8
}

/// The first source-register field, bits 19 down to 15.
pub open spec fn spec_rs1(w: u32) -> u8 {
    ((w & (0x1fu32 << 15)) >> 15) as u8
}

/// The second source-register field, bits 24 down to 20.
pub open spec fn spec_rs2(w: u32) -> u8 {
    ((w & (0x1fu32 << 20)) >> 20) as u8
}

/// The 3-bit function selector, bits 14 down to 12.
pub open spec fn spec_func3(w: u32) -> u8 {
    ((w & (0x7u32 << 12)) >> 12) as u8
}

/// The 7-bit secondary function selector, bits 31 down to 25.
pub open spec fn spec_func7(w: u32) -> u8 {
    ((w & (0x7fu32 << 25)) >> 25) as u8
}

/// The upper-immediate form: the top 20 bits used in place, low 12 bits zero.
pub open spec fn spec_u_imm(w: u32) -> u32 {
    w & 0xFFFF_F000
}

/// The 12-bit immediate of register-relative jumps, loads and immediate
/// arithmetic: the top 12 bits of the word, sign-extended.
pub open spec fn spec_i_imm(w: u32) -> u32 {
    let base: u32 = (w & (0xFFFu32 << 20)) >> 20;
    if w & 0x8000_0000 != 0 {
        base | 0xFFFF_F000
    } else {
        base
    }
}

/// The 13-bit conditional-branch offset, reassembled from four disjoint
/// sub-fields (sign bit, a 6-bit run, one isolated bit, a 4-bit run) and
/// sign-extended; its low bit is always zero.
pub open spec fn spec_b_imm(w: u32) -> u32 {
    let ext: u32 = if w & 0x8000_0000 != 0 {
        0xFFFF_F000
    } else {
        0
    };
    let b12: u32 = (w & 0x8000_0000) >> 19;
    let b10_5: u32 = (w & (0x3fu32 << 25)) >> 20;
    let b11: u32 = (w & (1u32 << 7)) << 4;
    let b4_1: u32 = (w & (0xfu32 << 8)) >> 7;
    ext | b12 | b4_1 | b11 | b10_5
}

/// The 12-bit store offset, reassembled from its two disjoint sub-fields
/// (high 7 bits and low 5 bits) and sign-extended.
pub open spec fn spec_s_imm(w: u32) -> u32 {
    let ext: u32 = if w & 0x8000_0000 != 0 {
        0xFFFF_F000
    } else {
        0
    };
    let b11_5: u32 = (w & (0x7fu32 << 25)) >> 20;
    let b4_0: u32 = (w & (0x1fu32 << 7)) >> 7;
    ext | b11_5 | b4_0
}

/// The 21-bit jump-relative offset, reassembled from four disjoint
/// sub-fields (sign bit, a 10-bit run, one isolated bit, an 8-bit run) and
/// sign-extended; its low bit is always zero.
pub open spec fn spec_j_imm(w: u32) -> u32 {
    let ext: u32 = if w & 0x8000_0000 != 0 {
        0xFFF0_0000
    } else {
        0
    };
    let b20: u32 = (w & 0x8000_0000) >> 11;
    let b10_1: u32 = (w & (0x3ffu32 << 21)) >> 20;
    let b11: u32 = (w & (1u32 << 20)) >> 9;
    let b19_12: u32 = w & (0xffu32 << 12);
    ext | b20 | b19_12 | b11 | b10_1
}

/// What every word decodes to: the mathematical statement of the decoder.
pub open spec fn decode_spec(w: u32) -> Result<Instruction, DecodeError> {
    let op: u32 = w & 0x7f;
    if op == 0b0110111 {
        Ok(Instruction::LUI { imm: spec_u_imm(w) as i32, rd: spec_rd(w) })
    } else if op == 0b0010111 {
        Ok(Instruction::AUIPC { imm: spec_u_imm(w) as i32, rd: spec_rd(w) })
    } else if op == 0b1101111 {
        Ok(Instruction::JAL { imm: spec_j_imm(w) as i32, rd: spec_rd(w) })
    } else if op == 0b1100111 {
        Ok(
            Instruction::JALR {
                imm: spec_i_imm(w) as i32,
                rd: spec_rd(w),
                rs1: spec_rs1(w),
            },
        )
    } else if op == 0b1100011 {
        let imm: i32 = spec_b_imm(w) as i32;
        let rs1: u8 = spec_rs1(w);
        let rs2: u8 = spec_rs2(w);
        let f3: u8 = spec_func3(w);
        if f3 == 0b000 {
            Ok(Instruction::BEQ { imm, rs1, rs2 })
        } else if f3 == 0b001 {
            Ok(Instruction::BNE { imm, rs1, rs2 })
        } else if f3 == 0b100 {
            Ok(Instruction::BLT { imm, rs1, rs2 })
        } else if f3 == 0b101 {
            Ok(Instruction::BGE { imm, rs1, rs2 })
        } else if f3 == 0b110 {
            Ok(Instruction::BLTU { imm, rs1, rs2 })
        } else if f3 == 0b111 {
            Ok(Instruction::BGEU { imm, rs1, rs2 })
        } else {
            Err(DecodeError::UnknownFunction { opcode: op, func3: f3 })
        }
    } else if op == 0b0000011 {
        let imm: i32 = spec_i_imm(w) as i32;
        let rs1: u8 = spec_rs1(w);
        let rd: u8 = spec_rd(w);
        let f3: u8 = spec_func3(w);
        if f3 == 0b000 {
            Ok(Instruction::LB { imm, rs1, rd })
        } else if f3 == 0b001 {
            Ok(Instruction::LH { imm, rs1, rd })
        } else if f3 == 0b010 {
            Ok(Instruction::LW { imm, rs1, rd })
        } else if f3 == 0b100 {
            Ok(Instruction::LBU { imm, rs1, rd })
        } else if f3 == 0b101 {
            Ok(Instruction::LHU { imm, rs1, rd })
        } else {
            Err(DecodeError::UnknownFunction { opcode: op, func3: f3 })
        }
    } else if op == 0b0100011 {
        let imm: i32 = spec_s_imm(w) as i32;
        let rs1: u8 = spec_rs1(w);
        let rs2: u8 = spec_rs2(w);
        let f3: u8 = spec_func3(w);
        if f3 == 0b000 {
            Ok(Instruction::SB { imm, rs1, rs2 })
        } else if f3 == 0b001 {
            Ok(Instruction::SH { imm, rs1, rs2 })
        } else if f3 == 0b010 {
            Ok(Instruction::SW { imm, rs1, rs2 })
        } else {
            Err(DecodeError::UnknownFunction { opcode: op, func3: f3 })
        }
    } else if op == 0b0010011 {
        let imm: i32 = spec_i_imm(w) as i32;
        let rs1: u8 = spec_rs1(w);
        let rd: u8 = spec_rd(w);
        let f3: u8 = spec_func3(w);
        if f3 == 0b000 {
            Ok(Instruction::ADDI { imm, rd, rs1 })
        } else if f3 == 0b010 {
            Ok(Instruction::SLTI { imm, rd, rs1 })
        } else if f3 == 0b011 {
            Ok(Instruction::SLTIU { imm, rd, rs1 })
        } else if f3 == 0b100 {
            Ok(Instruction::XORI { imm, rd, rs1 })
        } else if f3 == 0b110 {
            Ok(Instruction::ORI { imm, rd, rs1 })
        } else if f3 == 0b111 {
            Ok(Instruction::ANDI { imm, rd, rs1 })
        } else if f3 == 0b001 {
            Ok(Instruction::SLLI { shift: spec_rs2(w), rs1, rd })
        } else {
            // f3 == 0b101
            if spec_func7(w) == 0 {
                Ok(Instruction::SRLI { shift: spec_rs2(w), rs1, rd })
            } else {
                Ok(Instruction::SRAI { shift: spec_rs2(w), rs1, rd })
            }
        }
    } else if op == 0b0110011 {
        let rs1: u8 = spec_rs1(w);
        let rs2: u8 = spec_rs2(w);
        let rd: u8 = spec_rd(w);
        let f3: u8 = spec_func3(w);
        let f7: u8 = spec_func7(w);
        if f3 == 0b000 {
            if f7 == 0 {
                Ok(Instruction::ADD { rs2, rd, rs1 })
            } else {
                Ok(Instruction::SUB { rs2, rd, rs1 })
            }
        } else if f3 == 0b001 {
            Ok(Instruction::SLL { rs2, rd, rs1 })
        } else if f3 == 0b010 {
            Ok(Instruction::SLT { rs2, rd, rs1 })
        } else if f3 == 0b011 {
            Ok(Instruction::SLTU { rs2, rd, rs1 })
        } else if f3 == 0b100 {
            Ok(Instruction::XOR { rs2, rd, rs1 })
        } else if f3 == 0b101 {
            if f7 == 0 {
                Ok(Instruction::SRL { rs2, rd, rs1 })
            } else {
                Ok(Instruction::SRA { rs2, rd, rs1 })
            }
        } else if f3 == 0b110 {
            Ok(Instruction::OR { rs2, rd, rs1 })
        } else {
            // f3 == 0b111
            Ok(Instruction::AND { rs2, rd, rs1 })
        }
    } else if op == 0b1110011 {
        if spec_i_imm(w) == 0 {
            Ok(Instruction::ECALL)
        } else {
            Ok(Instruction::EBREAK)
        }
    } else {
        Err(DecodeError::UnknownOpcode { opcode: op })
    }
}

/// Extracts the destination-register field.
pub fn get_rd(inst: u32) -> (r: u8)
    ensures
        r == spec_rd(inst),
{
    let masked: u32 = inst & (0x1fu32 << 7);
    (masked >> 7) as u8
}

/// Extracts the first source-register field.
pub fn get_rs1(inst: u32) -> (r: u8)
    ensures
        r == spec_rs1(inst),
{
    let masked: u32 = inst & (0x1fu32 << 15);
    (masked >> 15) as u8
}

/// Extracts the second source-register field.
pub fn get_rs2(inst: u32) -> (r: u8)
    ensures
        r == spec_rs2(inst),
{
    let masked: u32 = inst & (0x1fu32 << 20);
    (masked >> 20) as u8
}

/// Extracts the 3-bit function selector.
pub fn get_func3(inst: u32) -> (r: u8)
    ensures
        r == spec_func3(inst),
{
    let masked: u32 = inst & (0x7u32 << 12);
    (masked >> 12) as u8
}

/// Extracts the 7-bit secondary function selector.
pub fn get_func7(inst: u32) -> (r: u8)
    ensures
        r == spec_func7(inst),
{
    let masked: u32 = inst & (0x7fu32 << 25);
    (masked >> 25) as u8
}

/// Reassembles and sign-extends the conditional-branch offset.
pub fn get_b_imm(inst: u32) -> (r: u32)
    ensures
        r == spec_b_imm(inst),
{
    let ext: u32 = if inst & 0x8000_0000 != 0 {
        0xFFFF_F000
    } else {
        0
    };
    let b12: u32 = (inst & 0x8000_0000) >> 19;
    let b10_5: u32 = (inst & (0x3fu32 << 25)) >> 20;
    let b11: u32 = (inst & (1u32 << 7)) << 4;
    let b4_1: u32 = (inst & (0xfu32 << 8)) >> 7;
    ext | b12 | b4_1 | b11 | b10_5
}

/// Reassembles and sign-extends the store offset.
pub fn get_s_imm(inst: u32) -> (r: u32)
    ensures
        r == spec_s_imm(inst),
{
    let ext: u32 = if inst & 0x8000_0000 != 0 {
        0xFFFF_F000
    } else {
        0
    };
    let b11_5: u32 = (inst & (0x7fu32 << 25)) >> 20;
    let b4_0: u32 = (inst & (0x1fu32 << 7)) >> 7;
    ext | b11_5 | b4_0
}

/// Extracts and sign-extends the 12-bit immediate from the top of the word.
pub fn get_imm_11_0(inst: u32) -> (r: u32)
    ensures
        r == spec_i_imm(inst),
{
    let base: u32 = (inst & (0xFFFu32 << 20)) >> 20;
    if inst & 0x8000_0000 != 0 {
        base | 0xFFFF_F000
    } else {
        base
    }
}

/// Reassembles and sign-extends the jump-relative offset.
fn get_j_imm(inst: u32) -> (r: u32)
    ensures
        r == spec_j_imm(inst),
{
    let ext: u32 = if inst & 0x8000_0000 != 0 {
        0xFFF0_0000
    } else {
        0
    };
    let b20: u32 = (inst & 0x8000_0000) >> 11;
    let b10_1: u32 = (inst & (0x3ffu32 << 21)) >> 20;
    let b11: u32 = (inst & (1u32 << 20)) >> 9;
    let b19_12: u32 = inst & (0xffu32 << 12);
    ext | b20 | b19_12 | b11 | b10_1
}

impl Instruction {
    /// Decodes a raw instruction word, totally over the supported
    /// encodings; every other word yields the exact [`DecodeError`].
    pub fn new(inst: u32) -> (r: Result<Instruction, DecodeError>)
        ensures
            r == decode_spec(inst),
    {
        let op: u32 = inst & 0x7f;
        if op == 0b0110111 {
            let imm: u32 = inst & 0xFFFF_F000;
            let rd: u8 = get_rd(inst);
            Ok(Instruction::LUI { rd, imm: imm as i32 })
        } else if op == 0b0010111 {
            let imm: u32 = inst & 0xFFFF_F000;
            let rd: u8 = get_rd(inst);
            Ok(Instruction::AUIPC { rd, imm: imm as i32 })
        } else if op == 0b1101111 {
            let imm: u32 = get_j_imm(inst);
            let rd: u8 = get_rd(inst);
            Ok(Instruction::JAL { rd, imm: imm as i32 })
        } else if op == 0b1100111 {
            let imm: i32 = get_imm_11_0(inst) as i32;
            let rs1: u8 = get_rs1(inst);
            let rd: u8 = get_rd(inst);
            Ok(Instruction::JALR { imm, rs1, rd })
        } else if op == 0b1100011 {
            let func3: u8 = get_func3(inst);
            let imm: i32 = get_b_imm(inst) as i32;
            let rs2: u8 = get_rs2(inst);
            let rs1: u8 = get_rs1(inst);
            match func3 {
                0b000 => Ok(Instruction::BEQ { imm, rs1, rs2 }),
                0b001 => Ok(Instruction::BNE { imm, rs1, rs2 }),
                0b100 => Ok(Instruction::BLT { imm, rs1, rs2 }),
                0b101 => Ok(Instruction::BGE { imm, rs1, rs2 }),
                0b110 => Ok(Instruction::BLTU { imm, rs1, rs2 }),
                0b111 => Ok(Instruction::BGEU { imm, rs1, rs2 }),
                _ => Err(DecodeError::UnknownFunction { opcode: op, func3 }),
            }
        } else if op == 0b0000011 {
            let imm: i32 = get_imm_11_0(inst) as i32;
            let rs1: u8 = get_rs1(inst);
            let rd: u8 = get_rd(inst);
            let func3: u8 = get_func3(inst);
            match func3 {
                0b000 => Ok(Instruction::LB { imm, rs1, rd }),
                0b001 => Ok(Instruction::LH { imm, rs1, rd }),
                0b010 => Ok(Instruction::LW { imm, rs1, rd }),
                0b100 => Ok(Instruction::LBU { imm, rs1, rd }),
                0b101 => Ok(Instruction::LHU { imm, rs1, rd }),
                _ => Err(DecodeError::UnknownFunction { opcode: op, func3 }),
            }
        } else if op == 0b0100011 {
            let imm: i32 = get_s_imm(inst) as i32;
            let rs1: u8 = get_rs1(inst);
            let rs2: u8 = get_rs2(inst);
            let func3: u8 = get_func3(inst);
            match func3 {
                0b000 => Ok(Instruction::SB { imm, rs1, rs2 }),
                0b001 => Ok(Instruction::SH { imm, rs1, rs2 }),
                0b010 => Ok(Instruction::SW { imm, rs1, rs2 }),
                _ => Err(DecodeError::UnknownFunction { opcode: op, func3 }),
            }
        } else if op == 0b0010011 {
            let func3: u8 = get_func3(inst);
            let func7: u8 = get_func7(inst);
            let shift: u8 = get_rs2(inst);
            let imm: i32 = get_imm_11_0(inst) as i32;
            let rs1: u8 = get_rs1(inst);
            let rd: u8 = get_rd(inst);
            match func3 {
                0b000 => Ok(Instruction::ADDI { imm, rd, rs1 }),
                0b010 => Ok(Instruction::SLTI { imm, rd, rs1 }),
                0b011 => Ok(Instruction::SLTIU { imm, rd, rs1 }),
                0b100 => Ok(Instruction::XORI { imm, rd, rs1 }),
                0b110 => Ok(Instruction::ORI { imm, rd, rs1 }),
                0b111 => Ok(Instruction::ANDI { imm, rd, rs1 }),
                0b001 => Ok(Instruction::SLLI { shift, rs1, rd }),
                _ => {
                    if func7 == 0 {
                        Ok(Instruction::SRLI { shift, rs1, rd })
                    } else {
                        Ok(Instruction::SRAI { shift, rs1, rd })
                    }
                },
            }
        } else if op == 0b0110011 {
            let func7: u8 = get_func7(inst);
            let func3: u8 = get_func3(inst);
            let rs1: u8 = get_rs1(inst);
            let rs2: u8 = get_rs2(inst);
            let rd: u8 = get_rd(inst);
            match func3 {
                0b000 => {
                    if func7 == 0 {
                        Ok(Instruction::ADD { rs2, rd, rs1 })
                    } else {
                        Ok(Instruction::SUB { rs2, rd, rs1 })
                    }
                },
                0b001 => Ok(Instruction::SLL { rs2, rd, rs1 }),
                0b010 => Ok(Instruction::SLT { rs2, rd, rs1 }),
                0b011 => Ok(Instruction::SLTU { rs2, rd, rs1 }),
                0b100 => Ok(Instruction::XOR { rs2, rd, rs1 }),
                0b101 => {
                    if func7 == 0 {
                        Ok(Instruction::SRL { rs2, rd, rs1 })
                    } else {
                        Ok(Instruction::SRA { rs2, rd, rs1 })
                    }
                },
                0b110 => Ok(Instruction::OR { rs2, rd, rs1 }),
                _ => Ok(Instruction::AND { rs2, rd, rs1 }),
            }
        } else if op == 0b1110011 {
            let imm: u32 = get_imm_11_0(inst);
            if imm == 0 {
                Ok(Instruction::ECALL)
            } else {
                Ok(Instruction::EBREAK)
            }
        } else {
            Err(DecodeError::UnknownOpcode { opcode: op })
        }
    }
}

impl Instruction {
    /// The legal operand ranges of each form: register indices below 32,
    /// immediates within the range their encoded field can hold (with the
    /// parity the form forces), shift amounts below 32.  This is exactly the
    /// image of the decoder.
    pub open spec fn legal(self) -> bool {
        match self {
            Instruction::LUI { imm, rd } => rd < 32 && imm & 0xFFF == 0,
            Instruction::AUIPC { imm, rd } => rd < 32 && imm & 0xFFF == 0,
            Instruction::JAL { imm, rd } => rd < 32 && -0x10_0000 <= imm < 0x10_0000 && imm % 2
                == 0,
            Instruction::JALR { imm, rd, rs1 } => rd < 32 && rs1 < 32 && -2048 <= imm <= 2047,
            Instruction::BEQ { imm, rs1, rs2 } => rs1 < 32 && rs2 < 32 && -0x1000 <= imm < 0x1000
                && imm % 2 == 0,
            Instruction::BNE { imm, rs1, rs2 } => rs1 < 32 && rs2 < 32 && -0x1000 <= imm < 0x1000
                && imm % 2 == 0,
            Instruction::BLT { imm, rs1, rs2 } => rs1 < 32 && rs2 < 32 && -0x1000 <= imm < 0x1000
                && imm % 2 == 0,
            Instruction::BGE { imm, rs1, rs2 } => rs1 < 32 && rs2 < 32 && -0x1000 <= imm < 0x1000
                && imm % 2 == 0,
            Instruction::BLTU { imm, rs1, rs2 } => rs1 < 32 && rs2 < 32 && -0x1000 <= imm < 0x1000
                && imm % 2 == 0,
            Instruction::BGEU { imm, rs1, rs2 } => rs1 < 32 && rs2 < 32 && -0x1000 <= imm < 0x1000
                && imm % 2 == 0,
            Instruction::LB { imm, rs1, rd } => rd < 32 && rs1 < 32 && -2048 <= imm <= 2047,
            Instruction::LH { imm, rs1, rd } => rd < 32 && rs1 < 32 && -2048 <= imm <= 2047,
            Instruction::LW { imm, rs1, rd } => rd < 32 && rs1 < 32 && -2048 <= imm <= 2047,
            Instruction::LBU { imm, rs1, rd } => rd < 32 && rs1 < 32 && -2048 <= imm <= 2047,
            Instruction::LHU { imm, rs1, rd } => rd < 32 && rs1 < 32 && -2048 <= imm <= 2047,
            Instruction::SB { imm, rs1, rs2 } => rs1 < 32 && rs2 < 32 && -2048 <= imm <= 2047,
            Instruction::SH { imm, rs1, rs2 } => rs1 < 32 && rs2 < 32 && -2048 <= imm <= 2047,
            Instruction::SW { imm, rs1, rs2 } => rs1 < 32 && rs2 < 32 && -2048 <= imm <= 2047,
            Instruction::ADDI { imm, rs1, rd } => rd < 32 && rs1 < 32 && -2048 <= imm <= 2047,
            Instruction::SLTI { imm, rs1, rd } => rd < 32 && rs1 < 32 && -2048 <= imm <= 2047,
            Instruction::SLTIU { imm, rs1, rd } => rd < 32 && rs1 < 32 && -2048 <= imm <= 2047,
            Instruction::XORI { imm, rs1, rd } => rd < 32 && rs1 < 32 && -2048 <= imm <= 2047,
            Instruction::ORI { imm, rs1, rd } => rd < 32 && rs1 < 32 && -2048 <= imm <= 2047,
            Instruction::ANDI { imm, rs1, rd } => rd < 32 && rs1 < 32 && -2048 <= imm <= 2047,
            Instruction::SLLI { shift, rs1, rd } => rd < 32 && rs1 < 32 && shift < 32,
            Instruction::SRLI { shift, rs1, rd } => rd < 32 && rs1 < 32 && shift < 32,
            Instruction::SRAI { shift, rs1, rd } => rd < 32 && rs1 < 32 && shift < 32,
            Instruction::ADD { rs1, rs2, rd } => rd < 32 && rs1 < 32 && rs2 < 32,
            Instruction::SUB { rs1, rs2, rd } => rd < 32 && rs1 < 32 && rs2 < 32,
            Instruction::SLL { rs1, rs2, rd } => rd < 32 && rs1 < 32 && rs2 < 32,
            Instruction::SLT { rs1, rs2, rd } => rd < 32 && rs1 < 32 && rs2 < 32,
            Instruction::SLTU { rs1, rs2, rd } => rd < 32 && rs1 < 32 && rs2 < 32,
            Instruction::XOR { rs1, rs2, rd } => rd < 32 && rs1 < 32 && rs2 < 32,
            Instruction::SRL { rs1, rs2, rd } => rd < 32 && rs1 < 32 && rs2 < 32,
            Instruction::SRA { rs1, rs2, rd } => rd < 32 && rs1 < 32 && rs2 < 32,
            Instruction::OR { rs1, rs2, rd } => rd < 32 && rs1 < 32 && rs2 < 32,
            Instruction::AND { rs1, rs2, rd } => rd < 32 && rs1 < 32 && rs2 < 32,
            Instruction::ECALL => true,
            Instruction::EBREAK => true,
        }
    }
}

/// The fixed 5-bit and 3-bit fields are bounded for every word.
pub proof fn lemma_field_bounds(w: u32)
    by (bit_vector)
    ensures
        spec_rd(w) < 32,
        spec_rs1(w) < 32,
        spec_rs2(w) < 32,
        spec_func3(w) < 8,
        spec_func7(w) < 128,
{
}

/// Sign extension of the upper-immediate form: the value keeps its low 12
/// bits zero, and it is negative exactly when the word's sign bit is set.
pub proof fn lemma_sign_extension_u(w: u32)
    by (bit_vector)
    ensures
        (spec_u_imm(w) as i32) & 0xFFF == 0,
        w & 0x8000_0000 != 0 <==> (spec_u_imm(w) as i32) < 0,
        (spec_u_imm(w) as i32) as u32 == spec_u_imm(w),
{
}

/// Sign extension of the 12-bit immediate form: the value is negative
/// exactly when the word's sign bit is set, it stays within the range a
/// 12-bit two's-complement field can hold, and its low 12 bits match the
/// encoded field exactly.
pub proof fn lemma_sign_extension_i(w: u32)
    by (bit_vector)
    ensures
        -2048 <= (spec_i_imm(w) as i32) <= 2047,
        w & 0x8000_0000 != 0 <==> (spec_i_imm(w) as i32) < 0,
        ((spec_i_imm(w) as i32) as u32) & 0xFFF == (w >> 20) & 0xFFF,
        (spec_i_imm(w) as i32) as u32 == spec_i_imm(w),
{
}

/// Sign extension of the store offset: negative exactly when the word's
/// sign bit is set, within 12-bit two's-complement range, and the low 12
/// bits match the two encoded sub-fields exactly.
pub proof fn lemma_sign_extension_s(w: u32)
    by (bit_vector)
    ensures
        -2048 <= (spec_s_imm(w) as i32) <= 2047,
        w & 0x8000_0000 != 0 <==> (spec_s_imm(w) as i32) < 0,
        ((spec_s_imm(w) as i32) as u32) & 0xFE0 == ((w >> 25) & 0x7f) << 5,
        ((spec_s_imm(w) as i32) as u32) & 0x1F == (w >> 7) & 0x1f,
        (spec_s_imm(w) as i32) as u32 == spec_s_imm(w),
{
}

/// Sign extension of the conditional-branch offset: negative exactly when
/// the word's sign bit is set, within 13-bit two's-complement range, even,
/// and each bit run matches its encoded sub-field exactly.
pub proof fn lemma_sign_extension_b(w: u32)
    by (bit_vector)
    ensures
        -0x1000 <= (spec_b_imm(w) as i32) < 0x1000,
        w & 0x8000_0000 != 0 <==> (spec_b_imm(w) as i32) < 0,
        (spec_b_imm(w) as i32) % 2 == 0,
        spec_b_imm(w) & 1 == 0,
        (spec_b_imm(w) >> 12) & 1 == (w >> 31) & 1,
        (spec_b_imm(w) >> 11) & 1 == (w >> 7) & 1,
        (spec_b_imm(w) >> 5) & 0x3f == (w >> 25) & 0x3f,
        (spec_b_imm(w) >> 1) & 0xf == (w >> 8) & 0xf,
        (spec_b_imm(w) as i32) as u32 == spec_b_imm(w),
{
}

/// Sign extension of the jump-relative offset: negative exactly when the
/// word's sign bit is set, within 21-bit two's-complement range, even, and
/// each bit run matches its encoded sub-field exactly.
pub proof fn lemma_sign_extension_j(w: u32)
    by (bit_vector)
    ensures
        -0x10_0000 <= (spec_j_imm(w) as i32) < 0x10_0000,
        w & 0x8000_0000 != 0 <==> (spec_j_imm(w) as i32) < 0,
        (spec_j_imm(w) as i32) % 2 == 0,
        spec_j_imm(w) & 1 == 0,
        (spec_j_imm(w) >> 20) & 1 == (w >> 31) & 1,
        (spec_j_imm(w) >> 12) & 0xff == (w >> 12) & 0xff,
        (spec_j_imm(w) >> 11) & 1 == (w >> 20) & 1,
        (spec_j_imm(w) >> 1) & 0x3ff == (w >> 21) & 0x3ff,
        (spec_j_imm(w) as i32) as u32 == spec_j_imm(w),
{
}

/// The upper-immediate encoding shape.
pub open spec fn enc_u(imm: i32, rd: u8, opc: u32) -> u32 {
    (imm as u32) | ((rd as u32) << 7) | opc
}

/// The 12-bit-immediate encoding shape.
pub open spec fn enc_i(imm: i32, rs1: u8, rd: u8, f3: u8, opc: u32) -> u32 {
    (((imm as u32) & 0xFFF) << 20) | ((rs1 as u32) << 15) | ((f3 as u32) << 12) | ((rd as u32)
        << 7) | opc
}

/// The conditional-branch encoding shape.
pub open spec fn enc_b(imm: i32, rs1: u8, rs2: u8, f3: u8) -> u32 {
    let u: u32 = imm as u32;
    (((u >> 12) & 1) << 31) | (((u >> 5) & 0x3f) << 25) | ((rs2 as u32) << 20) | ((rs1 as u32)
        << 15) | ((f3 as u32) << 12) | (((u >> 1) & 0xf) << 8) | (((u >> 11) & 1) << 7)
        | 0b1100011
}

/// The store encoding shape.
pub open spec fn enc_s(imm: i32, rs1: u8, rs2: u8, f3: u8) -> u32 {
    let u: u32 = imm as u32;
    (((u >> 5) & 0x7f) << 25) | ((rs2 as u32) << 20) | ((rs1 as u32) << 15) | ((f3 as u32) << 12)
        | ((u & 0x1f) << 7) | 0b0100011
}

/// The jump-relative encoding shape.
pub open spec fn enc_j(imm: i32, rd: u8) -> u32 {
    let u: u32 = imm as u32;
    (((u >> 20) & 1) << 31) | (((u >> 1) & 0x3ff) << 21) | (((u >> 11) & 1) << 20) | (u & (
    0xffu32 << 12)) | ((rd as u32) << 7) | 0b1101111
}

/// The register-register encoding shape.
pub open spec fn enc_r(rs1: u8, rs2: u8, rd: u8, f3: u8, f7: u8) -> u32 {
    ((f7 as u32) << 25) | ((rs2 as u32) << 20) | ((rs1 as u32) << 15) | ((f3 as u32) << 12) | ((
    rd as u32) << 7) | 0b0110011
}

/// The shift-immediate encoding shape.
pub open spec fn enc_shift(shift: u8, rs1: u8, rd: u8, f3: u8, f7: u8) -> u32 {
    ((f7 as u32) << 25) | ((shift as u32) << 20) | ((rs1 as u32) << 15) | ((f3 as u32) << 12) | ((
    rd as u32) << 7) | 0b0010011
}

proof fn lemma_enc_u(imm: i32, rd: u8, opc: u32)
    by (bit_vector)
    requires
        imm & 0xFFF == 0,
        rd < 32,
        opc < 128,
    ensures
        enc_u(imm, rd, opc) & 0x7f == opc,
        spec_rd(enc_u(imm, rd, opc)) == rd,
        spec_u_imm(enc_u(imm, rd, opc)) as i32 == imm,
{
}

proof fn lemma_enc_i(imm: i32, rs1: u8, rd: u8, f3: u8, opc: u32)
    by (bit_vector)
    requires
        -2048 <= imm <= 2047,
        rs1 < 32,
        rd < 32,
        f3 < 8,
        opc < 128,
    ensures
        enc_i(imm, rs1, rd, f3, opc) & 0x7f == opc,
        spec_rd(enc_i(imm, rs1, rd, f3, opc)) == rd,
        spec_rs1(enc_i(imm, rs1, rd, f3, opc)) == rs1,
        spec_func3(enc_i(imm, rs1, rd, f3, opc)) == f3,
        spec_i_imm(enc_i(imm, rs1, rd, f3, opc)) as i32 == imm,
{
}

proof fn lemma_enc_b(imm: i32, rs1: u8, rs2: u8, f3: u8)
    by (bit_vector)
    requires
        -0x1000 <= imm < 0x1000,
        imm % 2 == 0,
        rs1 < 32,
        rs2 < 32,
        f3 < 8,
    ensures
        enc_b(imm, rs1, rs2, f3) & 0x7f == 0b1100011,
        spec_rs1(enc_b(imm, rs1, rs2, f3)) == rs1,
        spec_rs2(enc_b(imm, rs1, rs2, f3)) == rs2,
        spec_func3(enc_b(imm, rs1, rs2, f3)) == f3,
        spec_b_imm(enc_b(imm, rs1, rs2, f3)) as i32 == imm,
{
}

proof fn lemma_enc_s(imm: i32, rs1: u8, rs2: u8, f3: u8)
    by (bit_vector)
    requires
        -2048 <= imm <= 2047,
        rs1 < 32,
        rs2 < 32,
        f3 < 8,
    ensures
        enc_s(imm, rs1, rs2, f3) & 0x7f == 0b0100011,
        spec_rs1(enc_s(imm, rs1, rs2, f3)) == rs1,
        spec_rs2(enc_s(imm, rs1, rs2, f3)) == rs2,
        spec_func3(enc_s(imm, rs1, rs2, f3)) == f3,
        spec_s_imm(enc_s(imm, rs1, rs2, f3)) as i32 == imm,
{
}

proof fn lemma_enc_j(imm: i32, rd: u8)
    by (bit_vector)
    requires
        -0x10_0000 <= imm < 0x10_0000,
        imm % 2 == 0,
        rd < 32,
    ensures
        enc_j(imm, rd) & 0x7f == 0b1101111,
        spec_rd(enc_j(imm, rd)) == rd,
        spec_j_imm(enc_j(imm, rd)) as i32 == imm,
{
}

proof fn lemma_enc_r(rs1: u8, rs2: u8, rd: u8, f3: u8, f7: u8)
    by (bit_vector)
    requires
        rs1 < 32,
        rs2 < 32,
        rd < 32,
        f3 < 8,
        f7 < 128,
    ensures
        enc_r(rs1, rs2, rd, f3, f7) & 0x7f == 0b0110011,
        spec_rd(enc_r(rs1, rs2, rd, f3, f7)) == rd,
        spec_rs1(enc_r(rs1, rs2, rd, f3, f7)) == rs1,
        spec_rs2(enc_r(rs1, rs2, rd, f3, f7)) == rs2,
        spec_func3(enc_r(rs1, rs2, rd, f3, f7)) == f3,
        spec_func7(enc_r(rs1, rs2, rd, f3, f7)) == f7,
{
}

proof fn lemma_enc_shift(shift: u8, rs1: u8, rd: u8, f3: u8, f7: u8)
    by (bit_vector)
    requires
        shift < 32,
        rs1 < 32,
        rd < 32,
        f3 < 8,
        f7 < 128,
    ensures
        enc_shift(shift, rs1, rd, f3, f7) & 0x7f == 0b0010011,
        spec_rd(enc_shift(shift, rs1, rd, f3, f7)) == rd,
        spec_rs1(enc_shift(shift, rs1, rd, f3, f7)) == rs1,
        spec_rs2(enc_shift(shift, rs1, rd, f3, f7)) == shift,
        spec_func3(enc_shift(shift, rs1, rd, f3, f7)) == f3,
        spec_func7(enc_shift(shift, rs1, rd, f3, f7)) == f7,
{
}

proof fn lemma_enc_system()
    by (bit_vector)
    ensures
        0x73u32 & 0x7f == 0b1110011,
        spec_i_imm(0x73u32) == 0,
        0x0010_0073u32 & 0x7f == 0b1110011,
        spec_i_imm(0x0010_0073u32) == 1,
{
}

fn build_u(imm: i32, rd: u8, opc: u32) -> (w: u32)
    requires
        rd < 32,
        opc < 128,
    ensures
        w == enc_u(imm, rd, opc),
{
    (imm as u32) | ((rd as u32) << 7) | opc
}

fn build_i(imm: i32, rs1: u8, rd: u8, f3: u8, opc: u32) -> (w: u32)
    requires
        rs1 < 32,
        rd < 32,
        f3 < 8,
        opc < 128,
    ensures
        w == enc_i(imm, rs1, rd, f3, opc),
{
    (((imm as u32) & 0xFFF) << 20) | ((rs1 as u32) << 15) | ((f3 as u32) << 12) | ((rd as u32)
        << 7) | opc
}

fn build_b(imm: i32, rs1: u8, rs2: u8, f3: u8) -> (w: u32)
    requires
        rs1 < 32,
        rs2 < 32,
        f3 < 8,
    ensures
        w == enc_b(imm, rs1, rs2, f3),
{
    let u: u32 = imm as u32;
    (((u >> 12) & 1) << 31) | (((u >> 5) & 0x3f) << 25) | ((rs2 as u32) << 20) | ((rs1 as u32)
        << 15) | ((f3 as u32) << 12) | (((u >> 1) & 0xf) << 8) | (((u >> 11) & 1) << 7)
        | 0b1100011
}

fn build_s(imm: i32, rs1: u8, rs2: u8, f3: u8) -> (w: u32)
    requires
        rs1 < 32,
        rs2 < 32,
        f3 < 8,
    ensures
        w == enc_s(imm, rs1, rs2, f3),
{
    let u: u32 = imm as u32;
    (((u >> 5) & 0x7f) << 25) | ((rs2 as u32) << 20) | ((rs1 as u32) << 15) | ((f3 as u32) << 12)
        | ((u & 0x1f) << 7) | 0b0100011
}

fn build_j(imm: i32, rd: u8) -> (w: u32)
    requires
        rd < 32,
    ensures
        w == enc_j(imm, rd),
{
    let u: u32 = imm as u32;
    (((u >> 20) & 1) << 31) | (((u >> 1) & 0x3ff) << 21) | (((u >> 11) & 1) << 20) | (u & (
    0xffu32 << 12)) | ((rd as u32) << 7) | 0b1101111
}

fn build_r(rs1: u8, rs2: u8, rd: u8, f3: u8, f7: u8) -> (w: u32)
    requires
        rs1 < 32,
        rs2 < 32,
        rd < 32,
        f3 < 8,
        f7 < 128,
    ensures
        w == enc_r(rs1, rs2, rd, f3, f7),
{
    ((f7 as u32) << 25) | ((rs2 as u32) << 20) | ((rs1 as u32) << 15) | ((f3 as u32) << 12) | ((
    rd as u32) << 7) | 0b0110011
}

fn build_shift(shift: u8, rs1: u8, rd: u8, f3: u8, f7: u8) -> (w: u32)
    requires
        shift < 32,
        rs1 < 32,
        rd < 32,
        f3 < 8,
        f7 < 128,
    ensures
        w == enc_shift(shift, rs1, rd, f3, f7),
{
    ((f7 as u32) << 25) | ((shift as u32) << 20) | ((rs1 as u32) << 15) | ((f3 as u32) << 12) | ((
    rd as u32) << 7) | 0b0010011
}

impl Instruction {
    /// Encodes an operation with legal operand ranges into the instruction
    /// word that decodes back to it: the round trip over every encoded form.
    pub fn encode(&self) -> (w: u32)
        requires
            self.legal(),
        ensures
            decode_spec(w) == Ok::<Instruction, DecodeError>(*self),
    {
        match *self {
            Instruction::LUI { imm, rd } => {
                let w: u32 = build_u(imm, rd, 0b0110111);
                proof {
                    lemma_enc_u(imm, rd, 0b0110111);
                }
                w
            },
            Instruction::AUIPC { imm, rd } => {
                let w: u32 = build_u(imm, rd, 0b0010111);
                proof {
                    lemma_enc_u(imm, rd, 0b0010111);
                }
                w
            },
            Instruction::JAL { imm, rd } => {
                let w: u32 = build_j(imm, rd);
                proof {
                    lemma_enc_j(imm, rd);
                }
                w
            },
            Instruction::JALR { imm, rd, rs1 } => {
                let w: u32 = build_i(imm, rs1, rd, 0b000, 0b1100111);
                proof {
                    lemma_enc_i(imm, rs1, rd, 0b000, 0b1100111);
                }
                w
            },
            Instruction::BEQ { imm, rs1, rs2 } => {
                let w: u32 = build_b(imm, rs1, rs2, 0b000);
                proof {
                    lemma_enc_b(imm, rs1, rs2, 0b000);
                }
                w
            },
            Instruction::BNE { imm, rs1, rs2 } => {
                let w: u32 = build_b(imm, rs1, rs2, 0b001);
                proof {
                    lemma_enc_b(imm, rs1, rs2, 0b001);
                }
                w
            },
            Instruction::BLT { imm, rs1, rs2 } => {
                let w: u32 = build_b(imm, rs1, rs2, 0b100);
                proof {
                    lemma_enc_b(imm, rs1, rs2, 0b100);
                }
                w
            },
            Instruction::BGE { imm, rs1, rs2 } => {
                let w: u32 = build_b(imm, rs1, rs2, 0b101);
                proof {
                    lemma_enc_b(imm, rs1, rs2, 0b101);
                }
                w
            },
            Instruction::BLTU { imm, rs1, rs2 } => {
                let w: u32 = build_b(imm, rs1, rs2, 0b110);
                proof {
                    lemma_enc_b(imm, rs1, rs2, 0b110);
                }
                w
            },
            Instruction::BGEU { imm, rs1, rs2 } => {
                let w: u32 = build_b(imm, rs1, rs2, 0b111);
                proof {
                    lemma_enc_b(imm, rs1, rs2, 0b111);
                }
                w
            },
            Instruction::LB { imm, rs1, rd } => {
                let w: u32 = build_i(imm, rs1, rd, 0b000, 0b0000011);
                proof {
                    lemma_enc_i(imm, rs1, rd, 0b000, 0b0000011);
                }
                w
            },
            Instruction::LH { imm, rs1, rd } => {
                let w: u32 = build_i(imm, rs1, rd, 0b001, 0b0000011);
                proof {
                    lemma_enc_i(imm, rs1, rd, 0b001, 0b0000011);
                }
                w
            },
            Instruction::LW { imm, rs1, rd } => {
                let w: u32 = build_i(imm, rs1, rd, 0b010, 0b0000011);
                proof {
                    lemma_enc_i(imm, rs1, rd, 0b010, 0b0000011);
                }
                w
            },
            Instruction::LBU { imm, rs1, rd } => {
                let w: u32 = build_i(imm, rs1, rd, 0b100, 0b0000011);
                proof {
                    lemma_enc_i(imm, rs1, rd, 0b100, 0b0000011);
                }
                w
            },
            Instruction::LHU { imm, rs1, rd } => {
                let w: u32 = build_i(imm, rs1, rd, 0b101, 0b0000011);
                proof {
                    lemma_enc_i(imm, rs1, rd, 0b101, 0b0000011);
                }
                w
            },
            Instruction::SB { imm, rs1, rs2 } => {
                let w: u32 = build_s(imm, rs1, rs2, 0b000);
                proof {
                    lemma_enc_s(imm, rs1, rs2, 0b000);
                }
                w
            },
            Instruction::SH { imm, rs1, rs2 } => {
                let w: u32 = build_s(imm, rs1, rs2, 0b001);
                proof {
                    lemma_enc_s(imm, rs1, rs2, 0b001);
                }
                w
            },
            Instruction::SW { imm, rs1, rs2 } => {
                let w: u32 = build_s(imm, rs1, rs2, 0b010);
                proof {
                    lemma_enc_s(imm, rs1, rs2, 0b010);
                }
                w
            },
            Instruction::ADDI { imm, rs1, rd } => {
                let w: u32 = build_i(imm, rs1, rd, 0b000, 0b0010011);
                proof {
                    lemma_enc_i(imm, rs1, rd, 0b000, 0b0010011);
                }
                w
            },
            Instruction::SLTI { imm, rs1, rd } => {
                let w: u32 = build_i(imm, rs1, rd, 0b010, 0b0010011);
                proof {
                    lemma_enc_i(imm, rs1, rd, 0b010, 0b0010011);
                }
                w
            },
            Instruction::SLTIU { imm, rs1, rd } => {
                let w: u32 = build_i(imm, rs1, rd, 0b011, 0b0010011);
                proof {
                    lemma_enc_i(imm, rs1, rd, 0b011, 0b0010011);
                }
                w
            },
            Instruction::XORI { imm, rs1, rd } => {
                let w: u32 = build_i(imm, rs1, rd, 0b100, 0b0010011);
                proof {
                    lemma_enc_i(imm, rs1, rd, 0b100, 0b0010011);
                }
                w
            },
            Instruction::ORI { imm, rs1, rd } => {
                let w: u32 = build_i(imm, rs1, rd, 0b110, 0b0010011);
                proof {
                    lemma_enc_i(imm, rs1, rd, 0b110, 0b0010011);
                }
                w
            },
            Instruction::ANDI { imm, rs1, rd } => {
                let w: u32 = build_i(imm, rs1, rd, 0b111, 0b0010011);
                proof {
                    lemma_enc_i(imm, rs1, rd, 0b111, 0b0010011);
                }
                w
            },
            Instruction::SLLI { shift, rs1, rd } => {
                let w: u32 = build_shift(shift, rs1, rd, 0b001, 0);
                proof {
                    lemma_enc_shift(shift, rs1, rd, 0b001, 0);
                }
                w
            },
            Instruction::SRLI { shift, rs1, rd } => {
                let w: u32 = build_shift(shift, rs1, rd, 0b101, 0);
                proof {
                    lemma_enc_shift(shift, rs1, rd, 0b101, 0);
                }
                w
            },
            Instruction::SRAI { shift, rs1, rd } => {
                let w: u32 = build_shift(shift, rs1, rd, 0b101, 0x20);
                proof {
                    lemma_enc_shift(shift, rs1, rd, 0b101, 0x20);
                }
                w
            },
            Instruction::ADD { rs1, rs2, rd } => {
                let w: u32 = build_r(rs1, rs2, rd, 0b000, 0);
                proof {
                    lemma_enc_r(rs1, rs2, rd, 0b000, 0);
                }
                w
            },
            Instruction::SUB { rs1, rs2, rd } => {
                let w: u32 = build_r(rs1, rs2, rd, 0b000, 0x20);
                proof {
                    lemma_enc_r(rs1, rs2, rd, 0b000, 0x20);
                }
                w
            },
            Instruction::SLL { rs1, rs2, rd } => {
                let w: u32 = build_r(rs1, rs2, rd, 0b001, 0);
                proof {
                    lemma_enc_r(rs1, rs2, rd, 0b001, 0);
                }
                w
            },
            Instruction::SLT { rs1, rs2, rd } => {
                let w: u32 = build_r(rs1, rs2, rd, 0b010, 0);
                proof {
                    lemma_enc_r(rs1, rs2, rd, 0b010, 0);
                }
                w
            },
            Instruction::SLTU { rs1, rs2, rd } => {
                let w: u32 = build_r(rs1, rs2, rd, 0b011, 0);
                proof {
                    lemma_enc_r(rs1, rs2, rd, 0b011, 0);
                }
                w
            },
            Instruction::XOR { rs1, rs2, rd } => {
                let w: u32 = build_r(rs1, rs2, rd, 0b100, 0);
                proof {
                    lemma_enc_r(rs1, rs2, rd, 0b100, 0);
                }
                w
            },
            Instruction::SRL { rs1, rs2, rd } => {
                let w: u32 = build_r(rs1, rs2, rd, 0b101, 0);
                proof {
                    lemma_enc_r(rs1, rs2, rd, 0b101, 0);
                }
                w
            },
            Instruction::SRA { rs1, rs2, rd } => {
                let w: u32 = build_r(rs1, rs2, rd, 0b101, 0x20);
                proof {
                    lemma_enc_r(rs1, rs2, rd, 0b101, 0x20);
                }
                w
            },
            Instruction::OR { rs1, rs2, rd } => {
                let w: u32 = build_r(rs1, rs2, rd, 0b110, 0);
                proof {
                    lemma_enc_r(rs1, rs2, rd, 0b110, 0);
                }
                w
            },
            Instruction::AND { rs1, rs2, rd } => {
                let w: u32 = build_r(rs1, rs2, rd, 0b111, 0);
                proof {
                    lemma_enc_r(rs1, rs2, rd, 0b111, 0);
                }
                w
            },
            Instruction::ECALL => {
                proof {
                    lemma_enc_system();
                }
                0x73
            },
            Instruction::EBREAK => {
                proof {
                    lemma_enc_system();
                }
                0x0010_0073
            },
        }
    }
}

/// Every word that decodes at all decodes to an operation with legal
/// operand ranges: register indices below 32, immediates in their form's
/// range, even branch and jump offsets.
pub proof fn lemma_decode_legal(w: u32)
    ensures
        decode_spec(w) matches Ok(inst) ==> inst.legal(),
{
    lemma_field_bounds(w);
    lemma_sign_extension_u(w);
    lemma_sign_extension_i(w);
    lemma_sign_extension_s(w);
    lemma_sign_extension_b(w);
    lemma_sign_extension_j(w);
}

/// Every decoded conditional-branch or jump-relative offset is even: the
/// architecture encodes only even offsets, forcing the low bit to zero.
pub proof fn lemma_branch_jump_offsets_even(w: u32)
    ensures
        match decode_spec(w) {
            Ok(inst) => match inst {
                Instruction::JAL { imm, .. } => imm % 2 == 0,
                Instruction::BEQ { imm, .. } => imm % 2 == 0,
                Instruction::BNE { imm, .. } => imm % 2 == 0,
                Instruction::BLT { imm, .. } => imm % 2 == 0,
                Instruction::BGE { imm, .. } => imm % 2 == 0,
                Instruction::BLTU { imm, .. } => imm % 2 == 0,
                Instruction::BGEU { imm, .. } => imm % 2 == 0,
                _ => true,
            },
            Err(_) => true,
        },
{
    lemma_sign_extension_b(w);
    lemma_sign_extension_j(w);
}

} // verus!
