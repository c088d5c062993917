//! Decoder tests: concrete decodings, encode/decode round trips, sign
//! extension, offset parity over the full sub-field domains, and the two
//! decode-error cases.

use simulator::instruction::DecodeError;
use simulator::instruction::Instruction;

#[test]
fn decodes_addi() {
    // ADDI x1, x0, 5
    let r = Instruction::new(0x0050_0093);
    assert_eq!(r, Ok(Instruction::ADDI { imm: 5, rs1: 0, rd: 1 }));
}

#[test]
fn decodes_lui_and_auipc() {
    // LUI x5, 0xCAFEB
    let r = Instruction::new(0xCAFE_B2B7);
    assert_eq!(r, Ok(Instruction::LUI { imm: 0xCAFE_B000u32 as i32, rd: 5 }));
    // AUIPC x6, 0x12345
    let r = Instruction::new(0x1234_5317);
    assert_eq!(r, Ok(Instruction::AUIPC { imm: 0x1234_5000, rd: 6 }));
}

#[test]
fn decodes_system_forms() {
    assert_eq!(Instruction::new(0x0000_0073), Ok(Instruction::ECALL));
    assert_eq!(Instruction::new(0x0010_0073), Ok(Instruction::EBREAK));
}

#[test]
fn unknown_opcode_is_reported() {
    // opcode group 0b0001011 is not supported
    assert_eq!(
        Instruction::new(0x0000_000B),
        Err(DecodeError::UnknownOpcode { opcode: 0b0001011 })
    );
    // the fence group is not supported either
    assert_eq!(
        Instruction::new(0x0000_000F),
        Err(DecodeError::UnknownOpcode { opcode: 0b0001111 })
    );
}

#[test]
fn unknown_function_is_reported() {
    // branch group with function selector 0b010
    let w: u32 = 0b1100011 | (0b010 << 12);
    assert_eq!(
        Instruction::new(w),
        Err(DecodeError::UnknownFunction { opcode: 0b1100011, func3: 0b010 })
    );
    // load group with function selector 0b011
    let w: u32 = 0b0000011 | (0b011 << 12);
    assert_eq!(
        Instruction::new(w),
        Err(DecodeError::UnknownFunction { opcode: 0b0000011, func3: 0b011 })
    );
    // store group with function selector 0b111
    let w: u32 = 0b0100011 | (0b111 << 12);
    assert_eq!(
        Instruction::new(w),
        Err(DecodeError::UnknownFunction { opcode: 0b0100011, func3: 0b111 })
    );
}

#[test]
fn round_trip_immediate_forms() {
    let cases = vec![
        Instruction::ADDI { imm: -1, rs1: 3, rd: 4 },
        Instruction::ADDI { imm: 2047, rs1: 31, rd: 31 },
        Instruction::ADDI { imm: -2048, rs1: 0, rd: 1 },
        Instruction::SLTI { imm: -7, rs1: 2, rd: 3 },
        Instruction::SLTIU { imm: 1, rs1: 9, rd: 10 },
        Instruction::XORI { imm: 255, rs1: 1, rd: 2 },
        Instruction::ORI { imm: -256, rs1: 5, rd: 6 },
        Instruction::ANDI { imm: 16, rs1: 7, rd: 8 },
        Instruction::JALR { imm: -4, rd: 1, rs1: 2 },
        Instruction::LB { imm: -2048, rs1: 4, rd: 5 },
        Instruction::LH { imm: 2047, rs1: 6, rd: 7 },
        Instruction::LW { imm: 0, rs1: 8, rd: 9 },
        Instruction::LBU { imm: 17, rs1: 10, rd: 11 },
        Instruction::LHU { imm: -18, rs1: 12, rd: 13 },
    ];
    for op in cases {
        assert_eq!(Instruction::new(op.encode()), Ok(op));
    }
}

#[test]
fn round_trip_store_branch_jump_forms() {
    let cases = vec![
        Instruction::SB { imm: -1, rs1: 1, rs2: 2 },
        Instruction::SH { imm: 2047, rs1: 3, rs2: 4 },
        Instruction::SW { imm: -2048, rs1: 5, rs2: 6 },
        Instruction::BEQ { imm: -4096, rs1: 1, rs2: 2 },
        Instruction::BNE { imm: 4094, rs1: 3, rs2: 4 },
        Instruction::BLT { imm: -2, rs1: 5, rs2: 6 },
        Instruction::BGE { imm: 0, rs1: 7, rs2: 8 },
        Instruction::BLTU { imm: 8, rs1: 9, rs2: 10 },
        Instruction::BGEU { imm: -8, rs1: 11, rs2: 12 },
        Instruction::JAL { imm: -1048576, rd: 1 },
        Instruction::JAL { imm: 1048574, rd: 2 },
        Instruction::JAL { imm: -2, rd: 0 },
    ];
    for op in cases {
        assert_eq!(Instruction::new(op.encode()), Ok(op));
    }
}

#[test]
fn round_trip_register_and_shift_forms() {
    let cases = vec![
        Instruction::ADD { rs1: 1, rs2: 2, rd: 3 },
        Instruction::SUB { rs1: 4, rs2: 5, rd: 6 },
        Instruction::SLL { rs1: 7, rs2: 8, rd: 9 },
        Instruction::SLT { rs1: 10, rs2: 11, rd: 12 },
        Instruction::SLTU { rs1: 13, rs2: 14, rd: 15 },
        Instruction::XOR { rs1: 16, rs2: 17, rd: 18 },
        Instruction::SRL { rs1: 19, rs2: 20, rd: 21 },
        Instruction::SRA { rs1: 22, rs2: 23, rd: 24 },
        Instruction::OR { rs1: 25, rs2: 26, rd: 27 },
        Instruction::AND { rs1: 28, rs2: 29, rd: 30 },
        Instruction::SLLI { shift: 0, rs1: 1, rd: 2 },
        Instruction::SLLI { shift: 31, rs1: 3, rd: 4 },
        Instruction::SRLI { shift: 13, rs1: 5, rd: 6 },
        Instruction::SRAI { shift: 31, rs1: 7, rd: 8 },
        Instruction::LUI { imm: 0x7FFF_F000, rd: 9 },
        Instruction::LUI { imm: 0xFFFF_F000u32 as i32, rd: 10 },
        Instruction::AUIPC { imm: 0x1000, rd: 11 },
        Instruction::ECALL,
        Instruction::EBREAK,
    ];
    for op in cases {
        assert_eq!(Instruction::new(op.encode()), Ok(op));
    }
}

#[test]
fn round_trip_all_immediate_values() {
    for imm in -2048i32..=2047 {
        let op = Instruction::ADDI { imm, rs1: 1, rd: 2 };
        assert_eq!(Instruction::new(op.encode()), Ok(op));
        let op = Instruction::SW { imm, rs1: 3, rs2: 4 };
        assert_eq!(Instruction::new(op.encode()), Ok(op));
    }
}

#[test]
fn sign_extension_of_decoded_immediates() {
    // a set immediate sign bit must give a negative value whose low bits
    // match the encoded field exactly; a clear one, a non-negative value
    for field in [0x800u32, 0xFFF, 0xABC, 0x801] {
        let w: u32 = (field << 20) | (1 << 15) | 0b0010011; // ADDI x0, x1, imm
        match Instruction::new(w) {
            Ok(Instruction::ADDI { imm, .. }) => {
                assert!(imm < 0);
                assert_eq!((imm as u32) & 0xFFF, field);
            }
            other => panic!("unexpected decoding: {:?}", other),
        }
    }
    for field in [0u32, 1, 0x7FF, 0x123] {
        let w: u32 = (field << 20) | (1 << 15) | 0b0010011;
        match Instruction::new(w) {
            Ok(Instruction::ADDI { imm, .. }) => {
                assert!(imm >= 0);
                assert_eq!(imm as u32, field);
            }
            other => panic!("unexpected decoding: {:?}", other),
        }
    }
}

#[test]
fn branch_offsets_even_over_full_subfield_domain() {
    // walk the full 13-bit domain of the branch offset sub-fields:
    // bit 31, bits 30..25, bits 11..8, bit 7
    for f in 0u32..(1 << 12) {
        let b12 = (f >> 11) & 1;
        let b10_5 = (f >> 5) & 0x3F;
        let b4_1 = (f >> 1) & 0xF;
        let b11 = f & 1;
        let w: u32 = (b12 << 31) | (b10_5 << 25) | (b4_1 << 8) | (b11 << 7) | 0b1100011;
        match Instruction::new(w) {
            Ok(Instruction::BEQ { imm, .. }) => {
                assert_eq!(imm % 2, 0, "odd branch offset from word {w:#010x}");
            }
            other => panic!("unexpected decoding: {:?}", other),
        }
    }
}

#[test]
fn jump_offsets_even_over_full_subfield_domain() {
    // walk the full 20-bit domain of the jump offset sub-fields:
    // bit 31, bits 30..21, bit 20, bits 19..12
    for f in 0u32..(1 << 20) {
        let w: u32 = (f << 12) | 0b1101111;
        match Instruction::new(w) {
            Ok(Instruction::JAL { imm, .. }) => {
                assert_eq!(imm % 2, 0, "odd jump offset from word {w:#010x}");
            }
            other => panic!("unexpected decoding: {:?}", other),
        }
    }
}

#[test]
fn shift_immediate_func7_disambiguation() {
    let srli = Instruction::SRLI { shift: 4, rs1: 1, rd: 2 }.encode();
    let srai = Instruction::SRAI { shift: 4, rs1: 1, rd: 2 }.encode();
    assert_ne!(srli, srai);
    assert_eq!(
        Instruction::new(srli),
        Ok(Instruction::SRLI { shift: 4, rs1: 1, rd: 2 })
    );
    assert_eq!(
        Instruction::new(srai),
        Ok(Instruction::SRAI { shift: 4, rs1: 1, rd: 2 })
    );
    let add = Instruction::ADD { rs1: 1, rs2: 2, rd: 3 }.encode();
    let sub = Instruction::SUB { rs1: 1, rs2: 2, rd: 3 }.encode();
    assert_ne!(add, sub);
    assert_eq!(Instruction::new(add), Ok(Instruction::ADD { rs1: 1, rs2: 2, rd: 3 }));
    assert_eq!(Instruction::new(sub), Ok(Instruction::SUB { rs1: 1, rs2: 2, rd: 3 }));
}
