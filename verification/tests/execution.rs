//! Execution-engine tests: wraparound arithmetic, the immutable zero
//! register, signed against unsigned comparison, store/load round trips,
//! environment calls, and whole-program runs.

use simulator::instruction::Instruction;
use simulator::machine::Machine;
use simulator::machine::OutputEvent;
use simulator::machine::RunOutcome;
use simulator::memory::Memory;
use simulator::memory::SegmentImage;
use simulator::memory::STACK_BASE;
use simulator::processor::Processor;
use simulator::processor::SimError;
use simulator::processor::StepEvent;
use simulator::syscall::ServiceOutcome;
use simulator::syscall::Syscall;
use simulator::util::from_u32;

const BASE: u32 = 0x1000;

/// Builds an address space whose program segment holds the given
/// instructions, with the program counter at the first one.
fn load(program: &[Instruction]) -> Memory {
    let mut data: Vec<u8> = Vec::new();
    for inst in program {
        data.extend_from_slice(&from_u32(inst.encode()));
    }
    let size = data.len() as u32;
    Memory::new(vec![SegmentImage { start: BASE, size, data }], BASE)
}

#[test]
fn addition_wraps_silently() {
    let mut mem = load(&[Instruction::ADD { rs1: 1, rs2: 2, rd: 3 }]);
    mem.set_register(0x7FFF_FFFF, 1);
    mem.set_register(1, 2);
    assert_eq!(Processor::tick(&mut mem), Ok(StepEvent::Proceed));
    assert_eq!(mem.get_register(3), 0x8000_0000);
}

#[test]
fn addi_wraps_silently() {
    let mut mem = load(&[Instruction::ADDI { imm: 1, rs1: 1, rd: 2 }]);
    mem.set_register(0xFFFF_FFFF, 1);
    assert_eq!(Processor::tick(&mut mem), Ok(StepEvent::Proceed));
    assert_eq!(mem.get_register(2), 0);
}

#[test]
fn register_zero_stays_zero_for_every_destination_form() {
    let programs = vec![
        Instruction::LUI { imm: 0x7000_1000, rd: 0 },
        Instruction::AUIPC { imm: 0x1000, rd: 0 },
        Instruction::ADDI { imm: 42, rs1: 1, rd: 0 },
        Instruction::ADD { rs1: 1, rs2: 1, rd: 0 },
        Instruction::SLLI { shift: 3, rs1: 1, rd: 0 },
        Instruction::SLT { rs1: 1, rs2: 2, rd: 0 },
        Instruction::JAL { imm: 4, rd: 0 },
        Instruction::JALR { imm: 0, rd: 0, rs1: 1 },
    ];
    for inst in programs {
        let mut mem = load(&[inst]);
        mem.set_register(7, 1);
        mem.set_register(9, 2);
        if let Instruction::JALR { .. } = inst {
            mem.set_register(BASE, 1);
        }
        assert_eq!(Processor::tick(&mut mem), Ok(StepEvent::Proceed), "{inst:?}");
        assert_eq!(mem.get_register(0), 0, "{inst:?}");
    }
}

#[test]
fn load_of_register_zero_leaves_it_zero() {
    let mut mem = load(&[Instruction::LW { imm: 0, rs1: 1, rd: 0 }]);
    mem.set_register(STACK_BASE, 1);
    assert_eq!(Processor::tick(&mut mem), Ok(StepEvent::Proceed));
    assert_eq!(mem.get_register(0), 0);
}

#[test]
fn store_load_round_trip() {
    let addr = STACK_BASE + 16;
    let mut mem = load(&[
        Instruction::SW { imm: 0, rs1: 6, rs2: 5 },
        Instruction::LW { imm: 0, rs1: 6, rd: 7 },
    ]);
    mem.set_register(0xCAFE_BABE, 5);
    mem.set_register(addr, 6);
    assert_eq!(Processor::tick(&mut mem), Ok(StepEvent::Proceed));
    assert_eq!(Processor::tick(&mut mem), Ok(StepEvent::Proceed));
    assert_eq!(mem.get_register(7), 0xCAFE_BABE);
    // the bytes landed little-endian
    assert_eq!(mem.read(addr as usize, 4).unwrap(), vec![0xBE, 0xBA, 0xFE, 0xCA]);
}

#[test]
fn sub_word_stores_leave_surrounding_memory_untouched() {
    let addr = STACK_BASE + 8;
    let mut mem = load(&[
        Instruction::SW { imm: 0, rs1: 6, rs2: 5 },
        Instruction::SB { imm: 1, rs1: 6, rs2: 7 },
    ]);
    mem.set_register(0x1111_1111, 5);
    mem.set_register(0xAB, 7);
    mem.set_register(addr, 6);
    assert_eq!(Processor::tick(&mut mem), Ok(StepEvent::Proceed));
    assert_eq!(Processor::tick(&mut mem), Ok(StepEvent::Proceed));
    assert_eq!(mem.read(addr as usize, 4).unwrap(), vec![0x11, 0xAB, 0x11, 0x11]);
}

#[test]
fn sign_extending_and_zero_extending_loads() {
    let addr = STACK_BASE + 32;
    let mut mem = load(&[
        Instruction::SB { imm: 0, rs1: 6, rs2: 5 },
        Instruction::LB { imm: 0, rs1: 6, rd: 7 },
        Instruction::LBU { imm: 0, rs1: 6, rd: 8 },
    ]);
    mem.set_register(0x80, 5);
    mem.set_register(addr, 6);
    for _ in 0..3 {
        assert_eq!(Processor::tick(&mut mem), Ok(StepEvent::Proceed));
    }
    assert_eq!(mem.get_register(7), 0xFFFF_FF80);
    assert_eq!(mem.get_register(8), 0x0000_0080);
}

#[test]
fn signed_and_unsigned_branch_comparison() {
    // BLT with rs1 = -1 and rs2 = 1 takes the branch
    let mut mem = load(&[Instruction::BLT { imm: 8, rs1: 1, rs2: 2 }]);
    mem.set_register(0xFFFF_FFFF, 1); // -1 as a bit pattern
    mem.set_register(1, 2);
    assert_eq!(Processor::tick(&mut mem), Ok(StepEvent::Proceed));
    assert_eq!(mem.get_pc(), BASE + 8);

    // BLTU with the same bit patterns does not: -1's pattern is the
    // largest unsigned value
    let mut mem = load(&[Instruction::BLTU { imm: 8, rs1: 1, rs2: 2 }]);
    mem.set_register(0xFFFF_FFFF, 1);
    mem.set_register(1, 2);
    assert_eq!(Processor::tick(&mut mem), Ok(StepEvent::Proceed));
    assert_eq!(mem.get_pc(), BASE + 4);
}

#[test]
fn fetch_outside_owned_memory_is_fatal() {
    let mut mem = Memory::new(vec![], 0x4000_0000);
    assert_eq!(Processor::tick(&mut mem), Err(SimError::MemoryAccess));
    // the failed cycle left the state untouched
    assert_eq!(mem.get_pc(), 0x4000_0000);
}

#[test]
fn load_outside_owned_memory_is_fatal_and_applies_nothing() {
    let mut mem = load(&[Instruction::LW { imm: 0, rs1: 1, rd: 2 }]);
    mem.set_register(0x4000_0000, 1);
    mem.set_register(77, 2);
    assert_eq!(Processor::tick(&mut mem), Err(SimError::MemoryAccess));
    assert_eq!(mem.get_register(2), 77);
    assert_eq!(mem.get_pc(), BASE);
}

#[test]
fn dispatcher_outcomes() {
    let mut mem = Memory::new(vec![], 0);
    let args = [65, 0, 0, 0, 0, 0, 0];
    assert_eq!(
        Syscall::call(&mut mem, 500, args),
        ServiceOutcome::Terminate { status: 65 }
    );
    let o = Syscall::call(&mut mem, 501, args);
    assert_eq!(o, ServiceOutcome::PrintInt { value: 65 });
    assert_eq!(Syscall::result_code(o), 0);
    let o = Syscall::call(&mut mem, 502, [0x1_0041, 0, 0, 0, 0, 0, 0]);
    assert_eq!(o, ServiceOutcome::PutChar { byte: 0x41 });
    assert_eq!(Syscall::result_code(o), 1);
    let o = Syscall::call(&mut mem, 999, args);
    assert_eq!(o, ServiceOutcome::UnknownService);
    assert_eq!(Syscall::result_code(o), -1);
}

#[test]
fn dispatcher_heap_services() {
    let mut mem = Memory::new(vec![], 0);
    let o = Syscall::call(&mut mem, 503, [16, 0, 0, 0, 0, 0, 0]);
    let a = match o {
        ServiceOutcome::Allocated { address } => address,
        other => panic!("unexpected outcome: {:?}", other),
    };
    assert_eq!(mem.read(a as usize, 16).unwrap(), vec![0u8; 16]);
    let o = Syscall::call(&mut mem, 504, [a as i32, 0, 0, 0, 0, 0, 0]);
    assert_eq!(o, ServiceOutcome::Released { code: 0 });
    let o = Syscall::call(&mut mem, 504, [a as i32, 0, 0, 0, 0, 0, 0]);
    assert_eq!(o, ServiceOutcome::Released { code: 1 });
    // a negative size cannot be satisfied and reports address 0
    let o = Syscall::call(&mut mem, 503, [-1, 0, 0, 0, 0, 0, 0]);
    assert_eq!(o, ServiceOutcome::Allocated { address: 0 });
}

#[test]
fn end_to_end_addition_and_exit() {
    let mut machine = Machine::new(load(&[
        Instruction::ADDI { imm: 5, rs1: 0, rd: 1 },
        Instruction::ADDI { imm: 7, rs1: 0, rd: 2 },
        Instruction::ADD { rs1: 1, rs2: 2, rd: 3 },
        Instruction::ADDI { imm: 500, rs1: 0, rd: 17 },
        Instruction::ECALL,
    ]));
    let (outcome, output) = machine.run(1000);
    assert_eq!(outcome, RunOutcome::Exited { status: 0 });
    assert!(output.is_empty());
    assert_eq!(machine.mem().get_register(3), 12);
}

#[test]
fn end_to_end_console_output() {
    let mut machine = Machine::new(load(&[
        // print the integer 5
        Instruction::ADDI { imm: 5, rs1: 0, rd: 10 },
        Instruction::ADDI { imm: 501, rs1: 0, rd: 17 },
        Instruction::ECALL,
        // put the character 'A'
        Instruction::ADDI { imm: 65, rs1: 0, rd: 10 },
        Instruction::ADDI { imm: 502, rs1: 0, rd: 17 },
        Instruction::ECALL,
        // exit with status 3
        Instruction::ADDI { imm: 3, rs1: 0, rd: 10 },
        Instruction::ADDI { imm: 500, rs1: 0, rd: 17 },
        Instruction::ECALL,
    ]));
    let (outcome, output) = machine.run(1000);
    assert_eq!(outcome, RunOutcome::Exited { status: 3 });
    assert_eq!(output, vec![OutputEvent::Int(5), OutputEvent::Char(65)]);
}

#[test]
fn service_result_code_lands_in_register_ten() {
    let mut machine = Machine::new(load(&[
        Instruction::ADDI { imm: 65, rs1: 0, rd: 10 },
        Instruction::ADDI { imm: 502, rs1: 0, rd: 17 }, // put char: result 1
        Instruction::ECALL,
        Instruction::ADDI { imm: 500, rs1: 0, rd: 17 }, // exit with x10
        Instruction::ECALL,
    ]));
    let (outcome, output) = machine.run(1000);
    assert_eq!(outcome, RunOutcome::Exited { status: 1 });
    assert_eq!(output, vec![OutputEvent::Char(65)]);
}

#[test]
fn breakpoint_is_reported_and_execution_goes_on() {
    let mut machine = Machine::new(load(&[
        Instruction::EBREAK,
        Instruction::ADDI { imm: 500, rs1: 0, rd: 17 },
        Instruction::ECALL,
    ]));
    let (outcome, output) = machine.run(1000);
    assert_eq!(outcome, RunOutcome::Exited { status: 0 });
    assert_eq!(output, vec![OutputEvent::Break]);
}

#[test]
fn run_out_of_fuel_and_fault() {
    // an empty loop body: jump to self
    let mut machine = Machine::new(load(&[Instruction::JAL { imm: 0, rd: 0 }]));
    let (outcome, output) = machine.run(10);
    assert_eq!(outcome, RunOutcome::OutOfFuel);
    assert!(output.is_empty());

    // running off the end of the program is a fatal fetch error
    let mut machine = Machine::new(load(&[Instruction::ADDI { imm: 1, rs1: 0, rd: 1 }]));
    let (outcome, _) = machine.run(10);
    assert_eq!(outcome, RunOutcome::Fault { error: SimError::MemoryAccess });
}

#[test]
fn jal_links_and_jumps() {
    let mut mem = load(&[Instruction::JAL { imm: 12, rd: 1 }]);
    assert_eq!(Processor::tick(&mut mem), Ok(StepEvent::Proceed));
    assert_eq!(mem.get_register(1), BASE + 4);
    assert_eq!(mem.get_pc(), BASE + 12);
}

#[test]
fn jalr_links_and_jumps_via_register() {
    let mut mem = load(&[Instruction::JALR { imm: -4, rd: 1, rs1: 5 }]);
    mem.set_register(BASE + 100, 5);
    assert_eq!(Processor::tick(&mut mem), Ok(StepEvent::Proceed));
    assert_eq!(mem.get_register(1), BASE + 4);
    assert_eq!(mem.get_pc(), BASE + 96);
}

#[test]
fn unsigned_compare_idioms() {
    // SLTIU rd, rs1, 1 tests "is rs1 zero"
    let mut mem = load(&[Instruction::SLTIU { imm: 1, rs1: 5, rd: 6 }]);
    mem.set_register(0, 5);
    assert_eq!(Processor::tick(&mut mem), Ok(StepEvent::Proceed));
    assert_eq!(mem.get_register(6), 1);

    let mut mem = load(&[Instruction::SLTIU { imm: 1, rs1: 5, rd: 6 }]);
    mem.set_register(9, 5);
    assert_eq!(Processor::tick(&mut mem), Ok(StepEvent::Proceed));
    assert_eq!(mem.get_register(6), 0);

    // SLTU rd, x0, rs2 tests "is rs2 nonzero"
    let mut mem = load(&[Instruction::SLTU { rs1: 0, rs2: 5, rd: 6 }]);
    mem.set_register(9, 5);
    assert_eq!(Processor::tick(&mut mem), Ok(StepEvent::Proceed));
    assert_eq!(mem.get_register(6), 1);

    let mut mem = load(&[Instruction::SLTU { rs1: 0, rs2: 5, rd: 6 }]);
    assert_eq!(Processor::tick(&mut mem), Ok(StepEvent::Proceed));
    assert_eq!(mem.get_register(6), 0);
}

#[test]
fn shift_semantics() {
    // register-register shifts take the amount from the low five bits of
    // rs1 and shift the value of rs2
    let mut mem = load(&[Instruction::SLL { rs1: 1, rs2: 2, rd: 3 }]);
    mem.set_register(0x21, 1); // low five bits: 1
    mem.set_register(0x8000_0001, 2);
    assert_eq!(Processor::tick(&mut mem), Ok(StepEvent::Proceed));
    assert_eq!(mem.get_register(3), 2);

    let mut mem = load(&[Instruction::SRA { rs1: 1, rs2: 2, rd: 3 }]);
    mem.set_register(4, 1);
    mem.set_register(0x8000_0000, 2);
    assert_eq!(Processor::tick(&mut mem), Ok(StepEvent::Proceed));
    assert_eq!(mem.get_register(3), 0xF800_0000);

    let mut mem = load(&[Instruction::SRLI { shift: 4, rs1: 2, rd: 3 }]);
    mem.set_register(0x8000_0000, 2);
    assert_eq!(Processor::tick(&mut mem), Ok(StepEvent::Proceed));
    assert_eq!(mem.get_register(3), 0x0800_0000);

    let mut mem = load(&[Instruction::SRAI { shift: 4, rs1: 2, rd: 3 }]);
    mem.set_register(0x8000_0000, 2);
    assert_eq!(Processor::tick(&mut mem), Ok(StepEvent::Proceed));
    assert_eq!(mem.get_register(3), 0xF800_0000);
}

/// Runs one instruction over the given (index, value) register settings
/// and returns the value of register `out` afterwards.
fn run_one(inst: Instruction, regs: &[(u8, u32)], out: u8) -> u32 {
    let mut mem = load(&[inst]);
    for &(i, v) in regs {
        mem.set_register(v, i);
    }
    assert_eq!(Processor::tick(&mut mem), Ok(StepEvent::Proceed));
    mem.get_register(out)
}

#[test]
fn upper_immediate_semantics() {
    assert_eq!(run_one(Instruction::LUI { imm: 0x1234_5000, rd: 1 }, &[], 1), 0x1234_5000);
    // AUIPC adds the upper immediate to the instruction's own address
    assert_eq!(
        run_one(Instruction::AUIPC { imm: 0x0000_2000, rd: 1 }, &[], 1),
        BASE + 0x2000
    );
}

#[test]
fn immediate_logic_semantics() {
    // the sign-extended immediate acts as a full 32-bit mask
    assert_eq!(
        run_one(Instruction::XORI { imm: -1, rs1: 1, rd: 2 }, &[(1, 0x0F0F_0F0F)], 2),
        0xF0F0_F0F0
    );
    assert_eq!(
        run_one(Instruction::ORI { imm: 0x70F, rs1: 1, rd: 2 }, &[(1, 0xF000_0000)], 2),
        0xF000_070F
    );
    assert_eq!(
        run_one(Instruction::ANDI { imm: -16, rs1: 1, rd: 2 }, &[(1, 0x1234_5678)], 2),
        0x1234_5670
    );
    assert_eq!(
        run_one(Instruction::SLLI { shift: 8, rs1: 1, rd: 2 }, &[(1, 0x00FF_0001)], 2),
        0xFF00_0100
    );
}

#[test]
fn comparison_semantics() {
    // signed: -5 < 3
    assert_eq!(
        run_one(Instruction::SLTI { imm: 3, rs1: 1, rd: 2 }, &[(1, 0xFFFF_FFFB)], 2),
        1
    );
    assert_eq!(run_one(Instruction::SLTI { imm: -6, rs1: 1, rd: 2 }, &[(1, 0xFFFF_FFFB)], 2), 0);
    assert_eq!(
        run_one(Instruction::SLT { rs1: 1, rs2: 2, rd: 3 }, &[(1, 0xFFFF_FFFF), (2, 1)], 3),
        1
    );
    assert_eq!(
        run_one(Instruction::SLTU { rs1: 1, rs2: 2, rd: 3 }, &[(1, 0xFFFF_FFFF), (2, 1)], 3),
        0
    );
    // SLTIU compares against the sign-extended immediate, unsigned
    assert_eq!(
        run_one(Instruction::SLTIU { imm: -1, rs1: 1, rd: 2 }, &[(1, 5)], 2),
        1
    );
}

#[test]
fn register_logic_semantics() {
    assert_eq!(
        run_one(
            Instruction::XOR { rs1: 1, rs2: 2, rd: 3 },
            &[(1, 0xFF00_FF00), (2, 0x0FF0_0FF0)],
            3,
        ),
        0xF0F0_F0F0
    );
    assert_eq!(
        run_one(
            Instruction::OR { rs1: 1, rs2: 2, rd: 3 },
            &[(1, 0xFF00_0000), (2, 0x0000_00FF)],
            3,
        ),
        0xFF00_00FF
    );
    assert_eq!(
        run_one(
            Instruction::AND { rs1: 1, rs2: 2, rd: 3 },
            &[(1, 0xFF00_FF00), (2, 0xF0F0_F0F0)],
            3,
        ),
        0xF000_F000
    );
    assert_eq!(
        run_one(
            Instruction::SRL { rs1: 1, rs2: 2, rd: 3 },
            &[(1, 8), (2, 0x8000_0000)],
            3,
        ),
        0x0080_0000
    );
}

#[test]
fn halfword_store_and_loads() {
    let addr = STACK_BASE + 64;
    let mut mem = load(&[
        Instruction::SH { imm: 0, rs1: 6, rs2: 5 },
        Instruction::LH { imm: 0, rs1: 6, rd: 7 },
        Instruction::LHU { imm: 0, rs1: 6, rd: 8 },
    ]);
    mem.set_register(0x1234_8765, 5); // only the low half is stored
    mem.set_register(addr, 6);
    for _ in 0..3 {
        assert_eq!(Processor::tick(&mut mem), Ok(StepEvent::Proceed));
    }
    assert_eq!(mem.read(addr as usize, 2).unwrap(), vec![0x65, 0x87]);
    assert_eq!(mem.get_register(7), 0xFFFF_8765); // sign-extended
    assert_eq!(mem.get_register(8), 0x0000_8765); // zero-extended
}

#[test]
fn remaining_branch_forms() {
    // BNE taken on unequal values
    let mut mem = load(&[Instruction::BNE { imm: 12, rs1: 1, rs2: 2 }]);
    mem.set_register(1, 1);
    assert_eq!(Processor::tick(&mut mem), Ok(StepEvent::Proceed));
    assert_eq!(mem.get_pc(), BASE + 12);

    // BEQ not taken on unequal values
    let mut mem = load(&[Instruction::BEQ { imm: 12, rs1: 1, rs2: 2 }]);
    mem.set_register(1, 1);
    assert_eq!(Processor::tick(&mut mem), Ok(StepEvent::Proceed));
    assert_eq!(mem.get_pc(), BASE + 4);

    // BGE taken for -1 >= -1, branching backwards
    let mut mem = load(&[
        Instruction::ADDI { imm: 0, rs1: 0, rd: 0 },
        Instruction::BGE { imm: -4, rs1: 1, rs2: 2 },
    ]);
    mem.set_pc(BASE + 4);
    mem.set_register(0xFFFF_FFFF, 1);
    mem.set_register(0xFFFF_FFFF, 2);
    assert_eq!(Processor::tick(&mut mem), Ok(StepEvent::Proceed));
    assert_eq!(mem.get_pc(), BASE);

    // BGEU taken: -1's pattern is the largest unsigned value
    let mut mem = load(&[Instruction::BGEU { imm: 8, rs1: 1, rs2: 2 }]);
    mem.set_register(0xFFFF_FFFF, 1);
    mem.set_register(1, 2);
    assert_eq!(Processor::tick(&mut mem), Ok(StepEvent::Proceed));
    assert_eq!(mem.get_pc(), BASE + 8);
}

#[test]
fn sub_computes_rs2_minus_rs1() {
    let mut mem = load(&[Instruction::SUB { rs1: 1, rs2: 2, rd: 3 }]);
    mem.set_register(3, 1);
    mem.set_register(10, 2);
    assert_eq!(Processor::tick(&mut mem), Ok(StepEvent::Proceed));
    assert_eq!(mem.get_register(3), 7);
}
