use n2t_lib::cpu::{parse, CPUInstruction, Comp, Dest, HackCpu, Jump};
use n2t_lib::vm::{vm2asm, JackVM, Segment, VMInstruction};

#[test]
fn emulator_add() {
    let prog = parse("@2\nD=A\n@3\nD=D+A\n@0\nM=D").unwrap();
    let mut cpu = HackCpu::new(prog);
    for _ in 0..6 {
        cpu.step();
    }
    assert_eq!(cpu.ram[0], 5);
    assert_eq!(cpu.pc, 6);
    assert!(!cpu.is_running());
}

#[test]
fn emulator_halts_outside_the_rom() {
    let mut cpu = HackCpu::new(vec![CPUInstruction::AInstruc(7)]);
    cpu.step();
    cpu.step();
    cpu.step();
    assert_eq!(cpu.a_reg, 7);
    assert_eq!(cpu.pc, 1);
}

fn alu_result(comp: &Comp, d: i16, x: i16) -> i16 {
    match comp {
        Comp::Zero => 0,
        Comp::One => 1,
        Comp::MinusOne => -1,
        Comp::D => d,
        Comp::A => x,
        Comp::M => x,
        Comp::NotD => !d,
        Comp::NotA => !x,
        Comp::NotM => !x,
        Comp::MinusD => d.wrapping_neg(),
        Comp::MinusA => x.wrapping_neg(),
        Comp::MinusM => x.wrapping_neg(),
        Comp::DPulsOne => d.wrapping_add(1),
        Comp::APulsOne => x.wrapping_add(1),
        Comp::MPlusOne => x.wrapping_add(1),
        Comp::DMinusOne => x.wrapping_sub(1),
        Comp::AMinusOne => d.wrapping_sub(1),
        Comp::MMinusOne => x.wrapping_sub(1),
        Comp::DPulsA => d.wrapping_add(x),
        Comp::DPulsM => d.wrapping_add(x),
        Comp::DMinusA => d.wrapping_sub(x),
        Comp::DMinusM => d.wrapping_sub(x),
        Comp::AMinusD => x.wrapping_sub(d),
        Comp::MMinusD => x.wrapping_sub(d),
        Comp::DAndA => d & x,
        Comp::DAndM => d & x,
        Comp::DOrA => d | x,
        Comp::DOrM => d | x,
    }
}

#[test]
fn alu_coverage() {
    let comps = vec![
        Comp::Zero,
        Comp::One,
        Comp::MinusOne,
        Comp::D,
        Comp::A,
        Comp::M,
        Comp::NotD,
        Comp::NotA,
        Comp::NotM,
        Comp::MinusD,
        Comp::MinusA,
        Comp::MinusM,
        Comp::DPulsOne,
        Comp::APulsOne,
        Comp::MPlusOne,
        Comp::DMinusOne,
        Comp::AMinusOne,
        Comp::MMinusOne,
        Comp::DPulsA,
        Comp::DPulsM,
        Comp::DMinusA,
        Comp::DMinusM,
        Comp::AMinusD,
        Comp::MMinusD,
        Comp::DAndA,
        Comp::DAndM,
        Comp::DOrA,
        Comp::DOrM,
    ];
    let values: Vec<i16> = vec![-1, 0, 1, 2];
    for comp in &comps {
        for &d in &values {
            for &x in &values {
                let mut cpu = HackCpu::new(vec![CPUInstruction::CInstruc(
                    comp.clone(),
                    Dest::D,
                    Jump::Null,
                )]);
                cpu.d_reg = d;
                cpu.a_reg = x;
                let addr = (x as u16) as usize;
                cpu.ram[addr] = x;
                cpu.step();
                assert_eq!(cpu.d_reg, alu_result(comp, d, x), "{:?} d={} x={}", comp, d, x);
            }
        }
    }
}

#[test]
fn jump_correctness() {
    let jumps = vec![
        (Jump::Null, [false, false, false]),
        (Jump::JGT, [false, false, true]),
        (Jump::JEQ, [false, true, false]),
        (Jump::JGE, [false, true, true]),
        (Jump::JLT, [true, false, false]),
        (Jump::JNE, [true, false, true]),
        (Jump::JLE, [true, true, false]),
        (Jump::JMP, [true, true, true]),
    ];
    let outputs: Vec<i16> = vec![-1, 0, 1];
    for (jump, taken) in &jumps {
        for (k, &val) in outputs.iter().enumerate() {
            let mut cpu = HackCpu::new(vec![CPUInstruction::CInstruc(
                Comp::D,
                Dest::Null,
                jump.clone(),
            )]);
            cpu.d_reg = val;
            cpu.a_reg = 5;
            cpu.step();
            let expected = if taken[k] { 5 } else { 1 };
            assert_eq!(cpu.pc, expected, "{:?} val={}", jump, val);
        }
    }
}

#[test]
fn dest_m_uses_the_old_address() {
    // AM=M+1 with A=3 and RAM[3]=9 must write 10 into cell 3, not cell 10.
    let mut cpu = HackCpu::new(vec![CPUInstruction::CInstruc(
        Comp::MPlusOne,
        Dest::AM,
        Jump::Null,
    )]);
    cpu.a_reg = 3;
    cpu.ram[3] = 9;
    cpu.step();
    assert_eq!(cpu.ram[3], 10);
    assert_eq!(cpu.a_reg, 10);
    assert_eq!(cpu.ram[10], 0);
}

fn run_lowered(instrs: Vec<VMInstruction>, steps: usize) -> HackCpu {
    let rom = vm2asm(instrs);
    let mut cpu = HackCpu::new(rom);
    cpu.ram[0] = 256;
    for _ in 0..steps {
        cpu.step();
    }
    cpu
}

#[test]
fn stack_discipline_binary_ops() {
    let cases: Vec<(VMInstruction, i16, i16, i16)> = vec![
        (VMInstruction::Add, 2, 3, 5),
        (VMInstruction::Add, 32767, 1, -32768),
        (VMInstruction::Sub, 9, 3, 6),
        (VMInstruction::Sub, 3, 9, -6),
        (VMInstruction::And, 12, 10, 8),
        (VMInstruction::Or, 12, 10, 14),
        (VMInstruction::Eq, 4, 4, -1),
        (VMInstruction::Eq, 4, 5, 0),
        (VMInstruction::Gt, 5, 4, -1),
        (VMInstruction::Gt, 4, 5, 0),
        (VMInstruction::Lt, 4, 5, -1),
        (VMInstruction::Lt, 5, 4, 0),
    ];
    for (op, a, b, expected) in cases {
        let steps = 7 + 7 + 15 + 5;
        let cpu = run_lowered(
            vec![
                VMInstruction::PushConst(a),
                VMInstruction::PushConst(b),
                op.clone(),
                VMInstruction::Pop(Segment::Static, 0),
            ],
            steps,
        );
        assert_eq!(cpu.ram[16], expected, "{:?} {} {}", op, a, b);
        assert_eq!(cpu.ram[0], 256, "{:?} stack pointer", op);
    }
}

#[test]
fn stack_discipline_unary_ops() {
    let cases: Vec<(VMInstruction, i16, i16)> = vec![
        (VMInstruction::Neg, 7, -7),
        (VMInstruction::Neg, -32768, -32768),
        (VMInstruction::Not, 0, -1),
        (VMInstruction::Not, -1, 0),
    ];
    for (op, a, expected) in cases {
        let steps = 7 + 3 + 5;
        let cpu = run_lowered(
            vec![
                VMInstruction::PushConst(a),
                op.clone(),
                VMInstruction::Pop(Segment::Static, 0),
            ],
            steps,
        );
        assert_eq!(cpu.ram[16], expected, "{:?} {}", op, a);
        assert_eq!(cpu.ram[0], 256, "{:?} stack pointer", op);
    }
}

#[test]
fn lowered_segment_cells() {
    let instrs = vec![
        VMInstruction::PushConst(40),
        VMInstruction::Pop(Segment::This, 2),
        VMInstruction::Push(Segment::This, 2),
        VMInstruction::Pop(Segment::Static, 1),
    ];
    let rom = vm2asm(instrs);
    let mut cpu = HackCpu::new(rom);
    cpu.ram[0] = 256;
    cpu.ram[3] = 3000;
    for _ in 0..(7 + 12 + 10 + 5) {
        cpu.step();
    }
    assert_eq!(cpu.ram[3000 + 2], 40);
    assert_eq!(cpu.ram[17], 40);
    assert_eq!(cpu.ram[0], 256);
}

#[test]
fn lowered_branches() {
    let instrs = vec![
        VMInstruction::PushConst(1),
        VMInstruction::IfGoto(3),
        VMInstruction::PushConst(99),
        VMInstruction::PushConst(5),
        VMInstruction::Pop(Segment::Static, 0),
        VMInstruction::Goto(5),
    ];
    let rom = vm2asm(instrs);
    let mut cpu = HackCpu::new(rom);
    cpu.ram[0] = 256;
    for _ in 0..(7 + 5 + 7 + 5 + 2) {
        cpu.step();
    }
    // The taken branch skipped the push of 99.
    assert_eq!(cpu.ram[16], 5);
    assert_eq!(cpu.ram[0], 256);
    assert_eq!(cpu.ram[256], 5);
}

#[test]
fn calling_convention_round_trip() {
    let instrs = vec![
        VMInstruction::Call(2, 0),
        VMInstruction::Goto(1),
        VMInstruction::Function("f".to_string(), 0),
        VMInstruction::Return,
    ];
    let rom = vm2asm(instrs);
    assert_eq!(rom.len(), 47 + 2 + 0 + 42);
    let mut cpu = HackCpu::new(rom);
    cpu.ram[0] = 256;
    cpu.ram[1] = 300;
    cpu.ram[2] = 400;
    cpu.ram[3] = 3000;
    cpu.ram[4] = 3010;
    for _ in 0..(47 + 42) {
        cpu.step();
    }
    // The callee returned: the four pointers are restored, the stack holds
    // one result slot, and control is back at the line after the call.
    assert_eq!(cpu.ram[1], 300);
    assert_eq!(cpu.ram[2], 400);
    assert_eq!(cpu.ram[3], 3000);
    assert_eq!(cpu.ram[4], 3010);
    assert_eq!(cpu.ram[0], 257);
    assert_eq!(cpu.pc, 47);
}

#[test]
fn function_reserves_locals() {
    let instrs = vec![VMInstruction::Function("f".to_string(), 3)];
    let rom = vm2asm(instrs);
    assert_eq!(rom.len(), 12);
    let mut cpu = HackCpu::new(rom);
    cpu.ram[0] = 256;
    cpu.ram[256] = 77;
    cpu.ram[257] = 77;
    cpu.ram[258] = 77;
    for _ in 0..12 {
        cpu.step();
    }
    assert_eq!(cpu.ram[0], 259);
    assert_eq!(cpu.ram[256], 0);
    assert_eq!(cpu.ram[257], 0);
    assert_eq!(cpu.ram[258], 0);
}

#[test]
fn interpreter_add() {
    let mut vm = JackVM::new(vec![
        VMInstruction::PushConst(2),
        VMInstruction::PushConst(3),
        VMInstruction::Add,
        VMInstruction::Pop(Segment::Static, 0),
    ]);
    for _ in 0..4 {
        vm.step();
    }
    assert_eq!(vm.seg_val(Segment::Static, 0), Some(5));
    assert_eq!(vm.program_counter, 4);
}

#[test]
fn interpreter_comparisons_push_true_and_false() {
    let mut vm = JackVM::new(vec![
        VMInstruction::PushConst(4),
        VMInstruction::PushConst(5),
        VMInstruction::Lt,
        VMInstruction::Pop(Segment::Temp, 0),
        VMInstruction::PushConst(4),
        VMInstruction::PushConst(5),
        VMInstruction::Gt,
        VMInstruction::Pop(Segment::Temp, 1),
    ]);
    for _ in 0..8 {
        vm.step();
    }
    assert_eq!(vm.seg_val(Segment::Temp, 0), Some(-1));
    assert_eq!(vm.seg_val(Segment::Temp, 1), Some(0));
}

#[test]
fn interpreter_if_goto_pops_and_branches_on_non_zero() {
    let mut vm = JackVM::new(vec![
        VMInstruction::PushConst(1),
        VMInstruction::IfGoto(3),
        VMInstruction::PushConst(99),
        VMInstruction::PushConst(5),
        VMInstruction::Pop(Segment::Static, 0),
    ]);
    for _ in 0..4 {
        vm.step();
    }
    assert_eq!(vm.seg_val(Segment::Static, 0), Some(5));
}

#[test]
fn interpreter_halts_on_an_empty_pop() {
    let mut vm = JackVM::new(vec![VMInstruction::Add]);
    vm.step();
    assert!(!vm.is_running);
}

#[test]
fn interpreter_wraps_16_bit_arithmetic() {
    let mut vm = JackVM::new(vec![
        VMInstruction::PushConst(32767),
        VMInstruction::PushConst(1),
        VMInstruction::Add,
        VMInstruction::Pop(Segment::Static, 3),
    ]);
    for _ in 0..4 {
        vm.step();
    }
    assert_eq!(vm.seg_val(Segment::Static, 3), Some(-32768));
}
