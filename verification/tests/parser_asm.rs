use n2t_lib::cpu::parser::{tokenize, Token};
use n2t_lib::cpu::{asm2ml, ml2asm, parse, str2ml, CPUInstruction, Comp, Dest, Jump};

#[test]
fn jmp() {
    let code = r"
        0;JMP
        A=D
        M=M+D;JLT
    ";

    assert_eq!(
        parse(code),
        Ok(vec![
            CPUInstruction::CInstruc(Comp::Zero, Dest::Null, Jump::JMP),
            CPUInstruction::CInstruc(Comp::D, Dest::A, Jump::Null),
            CPUInstruction::CInstruc(Comp::DPulsM, Dest::M, Jump::JLT)
        ])
    );
}

#[test]
fn test_edge_cases() {
    let code = r"
       @SP
       @THIS
       @THAT
       @ARG
       @LCL
       @a_.$AZ234
       A=A-1
       A=D-1
       (a_.$AZ234)
    ";

    let hack = r"
    0000000000000000
    0000000000000011
    0000000000000100
    0000000000000010
    0000000000000001
    0000000000001000
    1110110010100000
    1110001110100000
    ";

    let prog = parse(code).unwrap();
    assert_eq!(
        prog.clone(),
        vec![
            CPUInstruction::AInstruc(0),
            CPUInstruction::AInstruc(3),
            CPUInstruction::AInstruc(4),
            CPUInstruction::AInstruc(2),
            CPUInstruction::AInstruc(1),
            CPUInstruction::AInstruc(8),
            CPUInstruction::CInstruc(Comp::DMinusOne, Dest::A, Jump::Null),
            CPUInstruction::CInstruc(Comp::AMinusOne, Dest::A, Jump::Null)
        ]
    );

    let ml = str2ml(hack).unwrap();
    assert_eq!(ml.clone(), asm2ml(prog.clone()));
    assert_eq!(ml2asm(ml).unwrap(), prog);
}

#[test]
fn tokens() {
    let code = r"
    @abc
    @5
    (test)
    A=M+D
    ";
    let mut tokenizer = tokenize(code).unwrap();
    assert_eq!(tokenizer.next(), Some(Token::Name("abc".to_string())));
    assert_eq!(tokenizer.next(), Some(Token::Number(5)));
    assert_eq!(tokenizer.next(), Some(Token::Labal("test".to_string())));
    assert_eq!(tokenizer.next(), Some(Token::A));
    assert_eq!(tokenizer.next(), Some(Token::Eq));
    assert_eq!(tokenizer.next(), Some(Token::DPulsM));
}

#[test]
fn simple_assemble() {
    let prog = parse("@2\nD=A\n@3\nD=D+A\n@0\nM=D").unwrap();
    assert_eq!(prog.len(), 6);
    assert_eq!(asm2ml(prog), vec![2, 60432, 3, 57488, 0, 58120]);
}

#[test]
fn unconditional_jump_encoding() {
    let prog = parse("0;JMP").unwrap();
    assert_eq!(
        prog,
        vec![CPUInstruction::CInstruc(Comp::Zero, Dest::Null, Jump::JMP)]
    );
    assert_eq!(asm2ml(prog), vec![0b1110101010000111]);
    assert_eq!(0b1110101010000111, 60039);
}

#[test]
fn variable_allocation() {
    let prog = parse("@foo\n@bar\n@foo").unwrap();
    assert_eq!(
        prog,
        vec![
            CPUInstruction::AInstruc(16),
            CPUInstruction::AInstruc(17),
            CPUInstruction::AInstruc(16)
        ]
    );
}

#[test]
fn duplicate_label_is_an_error() {
    assert!(parse("(loop)\n@0\n(loop)").is_err());
}

#[test]
fn str2ml_rejects_bad_text() {
    assert!(str2ml("0000000000000002").is_err());
    assert!(str2ml("000000000000000").is_err());
    assert!(str2ml("00000000000000001").is_err());
    assert_eq!(str2ml("\n\n0000000000000101\n\n"), Ok(vec![5]));
}

#[test]
fn ml2asm_rejects_bad_comp() {
    let bad = 0b1110000001000000u16;
    assert!(ml2asm(vec![bad]).is_err());
}

#[test]
fn asm_ml_round_trip() {
    let code = r"
        @0
        M=D
        @1
        D=D-M
        @10
        D;JGT
        @1
        M=M&D
        @12
        0;JMP
        (half)
        @half
        A=!M
        M=-1
        D=M|D
        AM=D+1
    ";
    let prog = parse(code).unwrap();
    let ml = asm2ml(prog.clone());
    assert_eq!(ml2asm(ml.clone()), Ok(prog));
    let back = ml2asm(ml.clone()).unwrap();
    assert_eq!(asm2ml(back), ml);
}
