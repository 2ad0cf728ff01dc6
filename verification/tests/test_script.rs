use n2t_lib::test_script::{Instruction, N2tCmp, N2tTst, OutList, OutType};

#[test]
fn cmp() {
    let code = r"
    | time | RAM[24576]  |   load   |
    | 0+   |     0       |  000000  |
    | 1    |     20      |  111111  |
    | 1+   |     540     |  101010  |

    | 2    |     19      |  101010  |
    | 2+   |  -32123     |  000000  |
    | 3    |     1       |  000000  |
    
    ";

    let cmp = N2tCmp::new(
        vec![
            vec![
                OutType::Clock((0, true)),
                OutType::Clock((1, false)),
                OutType::Clock((1, true)),
                OutType::Clock((2, false)),
                OutType::Clock((2, true)),
                OutType::Clock((3, false)),
            ],
            vec![
                OutType::Decimal(0),
                OutType::Decimal(20),
                OutType::Decimal(540),
                OutType::Decimal(19),
                OutType::Decimal(-32123),
                OutType::Decimal(1),
            ],
            vec![
                OutType::Binary(vec![false, false, false, false, false, false]),
                OutType::Binary(vec![true, true, true, true, true, true]),
                OutType::Binary(vec![true, false, true, false, true, false]),
                OutType::Binary(vec![true, false, true, false, true, false]),
                OutType::Binary(vec![false, false, false, false, false, false]),
                OutType::Binary(vec![false, false, false, false, false, false]),
            ],
        ],
        vec!["time", "RAM[24576]", "load"],
    );

    assert_eq!(
        Ok(cmp),
        N2tCmp::from_code(
            code,
            vec![
                OutType::Clock((0, false)),
                OutType::Decimal(0),
                OutType::Binary(vec![false; 6]),
            ],
        )
    );
}

#[test]
fn tst_header_and_instructions() {
    let code = r"
    load tst.hdl,
    output-file tst.out,
    compare-to tst.cmp,
    output-list a%B3.1.3 num%D2.6.2 time%S1.4.1;

    set a 1,
    set num -5,
    tick;
    tock,
    output;
    repeat 10 {
        ticktock;
    }
    ";

    let tst = N2tTst::from_code(code).unwrap();
    let expected = N2tTst::new(
        "tst.hdl",
        Some("tst.out"),
        Some("tst.cmp"),
        Some(vec![
            OutList::new("a", (3, 1, 3), OutType::Binary(vec![])),
            OutList::new("num", (2, 6, 2), OutType::Decimal(0)),
            OutList::new("time", (1, 4, 1), OutType::Clock((0, false))),
        ]),
        vec![
            Instruction::SetVal("a".to_string(), OutType::Binary(vec![true])),
            Instruction::SetVal("num".to_string(), OutType::Decimal(-5)),
            Instruction::Tick,
            Instruction::EndInstruction,
            Instruction::Tock,
            Instruction::Output,
            Instruction::EndInstruction,
            Instruction::BeginRepeat(Some(10)),
            Instruction::TickTock,
            Instruction::EndInstruction,
            Instruction::EndRepeat,
        ],
    );
    assert_eq!(tst, expected);
}

#[test]
fn tst_fill_shape() {
    let code = r#"
    load Fill.asm;
    echo "press a key";
    
    repeat {
      ticktock;
    }
    "#;

    let tst = N2tTst::from_code(code).unwrap();
    let expected = N2tTst::new(
        "Fill.asm",
        None,
        None,
        None,
        vec![
            Instruction::Echo("press a key".to_string()),
            Instruction::EndInstruction,
            Instruction::BeginRepeat(None),
            Instruction::TickTock,
            Instruction::EndInstruction,
            Instruction::EndRepeat,
        ],
    );
    assert_eq!(tst, expected);
}

#[test]
fn set_of_unknown_name_is_an_error() {
    let code = r"
    load tst.hdl,
    output-file tst.out,
    compare-to tst.cmp,
    output-list a%B3.1.3;
    set b 1;
    ";
    assert!(N2tTst::from_code(code).is_err());
}

#[test]
fn set_with_wrong_literal_kind_is_an_error() {
    let code = r"
    load tst.hdl,
    output-file tst.out,
    compare-to tst.cmp,
    output-list a%B3.1.3;
    set a 7;
    ";
    assert!(N2tTst::from_code(code).is_err());
}

#[test]
fn parse_bool_reads_bits() {
    assert_eq!(
        n2t_lib::test_script::parse_bool("0110".to_string()),
        Ok(vec![false, true, true, false])
    );
    assert!(n2t_lib::test_script::parse_bool("01x".to_string()).is_err());
}

#[test]
fn cmp_row_width_is_checked() {
    let code = r"
    | a | b |
    | 1 |
    ";
    assert!(N2tCmp::from_code(code, vec![OutType::Decimal(0), OutType::Decimal(0)]).is_err());
}
