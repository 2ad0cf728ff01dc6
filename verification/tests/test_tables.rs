use n2t_lib::test::{CMP, OutType, TST};

#[test]
fn test_cmp() {
    let code = r"
        | time | RAM[24576]  |   load   |
        | 0+   |     0       |  000000  |
        | 1    |     20      |  111111  |
        | 1+   |     540     |  101010  |

        | 2    |     19      |  101010  |
        | 2+   |  -32123     |  000000  |
        | 3    |     1       |  000000  |
        
        ";

    let cmp = CMP {
        table: vec![
            vec![
                OutType::Clock((0, true)),
                OutType::Clock((1, false)),
                OutType::Clock((1, true)),
                OutType::Clock((2, false)),
                OutType::Clock((2, true)),
                OutType::Clock((3, false)),
            ],
            vec![
                OutType::Decimal(0),
                OutType::Decimal(20),
                OutType::Decimal(540),
                OutType::Decimal(19),
                OutType::Decimal(-32123),
                OutType::Decimal(1),
            ],
            vec![
                OutType::Binary(vec![false, false, false, false, false, false]),
                OutType::Binary(vec![true, true, true, true, true, true]),
                OutType::Binary(vec![true, false, true, false, true, false]),
                OutType::Binary(vec![true, false, true, false, true, false]),
                OutType::Binary(vec![false, false, false, false, false, false]),
                OutType::Binary(vec![false, false, false, false, false, false]),
            ],
        ],
        names: vec![
            "time".to_string(),
            "RAM[24576]".to_string(),
            "load".to_string(),
        ],
    };

    assert_eq!(
        Ok(cmp),
        CMP::new(
            code,
            vec![
                OutType::Clock((0, false)),
                OutType::Decimal(0),
                OutType::Binary(vec![false; 6]),
            ],
        )
    );
}

#[test]
fn validate_accepts_a_parsed_table() {
    let tst = TST::new("load x;").unwrap();
    let cmp = CMP::new("| a |\n| 1 |", vec![OutType::Decimal(0)]).unwrap();
    assert_eq!(tst.validate(cmp), Ok(()));
}
