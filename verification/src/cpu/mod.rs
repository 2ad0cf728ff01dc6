//! The Hack CPU instruction model: the three C-instruction fields with their
//! bit codes, the 16-bit machine-word layout, and the round-trip laws of the
//! encoding.

pub mod hack_cpu;
pub mod parser;

pub use hack_cpu::HackCpu;
pub use parser::{asm2ml, ml2asm, parse, str2ml};


use vstd::prelude::*;

verus! {

/// The ALU operation of a C-instruction, a 7-bit code whose high bit selects
/// `A` or `M` as the second operand.
///
/// `DMinusOne` denotes the computation written `A-1` (code `0110010`) and
/// `AMinusOne` the computation written `D-1` (code `0001110`); every table in
/// this crate uses the two names that way round.
#[derive(Debug, Clone, Copy, PartialEq, Eq, Structural)]
pub enum Comp {
    Zero,
    One,
    MinusOne,
    D,
    A,
    NotD,
    NotA,
    MinusD,
    MinusA,
    DPulsOne,
    APulsOne,
    DMinusOne,
    AMinusOne,
    DPulsA,
    DMinusA,
    AMinusD,
    DAndA,
    DOrA,
    M,
    NotM,
    MinusM,
    MPlusOne,
    MMinusOne,
    DPulsM,
    DMinusM,
    MMinusD,
    DAndM,
    DOrM,
}

/// The write-target mask of a C-instruction: any combination of A, M and D.
#[derive(Debug, Clone, Copy, PartialEq, Eq, Structural)]
pub enum Dest {
    Null,
    M,
    D,
    MD,
    A,
    AM,
    AD,
    AMD,
}

/// The branch condition of a C-instruction, over the sign of the ALU output.
#[derive(Debug, Clone, Copy, PartialEq, Eq, Structural)]
pub enum Jump {
    Null,
    JGT,
    JEQ,
    JGE,
    JLT,
    JNE,
    JLE,
    JMP,
}

/// A Hack instruction: an address-register load or a computation.
#[derive(Debug, Clone, Copy, PartialEq, Eq, Structural)]
pub enum CPUInstruction {
    AInstruc(i16),
    CInstruc(Comp, Dest, Jump),
}

/// The 7-bit code of a `comp` field.
pub open spec fn comp_code_spec(c: Comp) -> u8 {
    match c {
        Comp::Zero => 0b0101010,
        Comp::One => 0b0111111,
        Comp::MinusOne => 0b0111010,
        Comp::D => 0b0001100,
        Comp::A => 0b0110000,
        Comp::NotD => 0b0001101,
        Comp::NotA => 0b0110001,
        Comp::MinusD => 0b0001111,
        Comp::MinusA => 0b0110011,
        Comp::DPulsOne => 0b0011111,
        Comp::APulsOne => 0b0110111,
        Comp::DMinusOne => 0b0110010,
        Comp::AMinusOne => 0b0001110,
        Comp::DPulsA => 0b0000010,
        Comp::DMinusA => 0b0010011,
        Comp::AMinusD => 0b0000111,
        Comp::DAndA => 0b0000000,
        Comp::DOrA => 0b0010101,
        Comp::M => 0b1110000,
        Comp::NotM => 0b1110001,
        Comp::MinusM => 0b1110011,
        Comp::MPlusOne => 0b1110111,
        Comp::MMinusOne => 0b1110010,
        Comp::DPulsM => 0b1000010,
        Comp::DMinusM => 0b1010011,
        Comp::MMinusD => 0b1000111,
        Comp::DAndM => 0b1000000,
        Comp::DOrM => 0b1010101,
    }
}

/// The `comp` field named by a 7-bit code, if the code is one of the 28
/// valid ones.
pub open spec fn comp_from_code_spec(x: u8) -> Option<Comp> {
    if x == 0b0101010 {
        Some(Comp::Zero)
    } else if x == 0b0111111 {
        Some(Comp::One)
    } else if x == 0b0111010 {
        Some(Comp::MinusOne)
    } else if x == 0b0001100 {
        Some(Comp::D)
    } else if x == 0b0110000 {
        Some(Comp::A)
    } else if x == 0b0001101 {
        Some(Comp::NotD)
    } else if x == 0b0110001 {
        Some(Comp::NotA)
    } else if x == 0b0001111 {
        Some(Comp::MinusD)
    } else if x == 0b0110011 {
        Some(Comp::MinusA)
    } else if x == 0b0011111 {
        Some(Comp::DPulsOne)
    } else if x == 0b0110111 {
        Some(Comp::APulsOne)
    } else if x == 0b0110010 {
        Some(Comp::DMinusOne)
    } else if x == 0b0001110 {
        Some(Comp::AMinusOne)
    } else if x == 0b0000010 {
        Some(Comp::DPulsA)
    } else if x == 0b0010011 {
        Some(Comp::DMinusA)
    } else if x == 0b0000111 {
        Some(Comp::AMinusD)
    } else if x == 0b0000000 {
        Some(Comp::DAndA)
    } else if x == 0b0010101 {
        Some(Comp::DOrA)
    } else if x == 0b1110000 {
        Some(Comp::M)
    } else if x == 0b1110001 {
        Some(Comp::NotM)
    } else if x == 0b1110011 {
        Some(Comp::MinusM)
    } else if x == 0b1110111 {
        Some(Comp::MPlusOne)
    } else if x == 0b1110010 {
        Some(Comp::MMinusOne)
    } else if x == 0b1000010 {
        Some(Comp::DPulsM)
    } else if x == 0b1010011 {
        Some(Comp::DMinusM)
    } else if x == 0b1000111 {
        Some(Comp::MMinusD)
    } else if x == 0b1000000 {
        Some(Comp::DAndM)
    } else if x == 0b1010101 {
        Some(Comp::DOrM)
    } else {
        None
    }
}

/// The 3-bit code of a `dest` field: bit 2 selects A, bit 1 selects D,
/// bit 0 selects M.
pub open spec fn dest_code_spec(d: Dest) -> u8 {
    match d {
        Dest::Null => 0,
        Dest::M => 1,
        Dest::D => 2,
        Dest::MD => 3,
        Dest::A => 4,
        Dest::AM => 5,
        Dest::AD => 6,
        Dest::AMD => 7,
    }
}

/// The `dest` field of a 3-bit code; every code below 8 is valid.
pub open spec fn dest_from_code_spec(x: u8) -> Dest {
    if x == 0 {
        Dest::Null
    } else if x == 1 {
        Dest::M
    } else if x == 2 {
        Dest::D
    } else if x == 3 {
        Dest::MD
    } else if x == 4 {
        Dest::A
    } else if x == 5 {
        Dest::AM
    } else if x == 6 {
        Dest::AD
    } else {
        Dest::AMD
    }
}

/// The 3-bit code of a `jump` field.
pub open spec fn jump_code_spec(j: Jump) -> u8 {
    match j {
        Jump::Null => 0,
        Jump::JGT => 1,
        Jump::JEQ => 2,
        Jump::JGE => 3,
        Jump::JLT => 4,
        Jump::JNE => 5,
        Jump::JLE => 6,
        Jump::JMP => 7,
    }
}

/// The `jump` field of a 3-bit code; every code below 8 is valid.
pub open spec fn jump_from_code_spec(x: u8) -> Jump {
    if x == 0 {
        Jump::Null
    } else if x == 1 {
        Jump::JGT
    } else if x == 2 {
        Jump::JEQ
    } else if x == 3 {
        Jump::JGE
    } else if x == 4 {
        Jump::JLT
    } else if x == 5 {
        Jump::JNE
    } else if x == 6 {
        Jump::JLE
    } else {
        Jump::JMP
    }
}

pub fn comp_code(c: Comp) -> (r: u8)
    ensures
        r == comp_code_spec(c),
{
    match c {
        Comp::Zero => 0b0101010,
        Comp::One => 0b0111111,
        Comp::MinusOne => 0b0111010,
        Comp::D => 0b0001100,
        Comp::A => 0b0110000,
        Comp::NotD => 0b0001101,
        Comp::NotA => 0b0110001,
        Comp::MinusD => 0b0001111,
        Comp::MinusA => 0b0110011,
        Comp::DPulsOne => 0b0011111,
        Comp::APulsOne => 0b0110111,
        Comp::DMinusOne => 0b0110010,
        Comp::AMinusOne => 0b0001110,
        Comp::DPulsA => 0b0000010,
        Comp::DMinusA => 0b0010011,
        Comp::AMinusD => 0b0000111,
        Comp::DAndA => 0b0000000,
        Comp::DOrA => 0b0010101,
        Comp::M => 0b1110000,
        Comp::NotM => 0b1110001,
        Comp::MinusM => 0b1110011,
        Comp::MPlusOne => 0b1110111,
        Comp::MMinusOne => 0b1110010,
        Comp::DPulsM => 0b1000010,
        Comp::DMinusM => 0b1010011,
        Comp::MMinusD => 0b1000111,
        Comp::DAndM => 0b1000000,
        Comp::DOrM => 0b1010101,
    }
}

pub fn comp_from_code(x: u8) -> (r: Option<Comp>)
    ensures
        r == comp_from_code_spec(x),
{
    if x == 0b0101010 {
        Some(Comp::Zero)
    } else if x == 0b0111111 {
        Some(Comp::One)
    } else if x == 0b0111010 {
        Some(Comp::MinusOne)
    } else if x == 0b0001100 {
        Some(Comp::D)
    } else if x == 0b0110000 {
        Some(Comp::A)
    } else if x == 0b0001101 {
        Some(Comp::NotD)
    } else if x == 0b0110001 {
        Some(Comp::NotA)
    } else if x == 0b0001111 {
        Some(Comp::MinusD)
    } else if x == 0b0110011 {
        Some(Comp::MinusA)
    } else if x == 0b0011111 {
        Some(Comp::DPulsOne)
    } else if x == 0b0110111 {
        Some(Comp::APulsOne)
    } else if x == 0b0110010 {
        Some(Comp::DMinusOne)
    } else if x == 0b0001110 {
        Some(Comp::AMinusOne)
    } else if x == 0b0000010 {
        Some(Comp::DPulsA)
    } else if x == 0b0010011 {
        Some(Comp::DMinusA)
    } else if x == 0b0000111 {
        Some(Comp::AMinusD)
    } else if x == 0b0000000 {
        Some(Comp::DAndA)
    } else if x == 0b0010101 {
        Some(Comp::DOrA)
    } else if x == 0b1110000 {
        Some(Comp::M)
    } else if x == 0b1110001 {
        Some(Comp::NotM)
    } else if x == 0b1110011 {
        Some(Comp::MinusM)
    } else if x == 0b1110111 {
        Some(Comp::MPlusOne)
    } else if x == 0b1110010 {
        Some(Comp::MMinusOne)
    } else if x == 0b1000010 {
        Some(Comp::DPulsM)
    } else if x == 0b1010011 {
        Some(Comp::DMinusM)
    } else if x == 0b1000111 {
        Some(Comp::MMinusD)
    } else if x == 0b1000000 {
        Some(Comp::DAndM)
    } else if x == 0b1010101 {
        Some(Comp::DOrM)
    } else {
        None
    }
}

pub fn dest_code(d: Dest) -> (r: u8)
    ensures
        r == dest_code_spec(d),
{
    match d {
        Dest::Null => 0,
        Dest::M => 1,
        Dest::D => 2,
        Dest::MD => 3,
        Dest::A => 4,
        Dest::AM => 5,
        Dest::AD => 6,
        Dest::AMD => 7,
    }
}

pub fn dest_from_code(x: u8) -> (r: Dest)
    ensures
        r == dest_from_code_spec(x),
{
    if x == 0 {
        Dest::Null
    } else if x == 1 {
        Dest::M
    } else if x == 2 {
        Dest::D
    } else if x == 3 {
        Dest::MD
    } else if x == 4 {
        Dest::A
    } else if x == 5 {
        Dest::AM
    } else if x == 6 {
        Dest::AD
    } else {
        Dest::AMD
    }
}

pub fn jump_code(j: Jump) -> (r: u8)
    ensures
        r == jump_code_spec(j),
{
    match j {
        Jump::Null => 0,
        Jump::JGT => 1,
        Jump::JEQ => 2,
        Jump::JGE => 3,
        Jump::JLT => 4,
        Jump::JNE => 5,
        Jump::JLE => 6,
        Jump::JMP => 7,
    }
}

pub fn jump_from_code(x: u8) -> (r: Jump)
    ensures
        r == jump_from_code_spec(x),
{
    if x == 0 {
        Jump::Null
    } else if x == 1 {
        Jump::JGT
    } else if x == 2 {
        Jump::JEQ
    } else if x == 3 {
        Jump::JGE
    } else if x == 4 {
        Jump::JLT
    } else if x == 5 {
        Jump::JNE
    } else if x == 6 {
        Jump::JLE
    } else {
        Jump::JMP
    }
}

/// The machine word of one instruction: an A-instruction keeps its low 15
/// bits, a C-instruction packs `111 a cccccc ddd jjj`.
pub open spec fn encode_spec(i: CPUInstruction) -> u16 {
    match i {
        CPUInstruction::AInstruc(v) => ((v as u16) % 0x8000) as u16,
        CPUInstruction::CInstruc(c, d, j) => (0xE000 + (comp_code_spec(c) as int) * 64 + (
        dest_code_spec(d) as int) * 8 + (jump_code_spec(j) as int)) as u16,
    }
}

/// The instruction named by a machine word: bit 15 discriminates; a
/// C-instruction fails to decode exactly when its 7-bit `comp` pattern is
/// invalid.  Bits 14 and 13 are not re-checked.
pub open spec fn decode_spec(w: u16) -> Option<CPUInstruction> {
    if w < 0x8000 {
        Some(CPUInstruction::AInstruc(w as i16))
    } else {
        match comp_from_code_spec(((w / 64) % 128) as u8) {
            Some(c) => Some(
                CPUInstruction::CInstruc(
                    c,
                    dest_from_code_spec(((w / 8) % 8) as u8),
                    jump_from_code_spec((w % 8) as u8),
                ),
            ),
            None => None,
        }
    }
}

/// Whether an instruction survives encoding unchanged: the immediate of an
/// A-instruction must not be negative, since bit 15 is masked off.
pub open spec fn encodable(i: CPUInstruction) -> bool {
    match i {
        CPUInstruction::AInstruc(v) => v >= 0,
        CPUInstruction::CInstruc(c, d, j) => true,
    }
}

/// Whether a machine word follows the ISA layout exactly: either an
/// A-instruction, or a C-instruction with bits 15..13 all set and a valid
/// `comp` pattern.
pub open spec fn well_formed_word(w: u16) -> bool {
    w < 0x8000 || (w >= 0xE000 && comp_from_code_spec(((w / 64) % 128) as u8) is Some)
}

/// A `comp` code names its field back: decoding the code of `c` yields `c`.
pub proof fn lemma_comp_roundtrip(c: Comp)
    ensures
        comp_from_code_spec(comp_code_spec(c)) == Some(c),
{
}

/// A valid 7-bit pattern is reproduced by encoding the field it names.
pub proof fn lemma_comp_code_of_valid(x: u8)
    requires
        comp_from_code_spec(x) is Some,
    ensures
        comp_code_spec(comp_from_code_spec(x)->Some_0) == x,
{
}

/// Every `comp` code fits in 7 bits.
pub proof fn lemma_comp_code_bound(c: Comp)
    ensures
        comp_code_spec(c) < 128,
{
}

/// A `dest` code below 8 names its field back, and conversely.
pub proof fn lemma_dest_roundtrip(d: Dest)
    ensures
        dest_from_code_spec(dest_code_spec(d)) == d,
        dest_code_spec(d) < 8,
{
}

/// A `jump` code below 8 names its field back, and conversely.
pub proof fn lemma_jump_roundtrip(j: Jump)
    ensures
        jump_from_code_spec(jump_code_spec(j)) == j,
        jump_code_spec(j) < 8,
{
}

/// Decoding inverts encoding on every instruction whose A-immediate is not
/// negative.
pub proof fn lemma_decode_encode(i: CPUInstruction)
    requires
        encodable(i),
    ensures
        decode_spec(encode_spec(i)) == Some(i),
{
    match i {
        CPUInstruction::AInstruc(v) => {
            assert(v as u16 == v as int);
            assert(encode_spec(i) == v as int);
        },
        CPUInstruction::CInstruc(c, d, j) => {
            let cc = comp_code_spec(c) as int;
            let dd = dest_code_spec(d) as int;
            let jj = jump_code_spec(j) as int;
            lemma_comp_code_bound(c);
            lemma_dest_roundtrip(d);
            lemma_jump_roundtrip(j);
            let w = 0xE000 + cc * 64 + dd * 8 + jj;
            assert(w <= 0xFFFF);
            assert(encode_spec(i) == w);
            assert(w % 8 == jj && (w / 8) % 8 == dd && (w / 64) % 128 == cc)
                by (nonlinear_arith)
                requires
                    0 <= cc < 128 && 0 <= dd < 8 && 0 <= jj < 8 && w == 0xE000 + cc * 64 + dd * 8
                        + jj,
            ;
            lemma_comp_roundtrip(c);
        },
    }
}

/// Encoding inverts decoding on every well-formed machine word.
pub proof fn lemma_encode_decode(w: u16)
    requires
        well_formed_word(w),
    ensures
        decode_spec(w) is Some,
        encode_spec(decode_spec(w)->Some_0) == w,
        encodable(decode_spec(w)->Some_0),
{
    if w < 0x8000 {
        assert(w as i16 >= 0);
        assert((w as i16) as u16 == w);
    } else {
        let cc = ((w / 64) % 128) as u8;
        let dd = ((w / 8) % 8) as u8;
        let jj = (w % 8) as u8;
        lemma_comp_code_of_valid(cc);
        let c = comp_from_code_spec(cc)->Some_0;
        let d = dest_from_code_spec(dd);
        let j = jump_from_code_spec(jj);
        assert(dest_code_spec(d) == dd);
        assert(jump_code_spec(j) == jj);
        assert(w >= 0xE000);
        assert(0xE000 + ((w / 64) % 128) * 64 + ((w / 8) % 8) * 8 + (w % 8) == w)
            by (nonlinear_arith)
            requires
                0xE000 <= w <= 0xFFFF,
        ;
    }
}

} // verus!
