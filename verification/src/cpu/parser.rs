//! Assembly text to CPU instructions and machine words: the hand-rolled
//! lexer, the two-pass symbol resolver, and the bit-exact codec.

use crate::cpu::{
    comp_code, comp_from_code, dest_code, dest_from_code, jump_code, jump_from_code,
    comp_code_spec, comp_from_code_spec, dest_code_spec, dest_from_code_spec, jump_code_spec,
    jump_from_code_spec, decode_spec, encode_spec, CPUInstruction, Comp, Dest, Jump,
};
use crate::lexer::Error;
use crate::text::{block_comment_end, block_comment_end_exec, chars_to_string, dec_digits,
    digits_end,
    digits_end_exec, digits_to_usize, digits_val, is_digit, is_digit_exec, line_comment_end,
    line_comment_end_exec, to_chars};
use crate::token_stream::{Span, TokenKind, TokenStream};
use vstd::prelude::*;

verus! {

/// One lexical element of Hack assembly text.
#[derive(Debug, Clone, PartialEq, Eq)]
pub enum Token {
    Zero,
    One,
    MinusOne,
    D,
    A,
    M,
    NotD,
    NotA,
    NotM,
    MinusD,
    MinusA,
    MinusM,
    DPulsOne,
    APulsOne,
    DMinusOne,
    AMinusOne,
    MPlusOne,
    MMinusOne,
    DPulsA,
    DMinusA,
    AMinusD,
    DAndA,
    DOrA,
    DPulsM,
    DMinusM,
    MMinusD,
    DAndM,
    DOrM,
    AD,
    AM,
    MD,
    AMD,
    JGT,
    JEQ,
    JGE,
    JLT,
    JNE,
    JLE,
    JMP,
    Eq,
    Semic,
    Name(String),
    Number(usize),
    Labal(String),
}

/// The mathematical reading of a token, payloads as sequences.
pub ghost enum TokenV {
    Zero,
    One,
    MinusOne,
    D,
    A,
    M,
    NotD,
    NotA,
    NotM,
    MinusD,
    MinusA,
    MinusM,
    DPulsOne,
    APulsOne,
    DMinusOne,
    AMinusOne,
    MPlusOne,
    MMinusOne,
    DPulsA,
    DMinusA,
    AMinusD,
    DAndA,
    DOrA,
    DPulsM,
    DMinusM,
    MMinusD,
    DAndM,
    DOrM,
    AD,
    AM,
    MD,
    AMD,
    JGT,
    JEQ,
    JGE,
    JLT,
    JNE,
    JLE,
    JMP,
    Eq,
    Semic,
    Name(Seq<char>),
    Number(nat),
    Labal(Seq<char>),
}

impl View for Token {
    type V = TokenV;

    open spec fn view(&self) -> TokenV {
        match self {
            Token::Zero => TokenV::Zero,
            Token::One => TokenV::One,
            Token::MinusOne => TokenV::MinusOne,
            Token::D => TokenV::D,
            Token::A => TokenV::A,
            Token::M => TokenV::M,
            Token::NotD => TokenV::NotD,
            Token::NotA => TokenV::NotA,
            Token::NotM => TokenV::NotM,
            Token::MinusD => TokenV::MinusD,
            Token::MinusA => TokenV::MinusA,
            Token::MinusM => TokenV::MinusM,
            Token::DPulsOne => TokenV::DPulsOne,
            Token::APulsOne => TokenV::APulsOne,
            Token::DMinusOne => TokenV::DMinusOne,
            Token::AMinusOne => TokenV::AMinusOne,
            Token::MPlusOne => TokenV::MPlusOne,
            Token::MMinusOne => TokenV::MMinusOne,
            Token::DPulsA => TokenV::DPulsA,
            Token::DMinusA => TokenV::DMinusA,
            Token::AMinusD => TokenV::AMinusD,
            Token::DAndA => TokenV::DAndA,
            Token::DOrA => TokenV::DOrA,
            Token::DPulsM => TokenV::DPulsM,
            Token::DMinusM => TokenV::DMinusM,
            Token::MMinusD => TokenV::MMinusD,
            Token::DAndM => TokenV::DAndM,
            Token::DOrM => TokenV::DOrM,
            Token::AD => TokenV::AD,
            Token::AM => TokenV::AM,
            Token::MD => TokenV::MD,
            Token::AMD => TokenV::AMD,
            Token::JGT => TokenV::JGT,
            Token::JEQ => TokenV::JEQ,
            Token::JGE => TokenV::JGE,
            Token::JLT => TokenV::JLT,
            Token::JNE => TokenV::JNE,
            Token::JLE => TokenV::JLE,
            Token::JMP => TokenV::JMP,
            Token::Eq => TokenV::Eq,
            Token::Semic => TokenV::Semic,
            Token::Name(s) => TokenV::Name(s@),
            Token::Number(n) => TokenV::Number(*n as nat),
            Token::Labal(s) => TokenV::Labal(s@),
        }
    }
}

/// A numeric tag for each token variant, payloads ignored.
pub open spec fn kind_id_spec(t: TokenV) -> int {
    match t {
        TokenV::Zero => 0,
        TokenV::One => 1,
        TokenV::MinusOne => 2,
        TokenV::D => 3,
        TokenV::A => 4,
        TokenV::M => 5,
        TokenV::NotD => 6,
        TokenV::NotA => 7,
        TokenV::NotM => 8,
        TokenV::MinusD => 9,
        TokenV::MinusA => 10,
        TokenV::MinusM => 11,
        TokenV::DPulsOne => 12,
        TokenV::APulsOne => 13,
        TokenV::DMinusOne => 14,
        TokenV::AMinusOne => 15,
        TokenV::MPlusOne => 16,
        TokenV::MMinusOne => 17,
        TokenV::DPulsA => 18,
        TokenV::DMinusA => 19,
        TokenV::AMinusD => 20,
        TokenV::DAndA => 21,
        TokenV::DOrA => 22,
        TokenV::DPulsM => 23,
        TokenV::DMinusM => 24,
        TokenV::MMinusD => 25,
        TokenV::DAndM => 26,
        TokenV::DOrM => 27,
        TokenV::AD => 28,
        TokenV::AM => 29,
        TokenV::MD => 30,
        TokenV::AMD => 31,
        TokenV::JGT => 32,
        TokenV::JEQ => 33,
        TokenV::JGE => 34,
        TokenV::JLT => 35,
        TokenV::JNE => 36,
        TokenV::JLE => 37,
        TokenV::JMP => 38,
        TokenV::Eq => 39,
        TokenV::Semic => 40,
        TokenV::Name(_) => 41,
        TokenV::Number(_) => 42,
        TokenV::Labal(_) => 43,
    }
}

fn kind_id(t: &Token) -> (r: usize)
    ensures
        r == kind_id_spec(t@),
{
    match t {
        Token::Zero => 0,
        Token::One => 1,
        Token::MinusOne => 2,
        Token::D => 3,
        Token::A => 4,
        Token::M => 5,
        Token::NotD => 6,
        Token::NotA => 7,
        Token::NotM => 8,
        Token::MinusD => 9,
        Token::MinusA => 10,
        Token::MinusM => 11,
        Token::DPulsOne => 12,
        Token::APulsOne => 13,
        Token::DMinusOne => 14,
        Token::AMinusOne => 15,
        Token::MPlusOne => 16,
        Token::MMinusOne => 17,
        Token::DPulsA => 18,
        Token::DMinusA => 19,
        Token::AMinusD => 20,
        Token::DAndA => 21,
        Token::DOrA => 22,
        Token::DPulsM => 23,
        Token::DMinusM => 24,
        Token::MMinusD => 25,
        Token::DAndM => 26,
        Token::DOrM => 27,
        Token::AD => 28,
        Token::AM => 29,
        Token::MD => 30,
        Token::AMD => 31,
        Token::JGT => 32,
        Token::JEQ => 33,
        Token::JGE => 34,
        Token::JLT => 35,
        Token::JNE => 36,
        Token::JLE => 37,
        Token::JMP => 38,
        Token::Eq => 39,
        Token::Semic => 40,
        Token::Name(_) => 41,
        Token::Number(_) => 42,
        Token::Labal(_) => 43,
    }
}

impl TokenKind for Token {
    open spec fn kind_eq_spec(&self, other: &Self) -> bool {
        kind_id_spec(self@) == kind_id_spec(other@)
    }

    fn eq_type(&self, other: &Self) -> (r: bool)
        ensures
            r == self.kind_eq_spec(other),
    {
        kind_id(self) == kind_id(other)
    }

    fn dup(&self) -> (r: Self)
        ensures
            r == *self,
    {
        match self {
            Token::Zero => Token::Zero,
            Token::One => Token::One,
            Token::MinusOne => Token::MinusOne,
            Token::D => Token::D,
            Token::A => Token::A,
            Token::M => Token::M,
            Token::NotD => Token::NotD,
            Token::NotA => Token::NotA,
            Token::NotM => Token::NotM,
            Token::MinusD => Token::MinusD,
            Token::MinusA => Token::MinusA,
            Token::MinusM => Token::MinusM,
            Token::DPulsOne => Token::DPulsOne,
            Token::APulsOne => Token::APulsOne,
            Token::DMinusOne => Token::DMinusOne,
            Token::AMinusOne => Token::AMinusOne,
            Token::MPlusOne => Token::MPlusOne,
            Token::MMinusOne => Token::MMinusOne,
            Token::DPulsA => Token::DPulsA,
            Token::DMinusA => Token::DMinusA,
            Token::AMinusD => Token::AMinusD,
            Token::DAndA => Token::DAndA,
            Token::DOrA => Token::DOrA,
            Token::DPulsM => Token::DPulsM,
            Token::DMinusM => Token::DMinusM,
            Token::MMinusD => Token::MMinusD,
            Token::DAndM => Token::DAndM,
            Token::DOrM => Token::DOrM,
            Token::AD => Token::AD,
            Token::AM => Token::AM,
            Token::MD => Token::MD,
            Token::AMD => Token::AMD,
            Token::JGT => Token::JGT,
            Token::JEQ => Token::JEQ,
            Token::JGE => Token::JGE,
            Token::JLT => Token::JLT,
            Token::JNE => Token::JNE,
            Token::JLE => Token::JLE,
            Token::JMP => Token::JMP,
            Token::Eq => Token::Eq,
            Token::Semic => Token::Semic,
            Token::Name(s) => Token::Name(s.clone()),
            Token::Number(n) => Token::Number(*n),
            Token::Labal(s) => Token::Labal(s.clone()),
        }
    }
}

/// The fixed token written with exactly 3 characters at position `i`, if any.
pub open spec fn fixed3_spec(s: Seq<char>, i: int) -> Option<TokenV> {
    if i + 3 > s.len() {
        None
    } else if s[i + 0] == 'A' && s[i + 1] == 'M' && s[i + 2] == 'D' {
        Some(TokenV::AMD)
    } else if s[i + 0] == 'A' && s[i + 1] == 'D' && s[i + 2] == 'M' {
        Some(TokenV::AMD)
    } else if s[i + 0] == 'D' && s[i + 1] == 'A' && s[i + 2] == 'M' {
        Some(TokenV::AMD)
    } else if s[i + 0] == 'D' && s[i + 1] == 'M' && s[i + 2] == 'A' {
        Some(TokenV::AMD)
    } else if s[i + 0] == 'M' && s[i + 1] == 'A' && s[i + 2] == 'D' {
        Some(TokenV::AMD)
    } else if s[i + 0] == 'M' && s[i + 1] == 'D' && s[i + 2] == 'A' {
        Some(TokenV::AMD)
    } else if s[i + 0] == 'J' && s[i + 1] == 'G' && s[i + 2] == 'T' {
        Some(TokenV::JGT)
    } else if s[i + 0] == 'J' && s[i + 1] == 'E' && s[i + 2] == 'Q' {
        Some(TokenV::JEQ)
    } else if s[i + 0] == 'J' && s[i + 1] == 'G' && s[i + 2] == 'E' {
        Some(TokenV::JGE)
    } else if s[i + 0] == 'J' && s[i + 1] == 'L' && s[i + 2] == 'T' {
        Some(TokenV::JLT)
    } else if s[i + 0] == 'J' && s[i + 1] == 'N' && s[i + 2] == 'E' {
        Some(TokenV::JNE)
    } else if s[i + 0] == 'J' && s[i + 1] == 'L' && s[i + 2] == 'E' {
        Some(TokenV::JLE)
    } else if s[i + 0] == 'J' && s[i + 1] == 'M' && s[i + 2] == 'P' {
        Some(TokenV::JMP)
    } else if s[i + 0] == 'D' && s[i + 1] == '+' && s[i + 2] == '1' {
        Some(TokenV::DPulsOne)
    } else if s[i + 0] == 'A' && s[i + 1] == '+' && s[i + 2] == '1' {
        Some(TokenV::APulsOne)
    } else if s[i + 0] == 'M' && s[i + 1] == '+' && s[i + 2] == '1' {
        Some(TokenV::MPlusOne)
    } else if s[i + 0] == 'A' && s[i + 1] == '-' && s[i + 2] == '1' {
        Some(TokenV::DMinusOne)
    } else if s[i + 0] == 'D' && s[i + 1] == '-' && s[i + 2] == '1' {
        Some(TokenV::AMinusOne)
    } else if s[i + 0] == 'M' && s[i + 1] == '-' && s[i + 2] == '1' {
        Some(TokenV::MMinusOne)
    } else if s[i + 0] == 'D' && s[i + 1] == '+' && s[i + 2] == 'A' {
        Some(TokenV::DPulsA)
    } else if s[i + 0] == 'A' && s[i + 1] == '+' && s[i + 2] == 'D' {
        Some(TokenV::DPulsA)
    } else if s[i + 0] == 'D' && s[i + 1] == '-' && s[i + 2] == 'A' {
        Some(TokenV::DMinusA)
    } else if s[i + 0] == 'A' && s[i + 1] == '-' && s[i + 2] == 'D' {
        Some(TokenV::AMinusD)
    } else if s[i + 0] == 'D' && s[i + 1] == '&' && s[i + 2] == 'A' {
        Some(TokenV::DAndA)
    } else if s[i + 0] == 'A' && s[i + 1] == '&' && s[i + 2] == 'D' {
        Some(TokenV::DAndA)
    } else if s[i + 0] == 'D' && s[i + 1] == '|' && s[i + 2] == 'A' {
        Some(TokenV::DOrA)
    } else if s[i + 0] == 'A' && s[i + 1] == '|' && s[i + 2] == 'D' {
        Some(TokenV::DOrA)
    } else if s[i + 0] == 'D' && s[i + 1] == '+' && s[i + 2] == 'M' {
        Some(TokenV::DPulsM)
    } else if s[i + 0] == 'M' && s[i + 1] == '+' && s[i + 2] == 'D' {
        Some(TokenV::DPulsM)
    } else if s[i + 0] == 'D' && s[i + 1] == '-' && s[i + 2] == 'M' {
        Some(TokenV::DMinusM)
    } else if s[i + 0] == 'M' && s[i + 1] == '-' && s[i + 2] == 'D' {
        Some(TokenV::MMinusD)
    } else if s[i + 0] == 'D' && s[i + 1] == '&' && s[i + 2] == 'M' {
        Some(TokenV::DAndM)
    } else if s[i + 0] == 'M' && s[i + 1] == '&' && s[i + 2] == 'D' {
        Some(TokenV::DAndM)
    } else if s[i + 0] == 'D' && s[i + 1] == '|' && s[i + 2] == 'M' {
        Some(TokenV::DOrM)
    } else if s[i + 0] == 'M' && s[i + 1] == '|' && s[i + 2] == 'D' {
        Some(TokenV::DOrM)
    } else {
        None
    }
}

fn fixed3(v: &Vec<char>, i: usize) -> (r: Option<Token>)
    requires
        i <= v@.len(),
    ensures
        match r {
            Some(t) => fixed3_spec(v@, i as int) == Some(t@),
            None => fixed3_spec(v@, i as int) is None,
        },
{
    if (i as u128) + 3 > (v.len() as u128) {
        None
    } else if v[i + 0] == 'A' && v[i + 1] == 'M' && v[i + 2] == 'D' {
        Some(Token::AMD)
    } else if v[i + 0] == 'A' && v[i + 1] == 'D' && v[i + 2] == 'M' {
        Some(Token::AMD)
    } else if v[i + 0] == 'D' && v[i + 1] == 'A' && v[i + 2] == 'M' {
        Some(Token::AMD)
    } else if v[i + 0] == 'D' && v[i + 1] == 'M' && v[i + 2] == 'A' {
        Some(Token::AMD)
    } else if v[i + 0] == 'M' && v[i + 1] == 'A' && v[i + 2] == 'D' {
        Some(Token::AMD)
    } else if v[i + 0] == 'M' && v[i + 1] == 'D' && v[i + 2] == 'A' {
        Some(Token::AMD)
    } else if v[i + 0] == 'J' && v[i + 1] == 'G' && v[i + 2] == 'T' {
        Some(Token::JGT)
    } else if v[i + 0] == 'J' && v[i + 1] == 'E' && v[i + 2] == 'Q' {
        Some(Token::JEQ)
    } else if v[i + 0] == 'J' && v[i + 1] == 'G' && v[i + 2] == 'E' {
        Some(Token::JGE)
    } else if v[i + 0] == 'J' && v[i + 1] == 'L' && v[i + 2] == 'T' {
        Some(Token::JLT)
    } else if v[i + 0] == 'J' && v[i + 1] == 'N' && v[i + 2] == 'E' {
        Some(Token::JNE)
    } else if v[i + 0] == 'J' && v[i + 1] == 'L' && v[i + 2] == 'E' {
        Some(Token::JLE)
    } else if v[i + 0] == 'J' && v[i + 1] == 'M' && v[i + 2] == 'P' {
        Some(Token::JMP)
    } else if v[i + 0] == 'D' && v[i + 1] == '+' && v[i + 2] == '1' {
        Some(Token::DPulsOne)
    } else if v[i + 0] == 'A' && v[i + 1] == '+' && v[i + 2] == '1' {
        Some(Token::APulsOne)
    } else if v[i + 0] == 'M' && v[i + 1] == '+' && v[i + 2] == '1' {
        Some(Token::MPlusOne)
    } else if v[i + 0] == 'A' && v[i + 1] == '-' && v[i + 2] == '1' {
        Some(Token::DMinusOne)
    } else if v[i + 0] == 'D' && v[i + 1] == '-' && v[i + 2] == '1' {
        Some(Token::AMinusOne)
    } else if v[i + 0] == 'M' && v[i + 1] == '-' && v[i + 2] == '1' {
        Some(Token::MMinusOne)
    } else if v[i + 0] == 'D' && v[i + 1] == '+' && v[i + 2] == 'A' {
        Some(Token::DPulsA)
    } else if v[i + 0] == 'A' && v[i + 1] == '+' && v[i + 2] == 'D' {
        Some(Token::DPulsA)
    } else if v[i + 0] == 'D' && v[i + 1] == '-' && v[i + 2] == 'A' {
        Some(Token::DMinusA)
    } else if v[i + 0] == 'A' && v[i + 1] == '-' && v[i + 2] == 'D' {
        Some(Token::AMinusD)
    } else if v[i + 0] == 'D' && v[i + 1] == '&' && v[i + 2] == 'A' {
        Some(Token::DAndA)
    } else if v[i + 0] == 'A' && v[i + 1] == '&' && v[i + 2] == 'D' {
        Some(Token::DAndA)
    } else if v[i + 0] == 'D' && v[i + 1] == '|' && v[i + 2] == 'A' {
        Some(Token::DOrA)
    } else if v[i + 0] == 'A' && v[i + 1] == '|' && v[i + 2] == 'D' {
        Some(Token::DOrA)
    } else if v[i + 0] == 'D' && v[i + 1] == '+' && v[i + 2] == 'M' {
        Some(Token::DPulsM)
    } else if v[i + 0] == 'M' && v[i + 1] == '+' && v[i + 2] == 'D' {
        Some(Token::DPulsM)
    } else if v[i + 0] == 'D' && v[i + 1] == '-' && v[i + 2] == 'M' {
        Some(Token::DMinusM)
    } else if v[i + 0] == 'M' && v[i + 1] == '-' && v[i + 2] == 'D' {
        Some(Token::MMinusD)
    } else if v[i + 0] == 'D' && v[i + 1] == '&' && v[i + 2] == 'M' {
        Some(Token::DAndM)
    } else if v[i + 0] == 'M' && v[i + 1] == '&' && v[i + 2] == 'D' {
        Some(Token::DAndM)
    } else if v[i + 0] == 'D' && v[i + 1] == '|' && v[i + 2] == 'M' {
        Some(Token::DOrM)
    } else if v[i + 0] == 'M' && v[i + 1] == '|' && v[i + 2] == 'D' {
        Some(Token::DOrM)
    } else {
        None
    }
}

/// The fixed token written with exactly 2 characters at position `i`, if any.
pub open spec fn fixed2_spec(s: Seq<char>, i: int) -> Option<TokenV> {
    if i + 2 > s.len() {
        None
    } else if s[i + 0] == 'A' && s[i + 1] == 'D' {
        Some(TokenV::AD)
    } else if s[i + 0] == 'D' && s[i + 1] == 'A' {
        Some(TokenV::AD)
    } else if s[i + 0] == 'A' && s[i + 1] == 'M' {
        Some(TokenV::AM)
    } else if s[i + 0] == 'M' && s[i + 1] == 'A' {
        Some(TokenV::AM)
    } else if s[i + 0] == 'D' && s[i + 1] == 'M' {
        Some(TokenV::MD)
    } else if s[i + 0] == 'M' && s[i + 1] == 'D' {
        Some(TokenV::MD)
    } else if s[i + 0] == '!' && s[i + 1] == 'D' {
        Some(TokenV::NotD)
    } else if s[i + 0] == '!' && s[i + 1] == 'A' {
        Some(TokenV::NotA)
    } else if s[i + 0] == '!' && s[i + 1] == 'M' {
        Some(TokenV::NotM)
    } else if s[i + 0] == '-' && s[i + 1] == '1' {
        Some(TokenV::MinusOne)
    } else if s[i + 0] == '-' && s[i + 1] == 'D' {
        Some(TokenV::MinusD)
    } else if s[i + 0] == '-' && s[i + 1] == 'A' {
        Some(TokenV::MinusA)
    } else if s[i + 0] == '-' && s[i + 1] == 'M' {
        Some(TokenV::MinusM)
    } else {
        None
    }
}

fn fixed2(v: &Vec<char>, i: usize) -> (r: Option<Token>)
    requires
        i <= v@.len(),
    ensures
        match r {
            Some(t) => fixed2_spec(v@, i as int) == Some(t@),
            None => fixed2_spec(v@, i as int) is None,
        },
{
    if (i as u128) + 2 > (v.len() as u128) {
        None
    } else if v[i + 0] == 'A' && v[i + 1] == 'D' {
        Some(Token::AD)
    } else if v[i + 0] == 'D' && v[i + 1] == 'A' {
        Some(Token::AD)
    } else if v[i + 0] == 'A' && v[i + 1] == 'M' {
        Some(Token::AM)
    } else if v[i + 0] == 'M' && v[i + 1] == 'A' {
        Some(Token::AM)
    } else if v[i + 0] == 'D' && v[i + 1] == 'M' {
        Some(Token::MD)
    } else if v[i + 0] == 'M' && v[i + 1] == 'D' {
        Some(Token::MD)
    } else if v[i + 0] == '!' && v[i + 1] == 'D' {
        Some(Token::NotD)
    } else if v[i + 0] == '!' && v[i + 1] == 'A' {
        Some(Token::NotA)
    } else if v[i + 0] == '!' && v[i + 1] == 'M' {
        Some(Token::NotM)
    } else if v[i + 0] == '-' && v[i + 1] == '1' {
        Some(Token::MinusOne)
    } else if v[i + 0] == '-' && v[i + 1] == 'D' {
        Some(Token::MinusD)
    } else if v[i + 0] == '-' && v[i + 1] == 'A' {
        Some(Token::MinusA)
    } else if v[i + 0] == '-' && v[i + 1] == 'M' {
        Some(Token::MinusM)
    } else {
        None
    }
}

/// The fixed token written with exactly 1 character at position `i`, if any.
pub open spec fn fixed1_spec(s: Seq<char>, i: int) -> Option<TokenV> {
    if i + 1 > s.len() {
        None
    } else if s[i + 0] == '0' {
        Some(TokenV::Zero)
    } else if s[i + 0] == '1' {
        Some(TokenV::One)
    } else if s[i + 0] == 'D' {
        Some(TokenV::D)
    } else if s[i + 0] == 'A' {
        Some(TokenV::A)
    } else if s[i + 0] == 'M' {
        Some(TokenV::M)
    } else if s[i + 0] == '=' {
        Some(TokenV::Eq)
    } else if s[i + 0] == ';' {
        Some(TokenV::Semic)
    } else {
        None
    }
}

fn fixed1(v: &Vec<char>, i: usize) -> (r: Option<Token>)
    requires
        i <= v@.len(),
    ensures
        match r {
            Some(t) => fixed1_spec(v@, i as int) == Some(t@),
            None => fixed1_spec(v@, i as int) is None,
        },
{
    if (i as u128) + 1 > (v.len() as u128) {
        None
    } else if v[i + 0] == '0' {
        Some(Token::Zero)
    } else if v[i + 0] == '1' {
        Some(Token::One)
    } else if v[i + 0] == 'D' {
        Some(Token::D)
    } else if v[i + 0] == 'A' {
        Some(Token::A)
    } else if v[i + 0] == 'M' {
        Some(Token::M)
    } else if v[i + 0] == '=' {
        Some(Token::Eq)
    } else if v[i + 0] == ';' {
        Some(Token::Semic)
    } else {
        None
    }
}

/// The `comp` field a token names, if it is a computation token.
pub open spec fn comp_of_tokenv(t: TokenV) -> Option<Comp> {
    match t {
        TokenV::Zero => Some(Comp::Zero),
        TokenV::One => Some(Comp::One),
        TokenV::MinusOne => Some(Comp::MinusOne),
        TokenV::D => Some(Comp::D),
        TokenV::A => Some(Comp::A),
        TokenV::M => Some(Comp::M),
        TokenV::NotD => Some(Comp::NotD),
        TokenV::NotA => Some(Comp::NotA),
        TokenV::NotM => Some(Comp::NotM),
        TokenV::MinusD => Some(Comp::MinusD),
        TokenV::MinusA => Some(Comp::MinusA),
        TokenV::MinusM => Some(Comp::MinusM),
        TokenV::DPulsOne => Some(Comp::DPulsOne),
        TokenV::APulsOne => Some(Comp::APulsOne),
        TokenV::DMinusOne => Some(Comp::DMinusOne),
        TokenV::AMinusOne => Some(Comp::AMinusOne),
        TokenV::MPlusOne => Some(Comp::MPlusOne),
        TokenV::MMinusOne => Some(Comp::MMinusOne),
        TokenV::DPulsA => Some(Comp::DPulsA),
        TokenV::DMinusA => Some(Comp::DMinusA),
        TokenV::AMinusD => Some(Comp::AMinusD),
        TokenV::DAndA => Some(Comp::DAndA),
        TokenV::DOrA => Some(Comp::DOrA),
        TokenV::DPulsM => Some(Comp::DPulsM),
        TokenV::DMinusM => Some(Comp::DMinusM),
        TokenV::MMinusD => Some(Comp::MMinusD),
        TokenV::DAndM => Some(Comp::DAndM),
        TokenV::DOrM => Some(Comp::DOrM),
        _ => None,
    }
}

fn comp_of_token(t: &Token) -> (r: Option<Comp>)
    ensures
        r == comp_of_tokenv(t@),
{
    match t {
        Token::Zero => Some(Comp::Zero),
        Token::One => Some(Comp::One),
        Token::MinusOne => Some(Comp::MinusOne),
        Token::D => Some(Comp::D),
        Token::A => Some(Comp::A),
        Token::M => Some(Comp::M),
        Token::NotD => Some(Comp::NotD),
        Token::NotA => Some(Comp::NotA),
        Token::NotM => Some(Comp::NotM),
        Token::MinusD => Some(Comp::MinusD),
        Token::MinusA => Some(Comp::MinusA),
        Token::MinusM => Some(Comp::MinusM),
        Token::DPulsOne => Some(Comp::DPulsOne),
        Token::APulsOne => Some(Comp::APulsOne),
        Token::DMinusOne => Some(Comp::DMinusOne),
        Token::AMinusOne => Some(Comp::AMinusOne),
        Token::MPlusOne => Some(Comp::MPlusOne),
        Token::MMinusOne => Some(Comp::MMinusOne),
        Token::DPulsA => Some(Comp::DPulsA),
        Token::DMinusA => Some(Comp::DMinusA),
        Token::AMinusD => Some(Comp::AMinusD),
        Token::DAndA => Some(Comp::DAndA),
        Token::DOrA => Some(Comp::DOrA),
        Token::DPulsM => Some(Comp::DPulsM),
        Token::DMinusM => Some(Comp::DMinusM),
        Token::MMinusD => Some(Comp::MMinusD),
        Token::DAndM => Some(Comp::DAndM),
        Token::DOrM => Some(Comp::DOrM),
        _ => None,
    }
}

/// The `dest` field a token names, if it is a destination token.
pub open spec fn dest_of_tokenv(t: TokenV) -> Option<Dest> {
    match t {
        TokenV::A => Some(Dest::A),
        TokenV::D => Some(Dest::D),
        TokenV::M => Some(Dest::M),
        TokenV::AD => Some(Dest::AD),
        TokenV::AM => Some(Dest::AM),
        TokenV::MD => Some(Dest::MD),
        TokenV::AMD => Some(Dest::AMD),
        _ => None,
    }
}

fn dest_of_token(t: &Token) -> (r: Option<Dest>)
    ensures
        r == dest_of_tokenv(t@),
{
    match t {
        Token::A => Some(Dest::A),
        Token::D => Some(Dest::D),
        Token::M => Some(Dest::M),
        Token::AD => Some(Dest::AD),
        Token::AM => Some(Dest::AM),
        Token::MD => Some(Dest::MD),
        Token::AMD => Some(Dest::AMD),
        _ => None,
    }
}

/// The `jump` field a token names, if it is a jump token.
pub open spec fn jump_of_tokenv(t: TokenV) -> Option<Jump> {
    match t {
        TokenV::JGT => Some(Jump::JGT),
        TokenV::JEQ => Some(Jump::JEQ),
        TokenV::JGE => Some(Jump::JGE),
        TokenV::JLT => Some(Jump::JLT),
        TokenV::JNE => Some(Jump::JNE),
        TokenV::JLE => Some(Jump::JLE),
        TokenV::JMP => Some(Jump::JMP),
        _ => None,
    }
}

fn jump_of_token(t: &Token) -> (r: Option<Jump>)
    ensures
        r == jump_of_tokenv(t@),
{
    match t {
        Token::JGT => Some(Jump::JGT),
        Token::JEQ => Some(Jump::JEQ),
        Token::JGE => Some(Jump::JGE),
        Token::JLT => Some(Jump::JLT),
        Token::JNE => Some(Jump::JNE),
        Token::JLE => Some(Jump::JLE),
        Token::JMP => Some(Jump::JMP),
        _ => None,
    }
}
// ---------------------------------------------------------------------------
// Lexing
// ---------------------------------------------------------------------------

/// Characters skipped between tokens.
pub open spec fn is_ws(c: char) -> bool {
    c == ' ' || c == '\t' || c == '\r' || c == '\n'
}

/// Characters that may open an assembly identifier.
pub open spec fn is_ident_start(c: char) -> bool {
    ('a' <= c && c <= 'z') || ('A' <= c && c <= 'Z') || c == '_' || c == '$' || c == '.'
}

/// Characters that may continue an assembly identifier.
pub open spec fn is_ident_char(c: char) -> bool {
    is_ident_start(c) || is_digit(c)
}

/// First position at or after `i` that does not continue an identifier.
pub open spec fn ident_end(s: Seq<char>, i: int) -> int
    decreases s.len() - i,
    when 0 <= i <= s.len()
{
    if i < s.len() && is_ident_char(s[i]) {
        ident_end(s, i + 1)
    } else {
        i
    }
}

/// What the lexer does at position `i`: produce a token, skip blanks or a
/// comment, stop, or fail on text it does not recognize.
pub ghost enum LexStep {
    Tok(TokenV, int),
    Skip(int),
    End,
    Fail,
}

/// One lexer decision.  Fixed tokens are matched longest first; `@` opens a
/// decimal or symbolic address, `(` a label declaration.
pub open spec fn lex_step(s: Seq<char>, i: int) -> LexStep {
    if i >= s.len() {
        LexStep::End
    } else {
        let c = s[i];
        if is_ws(c) {
            LexStep::Skip(i + 1)
        } else if c == '/' && i + 1 < s.len() && s[i + 1] == '/' {
            LexStep::Skip(line_comment_end(s, i + 2))
        } else if c == '/' && i + 1 < s.len() && s[i + 1] == '*' {
            match block_comment_end(s, i + 2) {
                Some(n) => LexStep::Skip(n),
                None => LexStep::Fail,
            }
        } else if c == '@' {
            if i + 1 < s.len() && is_digit(s[i + 1]) {
                let e = digits_end(s, i + 1);
                if digits_val(s.subrange(i + 1, e)) > usize::MAX {
                    LexStep::Fail
                } else {
                    LexStep::Tok(TokenV::Number(digits_val(s.subrange(i + 1, e))), e)
                }
            } else if i + 1 < s.len() && is_ident_start(s[i + 1]) {
                let e = ident_end(s, i + 1);
                LexStep::Tok(TokenV::Name(s.subrange(i + 1, e)), e)
            } else {
                LexStep::Fail
            }
        } else if c == '(' {
            if i + 1 < s.len() && is_ident_start(s[i + 1]) {
                let e = ident_end(s, i + 1);
                if e < s.len() && s[e] == ')' {
                    LexStep::Tok(TokenV::Labal(s.subrange(i + 1, e)), e + 1)
                } else {
                    LexStep::Fail
                }
            } else {
                LexStep::Fail
            }
        } else {
            match fixed3_spec(s, i) {
                Some(t) => LexStep::Tok(t, i + 3),
                None => match fixed2_spec(s, i) {
                    Some(t) => LexStep::Tok(t, i + 2),
                    None => match fixed1_spec(s, i) {
                        Some(t) => LexStep::Tok(t, i + 1),
                        None => LexStep::Fail,
                    },
                },
            }
        }
    }
}

/// The token sequence of the text from position `i` on, `None` on a lexing
/// failure.
pub open spec fn lex_spec(s: Seq<char>, i: int) -> Option<Seq<TokenV>>
    decreases s.len() - i,
    when 0 <= i
{
    match lex_step(s, i) {
        LexStep::End => Some(Seq::empty()),
        LexStep::Fail => None,
        LexStep::Skip(n) => if i < n <= s.len() {
            lex_spec(s, n)
        } else {
            None
        },
        LexStep::Tok(t, n) => if i < n <= s.len() {
            match lex_spec(s, n) {
                Some(r) => Some(seq![t] + r),
                None => None,
            }
        } else {
            None
        },
    }
}

fn ident_end_exec(v: &Vec<char>, i: usize) -> (e: usize)
    requires
        i <= v@.len(),
    ensures
        e == ident_end(v@, i as int),
        i <= e <= v@.len(),
{
    let mut j = i;
    while j < v.len() && is_ident_char_exec(v[j])
        invariant
            i <= j <= v@.len(),
            ident_end(v@, i as int) == ident_end(v@, j as int),
        decreases v@.len() - j,
    {
        j = j + 1;
    }
    j
}

fn is_ws_exec(c: char) -> (r: bool)
    ensures
        r == is_ws(c),
{
    c == ' ' || c == '\t' || c == '\r' || c == '\n'
}

fn is_ident_start_exec(c: char) -> (r: bool)
    ensures
        r == is_ident_start(c),
{
    ('a' <= c && c <= 'z') || ('A' <= c && c <= 'Z') || c == '_' || c == '$' || c == '.'
}

fn is_ident_char_exec(c: char) -> (r: bool)
    ensures
        r == is_ident_char(c),
{
    is_ident_start_exec(c) || is_digit_exec(c)
}

/// What the lexer produced at one position.
enum StepExec {
    TokE(Token, usize),
    SkipE(usize),
    EndE,
    FailE,
}

fn lex_step_exec(v: &Vec<char>, i: usize) -> (r: StepExec)
    requires
        i <= v@.len(),
    ensures
        match r {
            StepExec::EndE => lex_step(v@, i as int) == LexStep::End,
            StepExec::FailE => lex_step(v@, i as int) == LexStep::Fail,
            StepExec::SkipE(n) => lex_step(v@, i as int) == LexStep::Skip(n as int) && i < n
                <= v@.len(),
            StepExec::TokE(t, n) => lex_step(v@, i as int) == LexStep::Tok(t@, n as int) && i < n
                <= v@.len(),
        },
{
    if i >= v.len() {
        return StepExec::EndE;
    }
    let c = v[i];
    if is_ws_exec(c) {
        return StepExec::SkipE(i + 1);
    }
    if c == '/' && i + 1 < v.len() && v[i + 1] == '/' {
        let e = line_comment_end_exec(v, i + 2);
        return StepExec::SkipE(e);
    }
    if c == '/' && i + 1 < v.len() && v[i + 1] == '*' {
        match block_comment_end_exec(v, i + 2) {
            Some(n) => {
                return StepExec::SkipE(n);
            },
            None => {
                return StepExec::FailE;
            },
        }
    }
    if c == '@' {
        if i + 1 < v.len() && is_digit_exec(v[i + 1]) {
            let e = digits_end_exec(v, i + 1);
            match digits_to_usize(v, i + 1, e) {
                Some(n) => {
                    return StepExec::TokE(Token::Number(n), e);
                },
                None => {
                    return StepExec::FailE;
                },
            }
        }
        if i + 1 < v.len() && is_ident_start_exec(v[i + 1]) {
            let e = ident_end_exec(v, i + 1);
            let name = chars_to_string(v, i + 1, e);
            return StepExec::TokE(Token::Name(name), e);
        }
        return StepExec::FailE;
    }
    if c == '(' {
        if i + 1 < v.len() && is_ident_start_exec(v[i + 1]) {
            let e = ident_end_exec(v, i + 1);
            if e < v.len() && v[e] == ')' {
                let name = chars_to_string(v, i + 1, e);
                return StepExec::TokE(Token::Labal(name), e + 1);
            }
        }
        return StepExec::FailE;
    }
    match fixed3(v, i) {
        Some(t) => {
            return StepExec::TokE(t, i + 3);
        },
        None => (),
    }
    match fixed2(v, i) {
        Some(t) => {
            return StepExec::TokE(t, i + 2);
        },
        None => (),
    }
    match fixed1(v, i) {
        Some(t) => {
            return StepExec::TokE(t, i + 1);
        },
        None => (),
    }
    StepExec::FailE
}

/// The number of line breaks in `v[from..to]`.
fn count_lines(v: &Vec<char>, from: usize, to: usize) -> (r: usize)
    requires
        from <= to <= v@.len(),
    ensures
        r <= to - from,
{
    let mut n: usize = 0;
    let mut j = from;
    while j < to
        invariant
            from <= j <= to <= v@.len(),
            n <= j - from,
        decreases to - j,
    {
        if v[j] == '\n' {
            n = n + 1;
        }
        j = j + 1;
    }
    n
}

/// `o` with the sequence `p` put in front of its contents.
pub open spec fn opt_prepend(p: Seq<TokenV>, o: Option<Seq<TokenV>>) -> Option<Seq<TokenV>> {
    match o {
        Some(r) => Some(p + r),
        None => None,
    }
}

/// Lexes assembly text into a token stream; fails exactly on text outside
/// the assembly alphabet, with the position of the offence.
pub fn tokenize(code: &str) -> (r: Result<TokenStream<Token>, Error>)
    ensures
        match r {
            Ok(ts) => lex_spec(code@, 0) == Some(toks_view(ts.tokens@)) && ts.wf() && ts.pos
                == 0,
            Err(_) => lex_spec(code@, 0) is None,
        },
{
    let v = to_chars(code);
    let mut tokens: Vec<Token> = Vec::new();
    let mut spans: Vec<Span> = Vec::new();
    let mut i: usize = 0;
    let mut line: usize = 0;
    loop
        invariant
            i <= v@.len(),
            v@ == code@,
            line <= i,
            tokens@.len() == spans@.len(),
            lex_spec(code@, 0) == opt_prepend(toks_view(tokens@), lex_spec(code@, i as int)),
        decreases v@.len() - i,
    {
        match lex_step_exec(&v, i) {
            StepExec::EndE => {
                proof {
                    assert(lex_spec(code@, i as int) == Some(Seq::<TokenV>::empty()));
                    assert(toks_view(tokens@) + Seq::<TokenV>::empty() =~= toks_view(tokens@));
                }
                return Ok(TokenStream::new(tokens, spans));
            },
            StepExec::FailE => {
                return Err(Error::at(line, i, 1, "unrecognized character"));
            },
            StepExec::SkipE(n) => {
                line = line + count_lines(&v, i, n);
                i = n;
            },
            StepExec::TokE(t, n) => {
                let ghost done = toks_view(tokens@);
                let ghost tv = t@;
                tokens.push(t);
                spans.push(Span { line, index: i, len: n - i });
                proof {
                    assert(toks_view(tokens@) =~= done.push(tv));
                    match lex_spec(code@, n as int) {
                        Some(rest) => {
                            assert(lex_spec(code@, i as int) == Some(seq![tv] + rest));
                            assert(done + (seq![tv] + rest) =~= done.push(tv) + rest);
                        },
                        None => {},
                    }
                }
                i = n;
            },
        }
    }
}

// ---------------------------------------------------------------------------
// Two-pass parsing
// ---------------------------------------------------------------------------

/// The token views of a lexed token list.
pub open spec fn toks_view(v: Seq<Token>) -> Seq<TokenV> {
    v.map_values(|t: Token| t@)
}

/// Mid-parse state of the first pass: instructions emitted so far, the
/// symbol table, and the deferred symbolic references.
pub ghost struct P1 {
    pub prog: Seq<CPUInstruction>,
    pub labels: Seq<(Seq<char>, nat)>,
    pub deferred: Seq<(Seq<char>, nat)>,
}

/// The value bound to `k`, looking from the front of the table.
pub open spec fn lookup(m: Seq<(Seq<char>, nat)>, k: Seq<char>) -> Option<nat>
    decreases m.len(),
{
    if m.len() == 0 {
        None
    } else if m[0].0 == k {
        Some(m[0].1)
    } else {
        lookup(m.drop_first(), k)
    }
}

/// The pre-seeded symbol table: `R0`..`R15`, the five pointer names and the
/// two device addresses.
pub open spec fn seeded_symbols() -> Seq<(Seq<char>, nat)> {
    seq![
        ("R0"@, 0nat),
        ("R1"@, 1nat),
        ("R2"@, 2nat),
        ("R3"@, 3nat),
        ("R4"@, 4nat),
        ("R5"@, 5nat),
        ("R6"@, 6nat),
        ("R7"@, 7nat),
        ("R8"@, 8nat),
        ("R9"@, 9nat),
        ("R10"@, 10nat),
        ("R11"@, 11nat),
        ("R12"@, 12nat),
        ("R13"@, 13nat),
        ("R14"@, 14nat),
        ("R15"@, 15nat),
        ("SP"@, 0nat),
        ("LCL"@, 1nat),
        ("ARG"@, 2nat),
        ("THIS"@, 3nat),
        ("THAT"@, 4nat),
        ("SCREEN"@, 16384nat),
        ("KBD"@, 24576nat),
    ]
}

/// The C-instruction laid out at token position `i`, with the position just
/// after it: `[dest=]comp[;jump]`.
pub open spec fn c_instr_at(toks: Seq<TokenV>, i: int) -> Option<(CPUInstruction, int)> {
    let has_dest = i + 1 < toks.len() && toks[i + 1] == TokenV::Eq;
    let dest_opt = if has_dest {
        dest_of_tokenv(toks[i])
    } else {
        Some(Dest::Null)
    };
    let ci = if has_dest {
        i + 2
    } else {
        i
    };
    match dest_opt {
        None => None,
        Some(dest) => if ci >= toks.len() {
            None
        } else {
            match comp_of_tokenv(toks[ci]) {
                None => None,
                Some(comp) => {
                    let ji = ci + 1;
                    if ji < toks.len() && toks[ji] == TokenV::Semic {
                        if ji + 1 < toks.len() {
                            match jump_of_tokenv(toks[ji + 1]) {
                                None => None,
                                Some(j) => Some(
                                    (CPUInstruction::CInstruc(comp, dest, j), ji + 2),
                                ),
                            }
                        } else {
                            None
                        }
                    } else {
                        Some((CPUInstruction::CInstruc(comp, dest, Jump::Null), ji))
                    }
                },
            }
        },
    }
}

/// The first pass from token position `i`: labels are recorded at the
/// current instruction count (a second declaration fails), numeric
/// addresses are emitted at once, and symbolic ones as placeholders on the
/// deferred list.
pub open spec fn pass1(toks: Seq<TokenV>, i: int, st: P1) -> Option<P1>
    decreases toks.len() - i,
    when 0 <= i
{
    if i >= toks.len() {
        Some(st)
    } else {
        match toks[i] {
            TokenV::Labal(name) => if lookup(st.labels, name) is Some {
                None
            } else {
                pass1(
                    toks,
                    i + 1,
                    P1 {
                        prog: st.prog,
                        labels: st.labels.push((name, st.prog.len())),
                        deferred: st.deferred,
                    },
                )
            },
            TokenV::Name(name) => pass1(
                toks,
                i + 1,
                P1 {
                    prog: st.prog.push(CPUInstruction::AInstruc(0)),
                    labels: st.labels,
                    deferred: st.deferred.push((name, st.prog.len())),
                },
            ),
            TokenV::Number(v) => if v > 32767 {
                None
            } else {
                pass1(
                    toks,
                    i + 1,
                    P1 {
                        prog: st.prog.push(CPUInstruction::AInstruc(v as i16)),
                        labels: st.labels,
                        deferred: st.deferred,
                    },
                )
            },
            _ => match c_instr_at(toks, i) {
                None => None,
                Some((instr, n)) => if n <= i {
                    None
                } else {
                    pass1(
                        toks,
                        n,
                        P1 { prog: st.prog.push(instr), labels: st.labels, deferred: st.deferred },
                    )
                },
            },
        }
    }
}

/// The second pass from deferred entry `k`: a known symbol patches its
/// placeholder; an unknown one is allocated the next variable address,
/// starting at 16.  An address above 32767 cannot stand in an
/// A-instruction and fails.
pub open spec fn resolve(
    deferred: Seq<(Seq<char>, nat)>,
    k: int,
    labels: Seq<(Seq<char>, nat)>,
    prog: Seq<CPUInstruction>,
    var_count: nat,
) -> Option<Seq<CPUInstruction>>
    decreases deferred.len() - k,
    when 0 <= k
{
    if k >= deferred.len() {
        Some(prog)
    } else {
        let name = deferred[k].0;
        let line = deferred[k].1;
        match lookup(labels, name) {
            Some(v) => if v > 32767 {
                None
            } else {
                resolve(
                    deferred,
                    k + 1,
                    labels,
                    prog.update(line as int, CPUInstruction::AInstruc(v as i16)),
                    var_count,
                )
            },
            None => if var_count > 32767 {
                None
            } else {
                resolve(
                    deferred,
                    k + 1,
                    labels.push((name, var_count)),
                    prog.update(line as int, CPUInstruction::AInstruc(var_count as i16)),
                    var_count + 1,
                )
            },
        }
    }
}

/// What `parse` returns on a given text: lexing, the streaming first pass
/// over the tokens, and the resolution pass over the deferred references.
pub open spec fn parse_spec(s: Seq<char>) -> Option<Seq<CPUInstruction>> {
    match lex_spec(s, 0) {
        None => None,
        Some(toks) => match pass1(
            toks,
            0,
            P1 { prog: Seq::empty(), labels: seeded_symbols(), deferred: Seq::empty() },
        ) {
            None => None,
            Some(st) => resolve(st.deferred, 0, st.labels, st.prog, 16),
        },
    }
}

/// The view of an executable symbol table.
pub open spec fn table_view(v: Seq<(String, usize)>) -> Seq<(Seq<char>, nat)> {
    v.map_values(|p: (String, usize)| (p.0@, p.1 as nat))
}

/// A table lookup skips any prefix it does not match in.
proof fn lemma_lookup_from(m: Seq<(Seq<char>, nat)>, k: Seq<char>, j: int)
    requires
        0 <= j <= m.len(),
        forall|t: int| 0 <= t < j ==> (#[trigger] m[t]).0 != k,
    ensures
        lookup(m, k) == lookup(m.skip(j), k),
    decreases j,
{
    if j > 0 {
        assert(m[0].0 != k);
        lemma_lookup_from(m.drop_first(), k, j - 1);
        assert(m.drop_first().skip(j - 1) =~= m.skip(j));
    } else {
        assert(m.skip(0) =~= m);
    }
}

/// Looks a name up in the symbol table, front entries first.
pub fn lookup_exec(m: &Vec<(String, usize)>, k: &String) -> (r: Option<usize>)
    ensures
        match r {
            Some(n) => lookup(table_view(m@), k@) == Some(n as nat),
            None => lookup(table_view(m@), k@) is None,
        },
{
    let ghost mv = table_view(m@);
    let mut j: usize = 0;
    while j < m.len()
        invariant
            j <= m@.len(),
            mv == table_view(m@),
            mv.len() == m@.len(),
            forall|t: int| 0 <= t < j ==> (#[trigger] mv[t]).0 != k@,
        decreases m@.len() - j,
    {
        if m[j].0 == *k {
            proof {
                lemma_lookup_from(mv, k@, j as int);
                assert(mv.skip(j as int)[0] == mv[j as int]);
                assert(lookup(mv.skip(j as int), k@) == Some(mv[j as int].1));
            }
            return Some(m[j].1);
        }
        proof {
            assert(mv[j as int].0 == m@[j as int].0@);
        }
        j = j + 1;
    }
    proof {
        lemma_lookup_from(mv, k@, j as int);
        assert(mv.skip(j as int) =~= Seq::empty());
    }
    None
}

/// The pre-seeded table as a value.
fn seed_table() -> (r: Vec<(String, usize)>)
    ensures
        table_view(r@) == seeded_symbols(),
{
    let mut t: Vec<(String, usize)> = Vec::new();
    t.push((String::from_str("R0"), 0));
    t.push((String::from_str("R1"), 1));
    t.push((String::from_str("R2"), 2));
    t.push((String::from_str("R3"), 3));
    t.push((String::from_str("R4"), 4));
    t.push((String::from_str("R5"), 5));
    t.push((String::from_str("R6"), 6));
    t.push((String::from_str("R7"), 7));
    t.push((String::from_str("R8"), 8));
    t.push((String::from_str("R9"), 9));
    t.push((String::from_str("R10"), 10));
    t.push((String::from_str("R11"), 11));
    t.push((String::from_str("R12"), 12));
    t.push((String::from_str("R13"), 13));
    t.push((String::from_str("R14"), 14));
    t.push((String::from_str("R15"), 15));
    t.push((String::from_str("SP"), 0));
    t.push((String::from_str("LCL"), 1));
    t.push((String::from_str("ARG"), 2));
    t.push((String::from_str("THIS"), 3));
    t.push((String::from_str("THAT"), 4));
    t.push((String::from_str("SCREEN"), 16384));
    t.push((String::from_str("KBD"), 24576));
    proof {
        assert(table_view(t@) =~~= seeded_symbols());
    }
    t
}


/// The report a second declaration of a label fails with: the offending
/// token's span, and the address the name was already set to, in decimal.
fn duplicate_label_error(span: Span, prior: usize) -> (r: Error)
    ensures
        r.msg@ == "the label has already been set to "@ + dec_digits(prior as nat),
        r.line == Some(span.line),
        r.index == Some(span.index),
        r.len == Some(span.len),
{
    let mut msg = String::from_str("the label has already been set to ");
    let tail = crate::text::usize_to_string(prior);
    msg.append(tail.as_str());
    Error { line: Some(span.line), index: Some(span.index), len: Some(span.len), msg }
}

/// Whether the token is the `=` of a destination clause.
fn is_eq_token(t: &Token) -> (r: bool)
    ensures
        r == (t@ == TokenV::Eq),
{
    match t {
        Token::Eq => true,
        _ => false,
    }
}

/// Whether the token is the `;` of a jump clause.
fn is_semic_token(t: &Token) -> (r: bool)
    ensures
        r == (t@ == TokenV::Semic),
{
    match t {
        Token::Semic => true,
        _ => false,
    }
}

/// Reads the C-instruction at token position `i`.
fn c_instr_exec(toks: &Vec<Token>, spans: &Vec<Span>, i: usize) -> (r: Result<
    (CPUInstruction, usize),
    Error,
>)
    requires
        i < toks@.len(),
        spans@.len() == toks@.len(),
    ensures
        match r {
            Ok((instr, n)) => c_instr_at(toks_view(toks@), i as int) == Some(
                (instr, n as int),
            ) && i < n <= toks@.len(),
            Err(_) => c_instr_at(toks_view(toks@), i as int) is None,
        },
{
    let ghost tv = toks_view(toks@);
    let n_toks = toks.len();
    let has_dest = i + 1 < n_toks && is_eq_token(&toks[i + 1]);
    proof {
        assert(has_dest == (i + 1 < tv.len() && tv[i + 1 as int] == TokenV::Eq));
    }
    let dest;
    let ci;
    if has_dest {
        match dest_of_token(&toks[i]) {
            Some(d) => {
                dest = d;
                ci = i + 2;
            },
            None => {
                return Err(Error::at_span(spans[i], "expected a destination before ="));
            },
        }
    } else {
        dest = Dest::Null;
        ci = i;
    }
    if ci >= toks.len() {
        return Err(Error::at_span(spans[toks.len() - 1], "expected a computation"));
    }
    let comp = match comp_of_token(&toks[ci]) {
        Some(c) => c,
        None => {
            return Err(Error::at_span(spans[ci], "expected a computation"));
        },
    };
    let ji = ci + 1;
    if ji < toks.len() && is_semic_token(&toks[ji]) {
        if ji + 1 >= toks.len() {
            return Err(Error::at_span(spans[ji], "expected a jump after the semicolon"));
        }
        match jump_of_token(&toks[ji + 1]) {
            Some(j) => Ok((CPUInstruction::CInstruc(comp, dest, j), ji + 2)),
            None => Err(Error::at_span(spans[ji + 1], "expected a jump after the semicolon")),
        }
    } else {
        Ok((CPUInstruction::CInstruc(comp, dest, Jump::Null), ji))
    }
}

/// Parses assembly text into the instruction list, resolving labels and
/// allocating variables from address 16 in first-reference order.  The
/// result is a function of the text alone; parsing the same text twice
/// gives the same list.
#[verifier::loop_isolation(false)]
pub fn parse(code: &str) -> (r: Result<Vec<CPUInstruction>, Error>)
    ensures
        match r {
            Ok(prog) => parse_spec(code@) == Some(prog@),
            Err(_) => parse_spec(code@) is None,
        },
{
    let ts = match tokenize(code) {
        Ok(ts) => ts,
        Err(e) => {
            return Err(e);
        },
    };
    let toks = ts.tokens;
    let spans = ts.spans;
    let ghost tv = toks_view(toks@);
    proof {
        assert(lex_spec(code@, 0) == Some(tv));
    }
    let ghost init = P1 { prog: Seq::empty(), labels: seeded_symbols(), deferred: Seq::empty() };
    let mut prog: Vec<CPUInstruction> = Vec::new();
    let mut labels: Vec<(String, usize)> = seed_table();
    let mut deferred: Vec<(String, usize)> = Vec::new();
    let mut i: usize = 0;
    proof {
        assert(table_view(deferred@) =~= Seq::<(Seq<char>, nat)>::empty());
        assert(prog@ =~= Seq::<CPUInstruction>::empty());
    }
    while i < toks.len()
        invariant
            i <= toks@.len(),
            tv == toks_view(toks@),
            spans@.len() == toks@.len(),
            pass1(tv, 0, init) == pass1(
                tv,
                i as int,
                P1 { prog: prog@, labels: table_view(labels@), deferred: table_view(deferred@) },
            ),
            forall|t: int|
                0 <= t < deferred@.len() ==> (#[trigger] deferred@[t]).1 < prog@.len(),
        decreases toks@.len() - i,
    {
        let ghost st = P1 {
            prog: prog@,
            labels: table_view(labels@),
            deferred: table_view(deferred@),
        };
        proof {
            assert(tv[i as int] == toks@[i as int]@);
        }
        match &toks[i] {
            Token::Labal(name) => {
                match lookup_exec(&labels, name) {
                    Some(_) => {
                        proof {
                            assert(tv[i as int] == TokenV::Labal(name@));
                            assert(pass1(tv, i as int, st) == None::<P1>);
                            assert(pass1(tv, 0, init) == None::<P1>);
                        }
                        return Err(Error::at_span(spans[i], "the label has already been set"));
                    },
                    None => {
                        let owned = name.clone();
                        labels.push((owned, prog.len()));
                        proof {
                            assert(tv[i as int] == TokenV::Labal(name@));
                            assert(table_view(labels@) =~~= st.labels.push(
                                (name@, st.prog.len()),
                            ));
                            assert(pass1(tv, i as int, st) == pass1(
                                tv,
                                i + 1,
                                P1 {
                                    prog: prog@,
                                    labels: table_view(labels@),
                                    deferred: table_view(deferred@),
                                },
                            ));
                        }
                        i = i + 1;
                    },
                }
            },
            Token::Name(name) => {
                let owned = name.clone();
                deferred.push((owned, prog.len()));
                prog.push(CPUInstruction::AInstruc(0));
                proof {
                    assert(tv[i as int] == TokenV::Name(name@));
                    assert(table_view(deferred@) =~~= st.deferred.push((name@, st.prog.len())));
                    assert(prog@ =~= st.prog.push(CPUInstruction::AInstruc(0)));
                    assert(pass1(tv, i as int, st) == pass1(
                        tv,
                        i + 1,
                        P1 {
                            prog: prog@,
                            labels: table_view(labels@),
                            deferred: table_view(deferred@),
                        },
                    ));
                }
                i = i + 1;
            },
            Token::Number(v) => {
                proof {
                    assert(tv[i as int] == TokenV::Number(*v as nat));
                }
                if *v > 32767 {
                    proof {
                        assert(pass1(tv, i as int, st) == None::<P1>);
                    }
                    return Err(Error::at_span(spans[i], "address out of range"));
                }
                prog.push(CPUInstruction::AInstruc(*v as i16));
                proof {
                    assert(pass1(tv, i as int, st) == pass1(
                        tv,
                        i + 1,
                        P1 {
                            prog: prog@,
                            labels: table_view(labels@),
                            deferred: table_view(deferred@),
                        },
                    ));
                }
                i = i + 1;
            },
            _ => {
                proof {
                    assert(!(tv[i as int] is Labal) && !(tv[i as int] is Name) && !(tv[
                        i as int
                    ] is Number));
                }
                match c_instr_exec(&toks, &spans, i) {
                    Ok((instr, n)) => {
                        prog.push(instr);
                        proof {
                            assert(pass1(tv, i as int, st) == pass1(
                                tv,
                                n as int,
                                P1 {
                                    prog: prog@,
                                    labels: table_view(labels@),
                                    deferred: table_view(deferred@),
                                },
                            ));
                        }
                        i = n;
                    },
                    Err(e) => {
                        proof {
                            assert(pass1(tv, i as int, st) == None::<P1>);
                        }
                        return Err(e);
                    },
                }
            },
        }
    }
    let ghost st_end = P1 {
        prog: prog@,
        labels: table_view(labels@),
        deferred: table_view(deferred@),
    };
    proof {
        assert(pass1(tv, 0, init) == Some(st_end));
    }
    // Resolution pass.
    let ghost dv = table_view(deferred@);
    let ghost labels0 = table_view(labels@);
    let ghost asm0 = prog@;
    let mut var_count: usize = 16;
    let mut k: usize = 0;
    while k < deferred.len()
        invariant
            k <= deferred@.len(),
            dv == table_view(deferred@),
            dv.len() == deferred@.len(),
            prog@.len() == asm0.len(),
            forall|t: int|
                0 <= t < deferred@.len() ==> (#[trigger] deferred@[t]).1 < prog@.len(),
            resolve(dv, 0, labels0, asm0, 16) == resolve(
                dv,
                k as int,
                table_view(labels@),
                prog@,
                var_count as nat,
            ),
        decreases deferred@.len() - k,
    {
        let ghost lv = table_view(labels@);
        proof {
            assert(dv[k as int] == (deferred@[k as int].0@, deferred@[k as int].1 as nat));
        }
        let line = deferred[k].1;
        let found = {
            let name_ref = &deferred[k].0;
            lookup_exec(&labels, name_ref)
        };
        match found {
            Some(v) => {
                if v > 32767 {
                    proof {
                        assert(resolve(dv, k as int, lv, prog@, var_count as nat)
                            == None::<Seq<CPUInstruction>>);
                    }
                    return Err(Error::eof("a label address is out of range"));
                }
                let ghost prog_before = prog@;
                prog.set(line, CPUInstruction::AInstruc(v as i16));
                proof {
                    assert(prog@ =~= prog_before.update(
                        deferred@[k as int].1 as int,
                        CPUInstruction::AInstruc(v as i16),
                    ));
                    assert(resolve(dv, k as int, lv, prog_before, var_count as nat) == resolve(
                        dv,
                        k + 1,
                        table_view(labels@),
                        prog@,
                        var_count as nat,
                    ));
                }
            },
            None => {
                if var_count > 32767 {
                    proof {
                        assert(resolve(dv, k as int, lv, prog@, var_count as nat)
                            == None::<Seq<CPUInstruction>>);
                    }
                    return Err(Error::eof("out of variable addresses"));
                }
                let owned = {
                    let name_ref = &deferred[k].0;
                    name_ref.clone()
                };
                let ghost prog_before = prog@;
                labels.push((owned, var_count));
                prog.set(line, CPUInstruction::AInstruc(var_count as i16));
                proof {
                    assert(table_view(labels@) =~~= lv.push(
                        (deferred@[k as int].0@, var_count as nat),
                    ));
                    assert(prog@ =~= prog_before.update(
                        deferred@[k as int].1 as int,
                        CPUInstruction::AInstruc(var_count as i16),
                    ));
                    assert(resolve(dv, k as int, lv, prog_before, var_count as nat) == resolve(
                        dv,
                        k + 1,
                        table_view(labels@),
                        prog@,
                        (var_count + 1) as nat,
                    ));
                }
                var_count = var_count + 1;
            },
        }
        k = k + 1;
    }
    proof {
        assert(resolve(dv, 0, labels0, asm0, 16) == Some(prog@));
    }
    Ok(prog)
}

/// Parsing is deterministic: the instruction list, and with it every
/// variable address, is a function of the source text alone.
pub proof fn lemma_symbol_determinism(s1: Seq<char>, s2: Seq<char>)
    requires
        s1 == s2,
    ensures
        parse_spec(s1) == parse_spec(s2),
{
}

// ---------------------------------------------------------------------------
// Machine-code codec
// ---------------------------------------------------------------------------

/// Encodes one instruction into its machine word.
pub fn encode_exec(instr: &CPUInstruction) -> (w: u16)
    ensures
        w == encode_spec(*instr),
{
    match instr {
        CPUInstruction::AInstruc(v) => (#[verifier::truncate] (*v as u16)) % 0x8000,
        CPUInstruction::CInstruc(c, d, j) => {
            proof {
                crate::cpu::lemma_comp_code_bound(*c);
                crate::cpu::lemma_dest_roundtrip(*d);
                crate::cpu::lemma_jump_roundtrip(*j);
            }
            0xE000u16 + (comp_code(*c) as u16) * 64 + (dest_code(*d) as u16) * 8 + (jump_code(*j)
                as u16)
        },
    }
}

/// Decodes one machine word, failing on an invalid `comp` pattern.
pub fn decode_exec(w: u16) -> (r: Option<CPUInstruction>)
    ensures
        r == decode_spec(w),
{
    if w < 0x8000 {
        Some(CPUInstruction::AInstruc(w as i16))
    } else {
        match comp_from_code(((w / 64) % 128) as u8) {
            Some(c) => Some(
                CPUInstruction::CInstruc(
                    c,
                    dest_from_code(((w / 8) % 8) as u8),
                    jump_from_code((w % 8) as u8),
                ),
            ),
            None => None,
        }
    }
}

/// The words of an instruction list, one per instruction.
pub open spec fn asm2ml_spec(prog: Seq<CPUInstruction>) -> Seq<u16> {
    prog.map_values(|i: CPUInstruction| encode_spec(i))
}

/// Assembles an instruction list into machine words: an A-instruction keeps
/// its low 15 bits, a C-instruction packs `111 a cccccc ddd jjj`.
pub fn asm2ml(prog: Vec<CPUInstruction>) -> (r: Vec<u16>)
    ensures
        r@ == asm2ml_spec(prog@),
{
    let mut ml: Vec<u16> = Vec::new();
    let mut i: usize = 0;
    while i < prog.len()
        invariant
            i <= prog@.len(),
            ml@ =~= asm2ml_spec(prog@.subrange(0, i as int)),
        decreases prog@.len() - i,
    {
        ml.push(encode_exec(&prog[i]));
        i = i + 1;
        proof {
            assert(prog@.subrange(0, i as int).drop_last() =~= prog@.subrange(0, i - 1));
            assert(ml@ =~= asm2ml_spec(prog@.subrange(0, i as int)));
        }
    }
    proof {
        assert(prog@.subrange(0, i as int) =~= prog@);
    }
    ml
}

/// The instruction list named by a word list, or `None` as soon as one word
/// holds an invalid `comp` pattern.
pub open spec fn ml2asm_spec(ml: Seq<u16>) -> Option<Seq<CPUInstruction>> {
    if forall|k: int| 0 <= k < ml.len() ==> (#[trigger] decode_spec(ml[k])) is Some {
        Some(Seq::new(ml.len(), |k: int| decode_spec(ml[k])->Some_0))
    } else {
        None
    }
}

/// Disassembles machine words back into instructions; an unrecognized
/// 7-bit `comp` pattern is the one decode error.
pub fn ml2asm(ml: Vec<u16>) -> (r: Result<Vec<CPUInstruction>, String>)
    ensures
        match r {
            Ok(prog) => ml2asm_spec(ml@) == Some(prog@),
            Err(_) => ml2asm_spec(ml@) is None,
        },
{
    let mut prog: Vec<CPUInstruction> = Vec::new();
    let mut i: usize = 0;
    while i < ml.len()
        invariant
            i <= ml@.len(),
            prog@.len() == i,
            forall|k: int| 0 <= k < i ==> (#[trigger] decode_spec(ml@[k])) is Some,
            forall|k: int| 0 <= k < i ==> prog@[k] == decode_spec(ml@[k])->Some_0,
        decreases ml@.len() - i,
    {
        match decode_exec(ml[i]) {
            Some(instr) => {
                prog.push(instr);
            },
            None => {
                return Err(String::from_str("a comp bit pattern is not one of the 28 codes"));
            },
        }
        i = i + 1;
    }
    proof {
        assert(Seq::new(ml@.len(), |k: int| decode_spec(ml@[k])->Some_0) =~= prog@);
    }
    Ok(prog)
}

/// Round trip one way: disassembling an assembled list returns it, as long
/// as no A-instruction carries a negative immediate.
pub proof fn lemma_asm_ml_roundtrip(prog: Seq<CPUInstruction>)
    requires
        forall|k: int| 0 <= k < prog.len() ==> crate::cpu::encodable(#[trigger] prog[k]),
    ensures
        ml2asm_spec(asm2ml_spec(prog)) == Some(prog),
{
    let ml = asm2ml_spec(prog);
    assert forall|k: int| 0 <= k < ml.len() implies (#[trigger] decode_spec(ml[k])) is Some by {
        crate::cpu::lemma_decode_encode(prog[k]);
    }
    assert forall|k: int|
        0 <= k < ml.len() implies decode_spec(ml[k])->Some_0 == prog[k] by {
        crate::cpu::lemma_decode_encode(prog[k]);
    }
    assert(Seq::new(ml.len(), |k: int| decode_spec(ml[k])->Some_0) =~= prog);
}

/// Round trip the other way: assembling a disassembled word list returns
/// it, as long as every word follows the ISA layout.
pub proof fn lemma_ml_asm_roundtrip(ml: Seq<u16>)
    requires
        forall|k: int| 0 <= k < ml.len() ==> crate::cpu::well_formed_word(#[trigger] ml[k]),
    ensures
        ml2asm_spec(ml) is Some,
        asm2ml_spec(ml2asm_spec(ml)->Some_0) == ml,
{
    assert forall|k: int| 0 <= k < ml.len() implies (#[trigger] decode_spec(ml[k])) is Some by {
        crate::cpu::lemma_encode_decode(ml[k]);
    }
    let prog = ml2asm_spec(ml)->Some_0;
    assert forall|k: int|
        0 <= k < ml.len() implies encode_spec(#[trigger] prog[k]) == ml[k] by {
        crate::cpu::lemma_encode_decode(ml[k]);
    }
    assert(asm2ml_spec(prog) =~= ml);
}

// ---------------------------------------------------------------------------
// Binary text
// ---------------------------------------------------------------------------

/// The value of a bit sequence, most significant bit first.
pub open spec fn bits_val(bs: Seq<bool>) -> nat
    decreases bs.len(),
{
    if bs.len() == 0 {
        0
    } else {
        bits_val(bs.drop_last()) * 2 + if bs.last() {
            1nat
        } else {
            0nat
        }
    }
}

/// Powers of two.
pub open spec fn pow2n(n: nat) -> nat
    decreases n,
{
    if n == 0 {
        1
    } else {
        2 * pow2n((n - 1) as nat)
    }
}

/// A bit sequence's value stays under two to its length.
pub proof fn lemma_bits_val_bound(bs: Seq<bool>)
    ensures
        bits_val(bs) < pow2n(bs.len()),
    decreases bs.len(),
{
    if bs.len() > 0 {
        lemma_bits_val_bound(bs.drop_last());
    }
}

/// Why a machine-code text fails, with the index of the offending line.
pub ghost enum MlFault {
    BadChar(nat),
    BadLength(nat),
    BadBreak(nat),
}

/// The message a machine-code reading fault is reported with: its kind,
/// with the line index in decimal.
pub open spec fn ml_fault_msg(e: MlFault) -> Seq<char> {
    match e {
        MlFault::BadChar(l) => "unexpected character in line "@ + dec_digits(l),
        MlFault::BadLength(l) => "unexpected line length in line "@ + dec_digits(l),
        MlFault::BadBreak(l) => "unexpected carriage return in line "@ + dec_digits(l),
    }
}

/// Machine-code text from position `i` on, with `line` line breaks already
/// behind: spaces and tabs vanish, a line must hold exactly sixteen
/// `0`/`1` characters or nothing, and each full line becomes one word,
/// most significant bit first.
pub open spec fn str2ml_from(
    s: Seq<char>,
    i: int,
    cur: Seq<bool>,
    acc: Seq<u16>,
    line: nat,
) -> Result<Seq<u16>, MlFault>
    decreases s.len() - i,
    when 0 <= i
{
    if i >= s.len() {
        if cur.len() == 0 {
            Ok(acc)
        } else if cur.len() == 16 {
            Ok(acc.push(bits_val(cur) as u16))
        } else {
            Err(MlFault::BadLength(line))
        }
    } else {
        let c = s[i];
        if c == ' ' || c == '\t' {
            str2ml_from(s, i + 1, cur, acc, line)
        } else if c == '\r' {
            if i + 1 < s.len() && s[i + 1] == '\n' {
                str2ml_from(s, i + 1, cur, acc, line)
            } else {
                Err(MlFault::BadBreak(line))
            }
        } else if c == '\n' {
            if cur.len() == 0 {
                str2ml_from(s, i + 1, cur, acc, line + 1)
            } else if cur.len() == 16 {
                str2ml_from(s, i + 1, Seq::empty(), acc.push(bits_val(cur) as u16), line + 1)
            } else {
                Err(MlFault::BadLength(line))
            }
        } else if c == '0' {
            str2ml_from(s, i + 1, cur.push(false), acc, line)
        } else if c == '1' {
            str2ml_from(s, i + 1, cur.push(true), acc, line)
        } else {
            Err(MlFault::BadChar(line))
        }
    }
}

/// What `str2ml` returns on a text.
pub open spec fn str2ml_spec(s: Seq<char>) -> Result<Seq<u16>, MlFault> {
    str2ml_from(s, 0, Seq::empty(), Seq::empty(), 0)
}

/// The word named by a full line of sixteen bits.
fn word_of_bits(cur: &Vec<bool>) -> (w: u16)
    requires
        cur@.len() == 16,
    ensures
        w as nat == bits_val(cur@),
{
    let mut w: u16 = 0;
    let mut j: usize = 0;
    while j < 16
        invariant
            j <= 16,
            cur@.len() == 16,
            w as nat == bits_val(cur@.subrange(0, j as int)),
        decreases 16 - j,
    {
        proof {
            lemma_bits_val_bound(cur@.subrange(0, j as int));
            lemma_pow2n_16();
            assert(pow2n(cur@.subrange(0, j as int).len()) <= pow2n(15)) by {
                lemma_pow2n_le(cur@.subrange(0, j as int).len(), 15);
            }
            assert(cur@.subrange(0, j + 1).drop_last() =~= cur@.subrange(0, j as int));
        }
        w = w * 2 + if cur[j] {
            1
        } else {
            0
        };
        j = j + 1;
    }
    proof {
        assert(cur@.subrange(0, 16) =~= cur@);
    }
    w
}


/// Small powers of two, written out.
proof fn lemma_pow2n_16()
    ensures
        pow2n(15) == 32768,
        pow2n(16) == 65536,
{
    reveal_with_fuel(pow2n, 17);
}

/// `pow2n` is monotone.
proof fn lemma_pow2n_le(a: nat, b: nat)
    requires
        a <= b,
    ensures
        pow2n(a) <= pow2n(b),
    decreases b,
{
    if a < b {
        lemma_pow2n_le(a, (b - 1) as nat);
    }
}

/// Reads `.hack` machine-code text: one word per line, sixteen `0`/`1`
/// characters, most significant bit first; blank lines, spaces and tabs are
/// ignored.  Any other character, or a line of the wrong length, fails with
/// the line index in the message.
#[verifier::loop_isolation(false)]
pub fn str2ml(hack: &str) -> (r: Result<Vec<u16>, String>)
    ensures
        match r {
            Ok(ml) => str2ml_spec(hack@) == Ok::<Seq<u16>, MlFault>(ml@),
            Err(m) => str2ml_spec(hack@) is Err && m@ == ml_fault_msg(
                str2ml_spec(hack@)->Err_0,
            ),
        },
{
    let v = to_chars(hack);
    let mut cur: Vec<bool> = Vec::new();
    let mut acc: Vec<u16> = Vec::new();
    let mut line: usize = 0;
    let mut i: usize = 0;
    while i < v.len()
        invariant
            i <= v@.len(),
            line <= i,
            str2ml_spec(hack@) == str2ml_from(hack@, i as int, cur@, acc@, line as nat),
        decreases v@.len() - i,
    {
        let c = v[i];
        if c == ' ' || c == '\t' {
            i = i + 1;
        } else if c == '\r' {
            if i + 1 < v.len() && v[i + 1] == '\n' {
                i = i + 1;
            } else {
                proof {
                    assert(str2ml_spec(hack@) == Err::<Seq<u16>, MlFault>(
                        MlFault::BadBreak(line as nat),
                    ));
                }
                return Err(str2ml_error("unexpected carriage return in line ", line));
            }
        } else if c == '\n' {
            if cur.len() == 0 {
                line = line + 1;
                i = i + 1;
            } else if cur.len() == 16 {
                let w = word_of_bits(&cur);
                proof {
                    lemma_bits_val_bound(cur@);
                    lemma_pow2n_16();
                    assert(bits_val(cur@) as u16 == w);
                }
                acc.push(w);
                cur = Vec::new();
                proof {
                    assert(cur@ =~= Seq::<bool>::empty());
                }
                line = line + 1;
                i = i + 1;
            } else {
                proof {
                    assert(str2ml_spec(hack@) == Err::<Seq<u16>, MlFault>(
                        MlFault::BadLength(line as nat),
                    ));
                }
                return Err(str2ml_error("unexpected line length in line ", line));
            }
        } else if c == '0' {
            cur.push(false);
            i = i + 1;
        } else if c == '1' {
            cur.push(true);
            i = i + 1;
        } else {
            proof {
                assert(str2ml_spec(hack@) == Err::<Seq<u16>, MlFault>(
                    MlFault::BadChar(line as nat),
                ));
            }
            return Err(str2ml_error("unexpected character in line ", line));
        }
    }
    if cur.len() == 0 {
        Ok(acc)
    } else if cur.len() == 16 {
        let w = word_of_bits(&cur);
        proof {
            lemma_bits_val_bound(cur@);
            lemma_pow2n_16();
            assert(bits_val(cur@) as u16 == w);
        }
        acc.push(w);
        Ok(acc)
    } else {
        proof {
            assert(str2ml_spec(hack@) == Err::<Seq<u16>, MlFault>(
                MlFault::BadLength(line as nat),
            ));
        }
        Err(str2ml_error("unexpected line length in line ", line))
    }
}

/// A codec error message: the given text with the line index in decimal.
fn str2ml_error(msg: &str, line: usize) -> (r: String)
    ensures
        r@ == msg@ + dec_digits(line as nat),
{
    let mut s = String::from_str(msg);
    let tail = crate::text::usize_to_string(line);
    s.append(tail.as_str());
    s
}

} // verus!
