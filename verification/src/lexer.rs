//! The VM-language lexer and the lexing error type shared by the token
//! streams and parsers.

use crate::text::{
    block_comment_end, block_comment_end_exec, chars_to_string, digits_end, digits_end_exec,
    digits_to_usize, digits_val, is_digit, is_digit_exec, line_comment_end,
    line_comment_end_exec, to_chars,
};
use crate::token_stream::{Span, TokenKind, TokenStream};
use vstd::prelude::*;

verus! {

/// A lexing or parsing failure: an optional source position and a message.
#[derive(Debug, Clone, PartialEq, Eq)]
pub struct Error {
    pub line: Option<usize>,
    pub index: Option<usize>,
    pub len: Option<usize>,
    pub msg: String,
}

impl Error {
    /// An error at a known source span.
    pub fn at_span(span: Span, msg: &str) -> (r: Error)
        ensures
            r.line == Some(span.line),
            r.index == Some(span.index),
            r.len == Some(span.len),
            r.msg@ == msg@,
    {
        Error {
            line: Some(span.line),
            index: Some(span.index),
            len: Some(span.len),
            msg: String::from_str(msg),
        }
    }

    /// An error at a known line and character offset.
    pub fn at(line: usize, index: usize, len: usize, msg: &str) -> (r: Error)
        ensures
            r.line == Some(line),
            r.index == Some(index),
            r.len == Some(len),
            r.msg@ == msg@,
    {
        Error {
            line: Some(line),
            index: Some(index),
            len: Some(len),
            msg: String::from_str(msg),
        }
    }

    /// An error with no position, as at an unexpected end of input.
    pub fn eof(msg: &str) -> (r: Error)
        ensures
            r.line is None,
            r.index is None,
            r.len is None,
            r.msg@ == msg@,
    {
        Error { line: None, index: None, len: None, msg: String::from_str(msg) }
    }
}

/// One lexical element of VM text.
#[derive(Debug, Clone, PartialEq, Eq)]
pub enum Token {
    Push,
    Pop,
    Add,
    Sub,
    Neg,
    Eq,
    Gt,
    Lt,
    And,
    Or,
    Not,
    Label,
    Goto,
    Function,
    Call,
    Return,
    This,
    That,
    Local,
    Argument,
    Static,
    Pointer,
    Temp,
    Constant,
    IfGoto,
    Minus,
    Name(String),
    Number(usize),
}

/// The mathematical reading of a VM token.
pub ghost enum TokenV {
    Push,
    Pop,
    Add,
    Sub,
    Neg,
    Eq,
    Gt,
    Lt,
    And,
    Or,
    Not,
    Label,
    Goto,
    Function,
    Call,
    Return,
    This,
    That,
    Local,
    Argument,
    Static,
    Pointer,
    Temp,
    Constant,
    IfGoto,
    Minus,
    Name(Seq<char>),
    Number(nat),
}

impl View for Token {
    type V = TokenV;

    open spec fn view(&self) -> TokenV {
        match self {
            Token::Push => TokenV::Push,
            Token::Pop => TokenV::Pop,
            Token::Add => TokenV::Add,
            Token::Sub => TokenV::Sub,
            Token::Neg => TokenV::Neg,
            Token::Eq => TokenV::Eq,
            Token::Gt => TokenV::Gt,
            Token::Lt => TokenV::Lt,
            Token::And => TokenV::And,
            Token::Or => TokenV::Or,
            Token::Not => TokenV::Not,
            Token::Label => TokenV::Label,
            Token::Goto => TokenV::Goto,
            Token::Function => TokenV::Function,
            Token::Call => TokenV::Call,
            Token::Return => TokenV::Return,
            Token::This => TokenV::This,
            Token::That => TokenV::That,
            Token::Local => TokenV::Local,
            Token::Argument => TokenV::Argument,
            Token::Static => TokenV::Static,
            Token::Pointer => TokenV::Pointer,
            Token::Temp => TokenV::Temp,
            Token::Constant => TokenV::Constant,
            Token::IfGoto => TokenV::IfGoto,
            Token::Minus => TokenV::Minus,
            Token::Name(s) => TokenV::Name(s@),
            Token::Number(n) => TokenV::Number(*n as nat),
        }
    }
}

/// A numeric tag for each token variant, payloads ignored.
pub open spec fn vm_kind_id_spec(t: TokenV) -> int {
    match t {
        TokenV::Push => 0,
        TokenV::Pop => 1,
        TokenV::Add => 2,
        TokenV::Sub => 3,
        TokenV::Neg => 4,
        TokenV::Eq => 5,
        TokenV::Gt => 6,
        TokenV::Lt => 7,
        TokenV::And => 8,
        TokenV::Or => 9,
        TokenV::Not => 10,
        TokenV::Label => 11,
        TokenV::Goto => 12,
        TokenV::Function => 13,
        TokenV::Call => 14,
        TokenV::Return => 15,
        TokenV::This => 16,
        TokenV::That => 17,
        TokenV::Local => 18,
        TokenV::Argument => 19,
        TokenV::Static => 20,
        TokenV::Pointer => 21,
        TokenV::Temp => 22,
        TokenV::Constant => 23,
        TokenV::IfGoto => 24,
        TokenV::Minus => 25,
        TokenV::Name(_) => 26,
        TokenV::Number(_) => 27,
    }
}

fn vm_kind_id(t: &Token) -> (r: usize)
    ensures
        r == vm_kind_id_spec(t@),
{
    match t {
        Token::Push => 0,
        Token::Pop => 1,
        Token::Add => 2,
        Token::Sub => 3,
        Token::Neg => 4,
        Token::Eq => 5,
        Token::Gt => 6,
        Token::Lt => 7,
        Token::And => 8,
        Token::Or => 9,
        Token::Not => 10,
        Token::Label => 11,
        Token::Goto => 12,
        Token::Function => 13,
        Token::Call => 14,
        Token::Return => 15,
        Token::This => 16,
        Token::That => 17,
        Token::Local => 18,
        Token::Argument => 19,
        Token::Static => 20,
        Token::Pointer => 21,
        Token::Temp => 22,
        Token::Constant => 23,
        Token::IfGoto => 24,
        Token::Minus => 25,
        Token::Name(_) => 26,
        Token::Number(_) => 27,
    }
}

impl TokenKind for Token {
    open spec fn kind_eq_spec(&self, other: &Self) -> bool {
        vm_kind_id_spec(self@) == vm_kind_id_spec(other@)
    }

    fn eq_type(&self, other: &Self) -> (r: bool)
        ensures
            r == self.kind_eq_spec(other),
    {
        vm_kind_id(self) == vm_kind_id(other)
    }

    fn dup(&self) -> (r: Self)
        ensures
            r == *self,
    {
        match self {
            Token::Push => Token::Push,
            Token::Pop => Token::Pop,
            Token::Add => Token::Add,
            Token::Sub => Token::Sub,
            Token::Neg => Token::Neg,
            Token::Eq => Token::Eq,
            Token::Gt => Token::Gt,
            Token::Lt => Token::Lt,
            Token::And => Token::And,
            Token::Or => Token::Or,
            Token::Not => Token::Not,
            Token::Label => Token::Label,
            Token::Goto => Token::Goto,
            Token::Function => Token::Function,
            Token::Call => Token::Call,
            Token::Return => Token::Return,
            Token::This => Token::This,
            Token::That => Token::That,
            Token::Local => Token::Local,
            Token::Argument => Token::Argument,
            Token::Static => Token::Static,
            Token::Pointer => Token::Pointer,
            Token::Temp => Token::Temp,
            Token::Constant => Token::Constant,
            Token::IfGoto => Token::IfGoto,
            Token::Minus => Token::Minus,
            Token::Name(s) => Token::Name(s.clone()),
            Token::Number(n) => Token::Number(*n),
        }
    }
}

/// The keyword a whole identifier run spells, if any.
pub open spec fn keyword_of_spec(s: Seq<char>) -> Option<TokenV> {
    if s.len() == 4 && s[0] == 'p' && s[1] == 'u' && s[2] == 's' && s[3] == 'h' {
        Some(TokenV::Push)
    } else if s.len() == 3 && s[0] == 'p' && s[1] == 'o' && s[2] == 'p' {
        Some(TokenV::Pop)
    } else if s.len() == 3 && s[0] == 'a' && s[1] == 'd' && s[2] == 'd' {
        Some(TokenV::Add)
    } else if s.len() == 3 && s[0] == 's' && s[1] == 'u' && s[2] == 'b' {
        Some(TokenV::Sub)
    } else if s.len() == 3 && s[0] == 'n' && s[1] == 'e' && s[2] == 'g' {
        Some(TokenV::Neg)
    } else if s.len() == 2 && s[0] == 'e' && s[1] == 'q' {
        Some(TokenV::Eq)
    } else if s.len() == 2 && s[0] == 'g' && s[1] == 't' {
        Some(TokenV::Gt)
    } else if s.len() == 2 && s[0] == 'l' && s[1] == 't' {
        Some(TokenV::Lt)
    } else if s.len() == 3 && s[0] == 'a' && s[1] == 'n' && s[2] == 'd' {
        Some(TokenV::And)
    } else if s.len() == 2 && s[0] == 'o' && s[1] == 'r' {
        Some(TokenV::Or)
    } else if s.len() == 3 && s[0] == 'n' && s[1] == 'o' && s[2] == 't' {
        Some(TokenV::Not)
    } else if s.len() == 5 && s[0] == 'l' && s[1] == 'a' && s[2] == 'b' && s[3] == 'e' && s[4] == 'l' {
        Some(TokenV::Label)
    } else if s.len() == 4 && s[0] == 'g' && s[1] == 'o' && s[2] == 't' && s[3] == 'o' {
        Some(TokenV::Goto)
    } else if s.len() == 8 && s[0] == 'f' && s[1] == 'u' && s[2] == 'n' && s[3] == 'c' && s[4] == 't' && s[5] == 'i' && s[6] == 'o' && s[7] == 'n' {
        Some(TokenV::Function)
    } else if s.len() == 4 && s[0] == 'c' && s[1] == 'a' && s[2] == 'l' && s[3] == 'l' {
        Some(TokenV::Call)
    } else if s.len() == 6 && s[0] == 'r' && s[1] == 'e' && s[2] == 't' && s[3] == 'u' && s[4] == 'r' && s[5] == 'n' {
        Some(TokenV::Return)
    } else if s.len() == 4 && s[0] == 't' && s[1] == 'h' && s[2] == 'i' && s[3] == 's' {
        Some(TokenV::This)
    } else if s.len() == 4 && s[0] == 't' && s[1] == 'h' && s[2] == 'a' && s[3] == 't' {
        Some(TokenV::That)
    } else if s.len() == 5 && s[0] == 'l' && s[1] == 'o' && s[2] == 'c' && s[3] == 'a' && s[4] == 'l' {
        Some(TokenV::Local)
    } else if s.len() == 8 && s[0] == 'a' && s[1] == 'r' && s[2] == 'g' && s[3] == 'u' && s[4] == 'm' && s[5] == 'e' && s[6] == 'n' && s[7] == 't' {
        Some(TokenV::Argument)
    } else if s.len() == 6 && s[0] == 's' && s[1] == 't' && s[2] == 'a' && s[3] == 't' && s[4] == 'i' && s[5] == 'c' {
        Some(TokenV::Static)
    } else if s.len() == 7 && s[0] == 'p' && s[1] == 'o' && s[2] == 'i' && s[3] == 'n' && s[4] == 't' && s[5] == 'e' && s[6] == 'r' {
        Some(TokenV::Pointer)
    } else if s.len() == 4 && s[0] == 't' && s[1] == 'e' && s[2] == 'm' && s[3] == 'p' {
        Some(TokenV::Temp)
    } else if s.len() == 8 && s[0] == 'c' && s[1] == 'o' && s[2] == 'n' && s[3] == 's' && s[4] == 't' && s[5] == 'a' && s[6] == 'n' && s[7] == 't' {
        Some(TokenV::Constant)
    } else {
        None
    }
}

/// Decides `keyword_of_spec` on a slice of the source.
fn keyword_of(v: &Vec<char>, from: usize, to: usize) -> (r: Option<Token>)
    requires
        from <= to <= v@.len(),
    ensures
        match r {
            Some(t) => keyword_of_spec(v@.subrange(from as int, to as int)) == Some(t@),
            None => keyword_of_spec(v@.subrange(from as int, to as int)) is None,
        },
{
    let n = to - from;
    if n == 4 && v[from + 0] == 'p' && v[from + 1] == 'u' && v[from + 2] == 's' && v[from + 3] == 'h' {
        Some(Token::Push)
    } else if n == 3 && v[from + 0] == 'p' && v[from + 1] == 'o' && v[from + 2] == 'p' {
        Some(Token::Pop)
    } else if n == 3 && v[from + 0] == 'a' && v[from + 1] == 'd' && v[from + 2] == 'd' {
        Some(Token::Add)
    } else if n == 3 && v[from + 0] == 's' && v[from + 1] == 'u' && v[from + 2] == 'b' {
        Some(Token::Sub)
    } else if n == 3 && v[from + 0] == 'n' && v[from + 1] == 'e' && v[from + 2] == 'g' {
        Some(Token::Neg)
    } else if n == 2 && v[from + 0] == 'e' && v[from + 1] == 'q' {
        Some(Token::Eq)
    } else if n == 2 && v[from + 0] == 'g' && v[from + 1] == 't' {
        Some(Token::Gt)
    } else if n == 2 && v[from + 0] == 'l' && v[from + 1] == 't' {
        Some(Token::Lt)
    } else if n == 3 && v[from + 0] == 'a' && v[from + 1] == 'n' && v[from + 2] == 'd' {
        Some(Token::And)
    } else if n == 2 && v[from + 0] == 'o' && v[from + 1] == 'r' {
        Some(Token::Or)
    } else if n == 3 && v[from + 0] == 'n' && v[from + 1] == 'o' && v[from + 2] == 't' {
        Some(Token::Not)
    } else if n == 5 && v[from + 0] == 'l' && v[from + 1] == 'a' && v[from + 2] == 'b' && v[from + 3] == 'e' && v[from + 4] == 'l' {
        Some(Token::Label)
    } else if n == 4 && v[from + 0] == 'g' && v[from + 1] == 'o' && v[from + 2] == 't' && v[from + 3] == 'o' {
        Some(Token::Goto)
    } else if n == 8 && v[from + 0] == 'f' && v[from + 1] == 'u' && v[from + 2] == 'n' && v[from + 3] == 'c' && v[from + 4] == 't' && v[from + 5] == 'i' && v[from + 6] == 'o' && v[from + 7] == 'n' {
        Some(Token::Function)
    } else if n == 4 && v[from + 0] == 'c' && v[from + 1] == 'a' && v[from + 2] == 'l' && v[from + 3] == 'l' {
        Some(Token::Call)
    } else if n == 6 && v[from + 0] == 'r' && v[from + 1] == 'e' && v[from + 2] == 't' && v[from + 3] == 'u' && v[from + 4] == 'r' && v[from + 5] == 'n' {
        Some(Token::Return)
    } else if n == 4 && v[from + 0] == 't' && v[from + 1] == 'h' && v[from + 2] == 'i' && v[from + 3] == 's' {
        Some(Token::This)
    } else if n == 4 && v[from + 0] == 't' && v[from + 1] == 'h' && v[from + 2] == 'a' && v[from + 3] == 't' {
        Some(Token::That)
    } else if n == 5 && v[from + 0] == 'l' && v[from + 1] == 'o' && v[from + 2] == 'c' && v[from + 3] == 'a' && v[from + 4] == 'l' {
        Some(Token::Local)
    } else if n == 8 && v[from + 0] == 'a' && v[from + 1] == 'r' && v[from + 2] == 'g' && v[from + 3] == 'u' && v[from + 4] == 'm' && v[from + 5] == 'e' && v[from + 6] == 'n' && v[from + 7] == 't' {
        Some(Token::Argument)
    } else if n == 6 && v[from + 0] == 's' && v[from + 1] == 't' && v[from + 2] == 'a' && v[from + 3] == 't' && v[from + 4] == 'i' && v[from + 5] == 'c' {
        Some(Token::Static)
    } else if n == 7 && v[from + 0] == 'p' && v[from + 1] == 'o' && v[from + 2] == 'i' && v[from + 3] == 'n' && v[from + 4] == 't' && v[from + 5] == 'e' && v[from + 6] == 'r' {
        Some(Token::Pointer)
    } else if n == 4 && v[from + 0] == 't' && v[from + 1] == 'e' && v[from + 2] == 'm' && v[from + 3] == 'p' {
        Some(Token::Temp)
    } else if n == 8 && v[from + 0] == 'c' && v[from + 1] == 'o' && v[from + 2] == 'n' && v[from + 3] == 's' && v[from + 4] == 't' && v[from + 5] == 'a' && v[from + 6] == 'n' && v[from + 7] == 't' {
        Some(Token::Constant)
    } else {
        None
    }
}

/// Characters skipped between VM tokens.
pub open spec fn vm_is_ws(c: char) -> bool {
    c == ' ' || c == '\t' || c == '\r' || c == '\n'
}

/// Characters that may open a VM name.
pub open spec fn is_vm_ident_start(c: char) -> bool {
    ('a' <= c && c <= 'z') || ('A' <= c && c <= 'Z')
}

/// Characters that may continue a VM name.
pub open spec fn is_vm_ident_char(c: char) -> bool {
    is_vm_ident_start(c) || is_digit(c) || c == '.' || c == '_'
}

/// First position at or after `i` that does not continue a VM name.
pub open spec fn vm_ident_end(s: Seq<char>, i: int) -> int
    decreases s.len() - i,
    when 0 <= i <= s.len()
{
    if i < s.len() && is_vm_ident_char(s[i]) {
        vm_ident_end(s, i + 1)
    } else {
        i
    }
}

/// Whether the seven characters of `if-goto` stand at position `i`.
pub open spec fn if_goto_at(s: Seq<char>, i: int) -> bool {
    i + 7 <= s.len() && s[i] == 'i' && s[i + 1] == 'f' && s[i + 2] == '-' && s[i + 3] == 'g' && s[i
        + 4] == 'o' && s[i + 5] == 't' && s[i + 6] == 'o'
}

/// What the VM lexer does at position `i`.
pub ghost enum VmLexStep {
    Tok(TokenV, int),
    Skip(int),
    End,
    Fail,
}

/// One VM lexer decision: blanks and the two comment forms are skipped, a
/// digit run is a number, `-` stands alone, and a letter opens a run that
/// is either a keyword or a name.
pub open spec fn vm_lex_step(s: Seq<char>, i: int) -> VmLexStep {
    if i >= s.len() {
        VmLexStep::End
    } else {
        let c = s[i];
        if vm_is_ws(c) {
            VmLexStep::Skip(i + 1)
        } else if c == '/' && i + 1 < s.len() && s[i + 1] == '/' {
            VmLexStep::Skip(line_comment_end(s, i + 2))
        } else if c == '/' && i + 1 < s.len() && s[i + 1] == '*' {
            match block_comment_end(s, i + 2) {
                Some(n) => VmLexStep::Skip(n),
                None => VmLexStep::Fail,
            }
        } else if c == '-' {
            VmLexStep::Tok(TokenV::Minus, i + 1)
        } else if is_digit(c) {
            let e = digits_end(s, i);
            if digits_val(s.subrange(i, e)) > usize::MAX {
                VmLexStep::Fail
            } else {
                VmLexStep::Tok(TokenV::Number(digits_val(s.subrange(i, e))), e)
            }
        } else if if_goto_at(s, i) {
            VmLexStep::Tok(TokenV::IfGoto, i + 7)
        } else if is_vm_ident_start(c) {
            let e = vm_ident_end(s, i);
            match keyword_of_spec(s.subrange(i, e)) {
                Some(t) => VmLexStep::Tok(t, e),
                None => VmLexStep::Tok(TokenV::Name(s.subrange(i, e)), e),
            }
        } else {
            VmLexStep::Fail
        }
    }
}

/// The token sequence of VM text from position `i` on.
pub open spec fn vm_lex_spec(s: Seq<char>, i: int) -> Option<Seq<TokenV>>
    decreases s.len() - i,
    when 0 <= i
{
    match vm_lex_step(s, i) {
        VmLexStep::End => Some(Seq::empty()),
        VmLexStep::Fail => None,
        VmLexStep::Skip(n) => if i < n <= s.len() {
            vm_lex_spec(s, n)
        } else {
            None
        },
        VmLexStep::Tok(t, n) => if i < n <= s.len() {
            match vm_lex_spec(s, n) {
                Some(r) => Some(seq![t] + r),
                None => None,
            }
        } else {
            None
        },
    }
}

/// The views of a lexed VM token list.
pub open spec fn vm_toks_view(v: Seq<Token>) -> Seq<TokenV> {
    v.map_values(|t: Token| t@)
}

fn vm_is_ws_exec(c: char) -> (r: bool)
    ensures
        r == vm_is_ws(c),
{
    c == ' ' || c == '\t' || c == '\r' || c == '\n'
}

fn is_vm_ident_start_exec(c: char) -> (r: bool)
    ensures
        r == is_vm_ident_start(c),
{
    ('a' <= c && c <= 'z') || ('A' <= c && c <= 'Z')
}

fn is_vm_ident_char_exec(c: char) -> (r: bool)
    ensures
        r == is_vm_ident_char(c),
{
    is_vm_ident_start_exec(c) || is_digit_exec(c) || c == '.' || c == '_'
}

fn vm_ident_end_exec(v: &Vec<char>, i: usize) -> (e: usize)
    requires
        i <= v@.len(),
    ensures
        e == vm_ident_end(v@, i as int),
        i <= e <= v@.len(),
{
    let mut j = i;
    while j < v.len() && is_vm_ident_char_exec(v[j])
        invariant
            i <= j <= v@.len(),
            vm_ident_end(v@, i as int) == vm_ident_end(v@, j as int),
        decreases v@.len() - j,
    {
        j = j + 1;
    }
    j
}

fn if_goto_at_exec(v: &Vec<char>, i: usize) -> (r: bool)
    requires
        i <= v@.len(),
    ensures
        r == if_goto_at(v@, i as int),
{
    (i as u128) + 7 <= (v.len() as u128) && v[i] == 'i' && v[i + 1] == 'f' && v[i + 2] == '-'
        && v[i + 3] == 'g' && v[i + 4] == 'o' && v[i + 5] == 't' && v[i + 6] == 'o'
}


/// A name run never ends before it starts.
proof fn lemma_vm_ident_end_lb(s: Seq<char>, i: int)
    requires
        0 <= i <= s.len(),
    ensures
        vm_ident_end(s, i) >= i,
    decreases s.len() - i,
{
    if i < s.len() && is_vm_ident_char(s[i]) {
        lemma_vm_ident_end_lb(s, i + 1);
    }
}

/// What the VM lexer produced at one position.
enum VmStepExec {
    TokE(Token, usize),
    SkipE(usize),
    EndE,
    FailE,
}

fn vm_lex_step_exec(v: &Vec<char>, i: usize) -> (r: VmStepExec)
    requires
        i <= v@.len(),
    ensures
        match r {
            VmStepExec::EndE => vm_lex_step(v@, i as int) == VmLexStep::End,
            VmStepExec::FailE => vm_lex_step(v@, i as int) == VmLexStep::Fail,
            VmStepExec::SkipE(n) => vm_lex_step(v@, i as int) == VmLexStep::Skip(n as int) && i < n
                <= v@.len(),
            VmStepExec::TokE(t, n) => vm_lex_step(v@, i as int) == VmLexStep::Tok(t@, n as int)
                && i < n <= v@.len(),
        },
{
    if i >= v.len() {
        return VmStepExec::EndE;
    }
    let c = v[i];
    if vm_is_ws_exec(c) {
        return VmStepExec::SkipE(i + 1);
    }
    if c == '/' && i + 1 < v.len() && v[i + 1] == '/' {
        let e = line_comment_end_exec(v, i + 2);
        return VmStepExec::SkipE(e);
    }
    if c == '/' && i + 1 < v.len() && v[i + 1] == '*' {
        match block_comment_end_exec(v, i + 2) {
            Some(n) => {
                return VmStepExec::SkipE(n);
            },
            None => {
                return VmStepExec::FailE;
            },
        }
    }
    if c == '-' {
        return VmStepExec::TokE(Token::Minus, i + 1);
    }
    if is_digit_exec(c) {
        let e = digits_end_exec(v, i);
        proof {
            assert(digits_end(v@, i as int) == digits_end(v@, i + 1));
            crate::text::lemma_digits_end_lb(v@, i + 1);
        }
        match digits_to_usize(v, i, e) {
            Some(n) => {
                return VmStepExec::TokE(Token::Number(n), e);
            },
            None => {
                return VmStepExec::FailE;
            },
        }
    }
    if if_goto_at_exec(v, i) {
        return VmStepExec::TokE(Token::IfGoto, i + 7);
    }
    if is_vm_ident_start_exec(c) {
        let e = vm_ident_end_exec(v, i);
        proof {
            assert(is_vm_ident_char(v@[i as int]));
            assert(vm_ident_end(v@, i as int) == vm_ident_end(v@, i + 1));
            lemma_vm_ident_end_lb(v@, i + 1);
        }
        match keyword_of(v, i, e) {
            Some(t) => {
                return VmStepExec::TokE(t, e);
            },
            None => {
                let name = chars_to_string(v, i, e);
                return VmStepExec::TokE(Token::Name(name), e);
            },
        }
    }
    VmStepExec::FailE
}

/// Lexes VM text into a token stream; fails exactly on text outside the VM
/// alphabet, with the position of the offence.
pub fn tokenize(code: &str) -> (r: Result<TokenStream<Token>, Error>)
    ensures
        match r {
            Ok(ts) => vm_lex_spec(code@, 0) == Some(vm_toks_view(ts.tokens@)) && ts.wf() && ts.pos
                == 0,
            Err(_) => vm_lex_spec(code@, 0) is None,
        },
{
    let v = to_chars(code);
    let mut tokens: Vec<Token> = Vec::new();
    let mut spans: Vec<Span> = Vec::new();
    let mut i: usize = 0;
    let mut line: usize = 0;
    loop
        invariant
            i <= v@.len(),
            v@ == code@,
            line <= i,
            tokens@.len() == spans@.len(),
            vm_lex_spec(code@, 0) == vm_opt_prepend(
                vm_toks_view(tokens@),
                vm_lex_spec(code@, i as int),
            ),
        decreases v@.len() - i,
    {
        match vm_lex_step_exec(&v, i) {
            VmStepExec::EndE => {
                proof {
                    assert(vm_lex_spec(code@, i as int) == Some(Seq::<TokenV>::empty()));
                    assert(vm_toks_view(tokens@) + Seq::<TokenV>::empty() =~= vm_toks_view(
                        tokens@,
                    ));
                }
                return Ok(TokenStream::new(tokens, spans));
            },
            VmStepExec::FailE => {
                return Err(Error::at(line, i, 1, "unrecognized character"));
            },
            VmStepExec::SkipE(n) => {
                line = line + count_newlines(&v, i, n);
                i = n;
            },
            VmStepExec::TokE(t, n) => {
                let ghost done = vm_toks_view(tokens@);
                let ghost tv = t@;
                tokens.push(t);
                spans.push(Span { line, index: i, len: n - i });
                proof {
                    assert(vm_toks_view(tokens@) =~= done.push(tv));
                    match vm_lex_spec(code@, n as int) {
                        Some(rest) => {
                            assert(vm_lex_spec(code@, i as int) == Some(seq![tv] + rest));
                            assert(done + (seq![tv] + rest) =~= done.push(tv) + rest);
                        },
                        None => {},
                    }
                }
                i = n;
            },
        }
    }
}

/// `o` with the sequence `p` put in front of its contents.
pub open spec fn vm_opt_prepend(p: Seq<TokenV>, o: Option<Seq<TokenV>>) -> Option<Seq<TokenV>> {
    match o {
        Some(r) => Some(p + r),
        None => None,
    }
}

/// The number of line breaks in `v[from..to]`.
fn count_newlines(v: &Vec<char>, from: usize, to: usize) -> (r: usize)
    requires
        from <= to <= v@.len(),
    ensures
        r <= to - from,
{
    let mut n: usize = 0;
    let mut j = from;
    while j < to
        invariant
            from <= j <= to <= v@.len(),
            n <= j - from,
        decreases to - j,
    {
        if v[j] == '\n' {
            n = n + 1;
        }
        j = j + 1;
    }
    n
}

} // verus!
