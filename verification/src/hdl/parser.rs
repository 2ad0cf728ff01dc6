//! The HDL parser: chip definitions into netlists, with bus slices
//! `name[a..b]` expanded to individual pins on both sides of each wiring
//! equation.

use crate::hdl::{ChipDef, ChipDefV, ComponentMap, ComponentMapV, comps_view, pairs_view, strs_view};
use crate::text::{
    chars_to_string, dec_digits, digits_end, digits_end_exec, digits_to_usize, digits_val,
    is_digit, is_digit_exec, to_chars, usize_to_string,
};
use vstd::prelude::*;

verus! {

/// One lexical element of HDL text, without its position.
#[derive(Debug, Clone, PartialEq, Eq)]
pub enum TokenType {
    Chip,
    In,
    Out,
    Parts,
    OpenC,
    CloseC,
    OpenP,
    CloseP,
    OpenB,
    CloseB,
    Comma,
    Semicolon,
    Equals,
    DoubleDot,
    Colon,
    Identifier(String),
    Number(usize),
    Unknown,
}

/// The mathematical reading of a token type.
pub ghost enum TokenTypeV {
    Chip,
    In,
    Out,
    Parts,
    OpenC,
    CloseC,
    OpenP,
    CloseP,
    OpenB,
    CloseB,
    Comma,
    Semicolon,
    Equals,
    DoubleDot,
    Colon,
    Identifier(Seq<char>),
    Number(nat),
    Unknown,
}

impl View for TokenType {
    type V = TokenTypeV;

    open spec fn view(&self) -> TokenTypeV {
        match self {
            TokenType::Chip => TokenTypeV::Chip,
            TokenType::In => TokenTypeV::In,
            TokenType::Out => TokenTypeV::Out,
            TokenType::Parts => TokenTypeV::Parts,
            TokenType::OpenC => TokenTypeV::OpenC,
            TokenType::CloseC => TokenTypeV::CloseC,
            TokenType::OpenP => TokenTypeV::OpenP,
            TokenType::CloseP => TokenTypeV::CloseP,
            TokenType::OpenB => TokenTypeV::OpenB,
            TokenType::CloseB => TokenTypeV::CloseB,
            TokenType::Comma => TokenTypeV::Comma,
            TokenType::Semicolon => TokenTypeV::Semicolon,
            TokenType::Equals => TokenTypeV::Equals,
            TokenType::DoubleDot => TokenTypeV::DoubleDot,
            TokenType::Colon => TokenTypeV::Colon,
            TokenType::Identifier(s) => TokenTypeV::Identifier(s@),
            TokenType::Number(n) => TokenTypeV::Number(*n as nat),
            TokenType::Unknown => TokenTypeV::Unknown,
        }
    }
}

/// A numeric tag for each token-type variant, payloads ignored.
pub open spec fn hdl_kind_id_spec(t: TokenTypeV) -> int {
    match t {
        TokenTypeV::Chip => 0,
        TokenTypeV::In => 1,
        TokenTypeV::Out => 2,
        TokenTypeV::Parts => 3,
        TokenTypeV::OpenC => 4,
        TokenTypeV::CloseC => 5,
        TokenTypeV::OpenP => 6,
        TokenTypeV::CloseP => 7,
        TokenTypeV::OpenB => 8,
        TokenTypeV::CloseB => 9,
        TokenTypeV::Comma => 10,
        TokenTypeV::Semicolon => 11,
        TokenTypeV::Equals => 12,
        TokenTypeV::DoubleDot => 13,
        TokenTypeV::Colon => 14,
        TokenTypeV::Identifier(_) => 15,
        TokenTypeV::Number(_) => 16,
        TokenTypeV::Unknown => 17,
    }
}

fn hdl_kind_id(t: &TokenType) -> (r: usize)
    ensures
        r == hdl_kind_id_spec(t@),
{
    match t {
        TokenType::Chip => 0,
        TokenType::In => 1,
        TokenType::Out => 2,
        TokenType::Parts => 3,
        TokenType::OpenC => 4,
        TokenType::CloseC => 5,
        TokenType::OpenP => 6,
        TokenType::CloseP => 7,
        TokenType::OpenB => 8,
        TokenType::CloseB => 9,
        TokenType::Comma => 10,
        TokenType::Semicolon => 11,
        TokenType::Equals => 12,
        TokenType::DoubleDot => 13,
        TokenType::Colon => 14,
        TokenType::Identifier(_) => 15,
        TokenType::Number(_) => 16,
        TokenType::Unknown => 17,
    }
}

/// One positioned HDL token.
#[derive(Debug, Clone, PartialEq, Eq)]
pub struct Token {
    pub index: usize,
    pub line: usize,
    pub len: usize,
    pub token_type: TokenType,
}

/// The mathematical reading of a positioned token.
pub ghost struct TokenFullV {
    pub index: nat,
    pub line: nat,
    pub len: nat,
    pub token_type: TokenTypeV,
}

impl View for Token {
    type V = TokenFullV;

    open spec fn view(&self) -> TokenFullV {
        TokenFullV {
            index: self.index as nat,
            line: self.line as nat,
            len: self.len as nat,
            token_type: self.token_type@,
        }
    }
}

/// What a positioned token offers a parser: its source span and its type,
/// with kind equality that ignores payloads.
pub trait TokenTrait: Sized {
    type TokenType;

    /// Whether two token types are of the same kind, payloads ignored.
    spec fn kind_eq_spec(a: &Self::TokenType, b: &Self::TokenType) -> bool;

    /// The token's type, mathematically.
    spec fn token_type_spec(&self) -> Self::TokenType;

    /// The token's source line, mathematically.
    spec fn line_spec(&self) -> usize;

    /// The token's character offset, mathematically.
    spec fn index_spec(&self) -> usize;

    /// The token's length, mathematically.
    spec fn len_spec(&self) -> usize;

    /// The token's source line.
    fn line(&self) -> (r: usize)
        ensures
            r == self.line_spec(),
    ;

    /// The token's character offset.
    fn index(&self) -> (r: usize)
        ensures
            r == self.index_spec(),
    ;

    /// The token's length.
    fn len(&self) -> (r: usize)
        ensures
            r == self.len_spec(),
    ;

    /// The token's type.
    fn token_type(&self) -> (r: Self::TokenType)
        ensures
            r == self.token_type_spec(),
    ;

    /// Decides `kind_eq_spec` against the token's own type.
    fn eq_type(&self, other: &Self::TokenType) -> (r: bool)
        ensures
            r == Self::kind_eq_spec(&self.token_type_spec(), other),
    ;
}

impl TokenTrait for Token {
    type TokenType = TokenType;

    open spec fn kind_eq_spec(a: &TokenType, b: &TokenType) -> bool {
        hdl_kind_id_spec(a@) == hdl_kind_id_spec(b@)
    }

    open spec fn token_type_spec(&self) -> TokenType {
        self.token_type
    }

    open spec fn line_spec(&self) -> usize {
        self.line
    }

    open spec fn index_spec(&self) -> usize {
        self.index
    }

    open spec fn len_spec(&self) -> usize {
        self.len
    }

    fn line(&self) -> (r: usize) {
        self.line
    }

    fn index(&self) -> (r: usize) {
        self.index
    }

    fn len(&self) -> (r: usize) {
        self.len
    }

    fn token_type(&self) -> (r: TokenType) {
        dup_token_type(&self.token_type)
    }

    fn eq_type(&self, other: &TokenType) -> (r: bool) {
        hdl_kind_id(&self.token_type) == hdl_kind_id(other)
    }
}

/// An exact copy of a token type.
fn dup_token_type(t: &TokenType) -> (r: TokenType)
    ensures
        r == *t,
{
    match t {
        TokenType::Chip => TokenType::Chip,
        TokenType::In => TokenType::In,
        TokenType::Out => TokenType::Out,
        TokenType::Parts => TokenType::Parts,
        TokenType::OpenC => TokenType::OpenC,
        TokenType::CloseC => TokenType::CloseC,
        TokenType::OpenP => TokenType::OpenP,
        TokenType::CloseP => TokenType::CloseP,
        TokenType::OpenB => TokenType::OpenB,
        TokenType::CloseB => TokenType::CloseB,
        TokenType::Comma => TokenType::Comma,
        TokenType::Semicolon => TokenType::Semicolon,
        TokenType::Equals => TokenType::Equals,
        TokenType::DoubleDot => TokenType::DoubleDot,
        TokenType::Colon => TokenType::Colon,
        TokenType::Identifier(s) => TokenType::Identifier(s.clone()),
        TokenType::Number(n) => TokenType::Number(*n),
        TokenType::Unknown => TokenType::Unknown,
    }
}

/// A parsing failure: an optional source position and a message.
#[derive(Debug, Clone, PartialEq, Eq)]
pub struct Error {
    pub line: Option<usize>,
    pub index: Option<usize>,
    pub len: Option<usize>,
    pub msg: String,
}

impl Error {
    /// Checks the next token against an expected kind, payloads ignored;
    /// reports the token's own position on a mismatch, and no position at
    /// the end of the input.
    pub fn expect<T: TokenTrait>(got: Option<&T>, expected: T::TokenType) -> (r: Result<
        T::TokenType,
        Self,
    >)
        ensures
            match r {
                Ok(t) => got is Some && T::kind_eq_spec(
                    &got->Some_0.token_type_spec(),
                    &expected,
                ) && t == got->Some_0.token_type_spec(),
                Err(e) => !(got is Some && T::kind_eq_spec(
                    &got->Some_0.token_type_spec(),
                    &expected,
                )) && match got {
                    Some(token) => e.line == Some(token.line_spec()) && e.index == Some(
                        token.index_spec(),
                    ) && e.len == Some(token.len_spec()) && e.msg@ == "unexpected token"@,
                    None => e.line is None && e.index is None && e.len is None && e.msg@
                        == "unexpected end of file"@,
                },
            },
    {
        match got {
            Some(token) => {
                if token.eq_type(&expected) {
                    Ok(token.token_type())
                } else {
                    Err(Self {
                        line: Some(token.line()),
                        index: Some(token.index()),
                        len: Some(token.len()),
                        msg: String::from_str("unexpected token"),
                    })
                }
            },
            None => Err(Self {
                line: None,
                index: None,
                len: None,
                msg: String::from_str("unexpected end of file"),
            }),
        }
    }

    /// An error at a token's own span.
    pub fn msg_token<T: TokenTrait>(msg: &str, token: T) -> (r: Self)
        ensures
            r.msg@ == msg@,
            r.line == Some(token.line_spec()),
            r.index == Some(token.index_spec()),
            r.len == Some(token.len_spec()),
    {
        Self {
            line: Some(token.line()),
            index: Some(token.index()),
            len: Some(token.len()),
            msg: String::from_str(msg),
        }
    }

    /// An error at a token's position with an overriding length.
    pub fn msg_len<T: TokenTrait>(msg: &str, token: T, len: usize) -> (r: Self)
        ensures
            r.msg@ == msg@,
            r.line == Some(token.line_spec()),
            r.index == Some(token.index_spec()),
            r.len == Some(len),
    {
        Self {
            line: Some(token.line()),
            index: Some(token.index()),
            len: Some(len),
            msg: String::from_str(msg),
        }
    }

    /// An error with no position.
    pub fn msg(msg: &str) -> (r: Self)
        ensures
            r.msg@ == msg@,
            r.line is None,
            r.index is None,
            r.len is None,
    {
        Self { line: None, index: None, len: None, msg: String::from_str(msg) }
    }
}

// ---------------------------------------------------------------------------
// Lexing
// ---------------------------------------------------------------------------

/// Characters skipped between HDL tokens.
pub open spec fn hdl_is_ws(c: char) -> bool {
    c == ' ' || c == '\t' || c == '\n' || c == '\r'
}

/// Characters that may open an HDL identifier.
pub open spec fn hdl_ident_start(c: char) -> bool {
    ('a' <= c && c <= 'z') || ('A' <= c && c <= 'Z') || c == '_' || c == '$'
}

/// Characters that may continue an HDL identifier.
pub open spec fn hdl_ident_char(c: char) -> bool {
    hdl_ident_start(c) || is_digit(c)
}

/// First position at or after `i` that does not continue an identifier.
pub open spec fn hdl_ident_end(s: Seq<char>, i: int) -> int
    decreases s.len() - i,
    when 0 <= i <= s.len()
{
    if i < s.len() && hdl_ident_char(s[i]) {
        hdl_ident_end(s, i + 1)
    } else {
        i
    }
}

/// The keyword an identifier run spells, if any.
pub open spec fn hdl_keyword_of(s: Seq<char>) -> Option<TokenTypeV> {
    if s.len() == 4 && s[0] == 'C' && s[1] == 'H' && s[2] == 'I' && s[3] == 'P' {
        Some(TokenTypeV::Chip)
    } else if s.len() == 2 && s[0] == 'I' && s[1] == 'N' {
        Some(TokenTypeV::In)
    } else if s.len() == 3 && s[0] == 'O' && s[1] == 'U' && s[2] == 'T' {
        Some(TokenTypeV::Out)
    } else if s.len() == 5 && s[0] == 'P' && s[1] == 'A' && s[2] == 'R' && s[3] == 'T' && s[4]
        == 'S' {
        Some(TokenTypeV::Parts)
    } else {
        None
    }
}

/// The single-character symbol at a position, if any.
pub open spec fn hdl_symbol_of(c: char) -> Option<TokenTypeV> {
    if c == '{' {
        Some(TokenTypeV::OpenC)
    } else if c == '}' {
        Some(TokenTypeV::CloseC)
    } else if c == '(' {
        Some(TokenTypeV::OpenP)
    } else if c == ')' {
        Some(TokenTypeV::CloseP)
    } else if c == '[' {
        Some(TokenTypeV::OpenB)
    } else if c == ']' {
        Some(TokenTypeV::CloseB)
    } else if c == ',' {
        Some(TokenTypeV::Comma)
    } else if c == ';' {
        Some(TokenTypeV::Semicolon)
    } else if c == '=' {
        Some(TokenTypeV::Equals)
    } else if c == ':' {
        Some(TokenTypeV::Colon)
    } else {
        None
    }
}

/// What the HDL lexer does at position `i`: it never fails, an
/// unrecognized character becomes an `Unknown` token.
pub ghost enum HdlStep {
    Tok(TokenTypeV, int),
    Skip(int),
    End,
}

pub open spec fn hdl_lex_step(s: Seq<char>, i: int) -> HdlStep {
    if i >= s.len() {
        HdlStep::End
    } else {
        let c = s[i];
        if hdl_is_ws(c) {
            HdlStep::Skip(i + 1)
        } else if c == '.' && i + 1 < s.len() && s[i + 1] == '.' {
            HdlStep::Tok(TokenTypeV::DoubleDot, i + 2)
        } else if hdl_symbol_of(c) is Some {
            HdlStep::Tok(hdl_symbol_of(c)->Some_0, i + 1)
        } else if is_digit(c) {
            let e = digits_end(s, i);
            if digits_val(s.subrange(i, e)) > usize::MAX {
                HdlStep::Tok(TokenTypeV::Unknown, i + 1)
            } else {
                HdlStep::Tok(TokenTypeV::Number(digits_val(s.subrange(i, e))), e)
            }
        } else if hdl_ident_start(c) {
            let e = hdl_ident_end(s, i);
            match hdl_keyword_of(s.subrange(i, e)) {
                Some(t) => HdlStep::Tok(t, e),
                None => HdlStep::Tok(TokenTypeV::Identifier(s.subrange(i, e)), e),
            }
        } else {
            HdlStep::Tok(TokenTypeV::Unknown, i + 1)
        }
    }
}

/// The positioned token sequence of HDL text from position `i` on, with
/// `line` newlines already behind.
pub open spec fn hdl_lex_from(s: Seq<char>, i: int, line: int) -> Seq<TokenFullV>
    decreases s.len() - i,
    when 0 <= i
{
    match hdl_lex_step(s, i) {
        HdlStep::End => Seq::empty(),
        HdlStep::Skip(n) => if i < n <= s.len() {
            hdl_lex_from(s, n, line + if s[i] == '\n' {
                1int
            } else {
                0int
            })
        } else {
            Seq::empty()
        },
        HdlStep::Tok(t, n) => if i < n <= s.len() {
            seq![
                TokenFullV {
                    index: i as nat,
                    line: line as nat,
                    len: (n - i) as nat,
                    token_type: t,
                },
            ] + hdl_lex_from(s, n, line)
        } else {
            Seq::empty()
        },
    }
}

/// What `tokenize` returns.
pub open spec fn hdl_lex_spec(s: Seq<char>) -> Seq<TokenFullV> {
    hdl_lex_from(s, 0, 0)
}

/// The views of a token list.
pub open spec fn hdl_toks_view(v: Seq<Token>) -> Seq<TokenFullV> {
    v.map_values(|t: Token| t@)
}

fn hdl_is_ws_exec(c: char) -> (r: bool)
    ensures
        r == hdl_is_ws(c),
{
    c == ' ' || c == '\t' || c == '\n' || c == '\r'
}

fn hdl_ident_start_exec(c: char) -> (r: bool)
    ensures
        r == hdl_ident_start(c),
{
    ('a' <= c && c <= 'z') || ('A' <= c && c <= 'Z') || c == '_' || c == '$'
}

fn hdl_ident_char_exec(c: char) -> (r: bool)
    ensures
        r == hdl_ident_char(c),
{
    hdl_ident_start_exec(c) || is_digit_exec(c)
}

fn hdl_ident_end_exec(v: &Vec<char>, i: usize) -> (e: usize)
    requires
        i <= v@.len(),
    ensures
        e == hdl_ident_end(v@, i as int),
        i <= e <= v@.len(),
{
    let mut j = i;
    while j < v.len() && hdl_ident_char_exec(v[j])
        invariant
            i <= j <= v@.len(),
            hdl_ident_end(v@, i as int) == hdl_ident_end(v@, j as int),
        decreases v@.len() - j,
    {
        j = j + 1;
    }
    j
}

/// A name run never ends before it starts.
proof fn lemma_hdl_ident_end_lb(s: Seq<char>, i: int)
    requires
        0 <= i <= s.len(),
    ensures
        hdl_ident_end(s, i) >= i,
    decreases s.len() - i,
{
    if i < s.len() && hdl_ident_char(s[i]) {
        lemma_hdl_ident_end_lb(s, i + 1);
    }
}

fn hdl_symbol_exec(c: char) -> (r: Option<TokenType>)
    ensures
        match r {
            Some(t) => hdl_symbol_of(c) == Some(t@),
            None => hdl_symbol_of(c) is None,
        },
{
    if c == '{' {
        Some(TokenType::OpenC)
    } else if c == '}' {
        Some(TokenType::CloseC)
    } else if c == '(' {
        Some(TokenType::OpenP)
    } else if c == ')' {
        Some(TokenType::CloseP)
    } else if c == '[' {
        Some(TokenType::OpenB)
    } else if c == ']' {
        Some(TokenType::CloseB)
    } else if c == ',' {
        Some(TokenType::Comma)
    } else if c == ';' {
        Some(TokenType::Semicolon)
    } else if c == '=' {
        Some(TokenType::Equals)
    } else if c == ':' {
        Some(TokenType::Colon)
    } else {
        None
    }
}

fn hdl_keyword_exec(v: &Vec<char>, from: usize, to: usize) -> (r: Option<TokenType>)
    requires
        from <= to <= v@.len(),
    ensures
        match r {
            Some(t) => hdl_keyword_of(v@.subrange(from as int, to as int)) == Some(t@),
            None => hdl_keyword_of(v@.subrange(from as int, to as int)) is None,
        },
{
    let n = to - from;
    if n == 4 && v[from] == 'C' && v[from + 1] == 'H' && v[from + 2] == 'I' && v[from + 3] == 'P' {
        Some(TokenType::Chip)
    } else if n == 2 && v[from] == 'I' && v[from + 1] == 'N' {
        Some(TokenType::In)
    } else if n == 3 && v[from] == 'O' && v[from + 1] == 'U' && v[from + 2] == 'T' {
        Some(TokenType::Out)
    } else if n == 5 && v[from] == 'P' && v[from + 1] == 'A' && v[from + 2] == 'R' && v[from + 3]
        == 'T' && v[from + 4] == 'S' {
        Some(TokenType::Parts)
    } else {
        None
    }
}

/// Lexes HDL text into positioned tokens.  The lexer is total: text it
/// does not recognize becomes `Unknown` tokens, which the parser rejects.
#[verifier::loop_isolation(false)]
pub fn tokenize(code: &str) -> (r: Vec<Token>)
    ensures
        hdl_toks_view(r@) == hdl_lex_spec(code@),
{
    let v = to_chars(code);
    let mut tokens: Vec<Token> = Vec::new();
    let mut i: usize = 0;
    let mut line: usize = 0;
    proof {
        assert(hdl_toks_view(tokens@) =~= Seq::<TokenFullV>::empty());
    }
    while i < v.len()
        invariant
            i <= v@.len(),
            line <= i,
            hdl_lex_spec(code@) == hdl_toks_view(tokens@) + hdl_lex_from(
                code@,
                i as int,
                line as int,
            ),
        decreases v@.len() - i,
    {
        let c = v[i];
        if hdl_is_ws_exec(c) {
            let ghost line0 = line as int;
            if c == '\n' {
                line = line + 1;
            }
            i = i + 1;
        } else if c == '.' && i + 1 < v.len() && v[i + 1] == '.' {
            let ghost tb = tokens@;
            let tok = Token { index: i, line, len: 2, token_type: TokenType::DoubleDot };
            let ghost tkv = tok@;
            tokens.push(tok);
            proof {
                lemma_hdl_push(tb, Token { index: i, line, len: 2, token_type: TokenType::DoubleDot });
                lemma_hdl_step_tok(code@, i as int, line as int, tkv, i + 2);
            }
            i = i + 2;
        } else {
            let sym = hdl_symbol_exec(c);
            match sym {
                Some(t) => {
                    let ghost tb = tokens@;
                    let ghost tv_ = t@;
                    let tok = Token { index: i, line, len: 1, token_type: t };
                    let ghost tkv = tok@;
                    tokens.push(tok);
                    proof {
                        assert(tokens@ == tb.push(tokens@.last()));
                        lemma_hdl_push(tb, tokens@.last());
                        lemma_hdl_step_tok(code@, i as int, line as int, tkv, i + 1);
                    }
                    i = i + 1;
                },
                None => {
                    if is_digit_exec(c) {
                        let e = digits_end_exec(&v, i);
                        proof {
                            assert(digits_end(v@, i as int) == digits_end(v@, i + 1));
                            crate::text::lemma_digits_end_lb(v@, i + 1);
                        }
                        match digits_to_usize(&v, i, e) {
                            Some(num) => {
                                let ghost tb = tokens@;
                                let tok = Token {
                                    index: i,
                                    line,
                                    len: e - i,
                                    token_type: TokenType::Number(num),
                                };
                                let ghost tkv = tok@;
                                tokens.push(tok);
                                proof {
                                    assert(tokens@ == tb.push(tokens@.last()));
                                    lemma_hdl_push(tb, tokens@.last());
                                    lemma_hdl_step_tok(code@, i as int, line as int, tkv, e as int);
                                }
                                i = e;
                            },
                            None => {
                                let ghost tb = tokens@;
                                let tok = Token {
                                    index: i,
                                    line,
                                    len: 1,
                                    token_type: TokenType::Unknown,
                                };
                                let ghost tkv = tok@;
                                tokens.push(tok);
                                proof {
                                    assert(tokens@ == tb.push(tokens@.last()));
                                    lemma_hdl_push(tb, tokens@.last());
                                    lemma_hdl_step_tok(code@, i as int, line as int, tkv, i + 1);
                                }
                                i = i + 1;
                            },
                        }
                    } else if hdl_ident_start_exec(c) {
                        let e = hdl_ident_end_exec(&v, i);
                        proof {
                            assert(hdl_ident_char(v@[i as int]));
                            assert(hdl_ident_end(v@, i as int) == hdl_ident_end(v@, i + 1));
                            lemma_hdl_ident_end_lb(v@, i + 1);
                        }
                        let t = match hdl_keyword_exec(&v, i, e) {
                            Some(t) => t,
                            None => TokenType::Identifier(chars_to_string(&v, i, e)),
                        };
                        let ghost tb = tokens@;
                        let tok = Token { index: i, line, len: e - i, token_type: t };
                        let ghost tkv = tok@;
                        tokens.push(tok);
                        proof {
                            assert(tokens@ == tb.push(tokens@.last()));
                            lemma_hdl_push(tb, tokens@.last());
                            lemma_hdl_step_tok(code@, i as int, line as int, tkv, e as int);
                        }
                        i = e;
                    } else {
                        let ghost tb = tokens@;
                        let tok = Token { index: i, line, len: 1, token_type: TokenType::Unknown };
                        let ghost tkv = tok@;
                        tokens.push(tok);
                        proof {
                            assert(tokens@ == tb.push(tokens@.last()));
                            lemma_hdl_push(tb, tokens@.last());
                            lemma_hdl_step_tok(code@, i as int, line as int, tkv, i + 1);
                        }
                        i = i + 1;
                    }
                },
            }
        }
    }
    proof {
        assert(hdl_lex_from(code@, i as int, line as int) =~= Seq::<TokenFullV>::empty());
        assert(hdl_toks_view(tokens@) + Seq::<TokenFullV>::empty() =~= hdl_toks_view(tokens@));
    }
    tokens
}

/// When the lexer step at `i` yields exactly the pushed token, the
/// done-prefix equation advances by one token.
proof fn lemma_hdl_step_tok(s: Seq<char>, i: int, line: int, t: TokenFullV, n: int)
    requires
        0 <= i < n <= s.len(),
        hdl_lex_step(s, i) == HdlStep::Tok(t.token_type, n),
        t.index == i,
        t.line == line,
        t.len == n - i,
    ensures
        hdl_lex_from(s, i, line) == seq![t] + hdl_lex_from(s, n, line),
{
    assert(hdl_lex_from(s, i, line) =~= seq![t] + hdl_lex_from(s, n, line));
}

/// Pushing one token pushes its view.
proof fn lemma_hdl_push(before: Seq<Token>, x: Token)
    ensures
        hdl_toks_view(before.push(x)) == hdl_toks_view(before).push(x@),
{
    assert(hdl_toks_view(before.push(x)) =~= hdl_toks_view(before).push(x@));
}

// ---------------------------------------------------------------------------
// Parsing
// ---------------------------------------------------------------------------

/// The token types of a lexed token list.
pub open spec fn types_of(toks: Seq<TokenFullV>) -> Seq<TokenTypeV> {
    toks.map_values(|t: TokenFullV| t.token_type)
}

/// The pins a bus slice `name[a..b]` expands to: `name<a>` through
/// `name<b>`, inclusive on both ends, and nothing when `b < a`.
pub open spec fn expand_bus(name: Seq<char>, a: nat, b: nat) -> Seq<Seq<char>> {
    Seq::new(
        if a <= b {
            (b - a + 1) as nat
        } else {
            0
        },
        |j: int| name + dec_digits((a + j) as nat),
    )
}

/// The pin list of one `pin` element at token position `i`: a plain
/// identifier, or an identifier with a bus slice.
pub open spec fn pin_spec(tts: Seq<TokenTypeV>, i: int) -> Option<(Seq<Seq<char>>, int)> {
    if i < tts.len() {
        match tts[i] {
            TokenTypeV::Identifier(name) => {
                if i + 1 < tts.len() && tts[i + 1] == TokenTypeV::OpenB {
                    if i + 5 < tts.len() {
                        match (tts[i + 2], tts[i + 4]) {
                            (TokenTypeV::Number(a), TokenTypeV::Number(b)) => {
                                if tts[i + 3] == TokenTypeV::DoubleDot && tts[i + 5]
                                    == TokenTypeV::CloseB {
                                    Some((expand_bus(name, a, b), i + 6))
                                } else {
                                    None
                                }
                            },
                            _ => None,
                        }
                    } else {
                        None
                    }
                } else {
                    Some((seq![name], i + 1))
                }
            },
            _ => None,
        }
    } else {
        None
    }
}

/// A comma-separated pin list from position `i`.
pub open spec fn pins_spec(tts: Seq<TokenTypeV>, i: int) -> Option<(Seq<Seq<char>>, int)>
    decreases tts.len() - i,
    when 0 <= i
{
    match pin_spec(tts, i) {
        None => None,
        Some((names, n)) => {
            if n < tts.len() && tts[n] == TokenTypeV::Comma {
                if n + 1 <= i {
                    None
                } else {
                    match pins_spec(tts, n + 1) {
                        None => None,
                        Some((rest, m)) => Some((names + rest, m)),
                    }
                }
            } else {
                Some((names, n))
            }
        },
    }
}

/// One wiring equation `pin = pin`, both sides expanded; the sides must
/// expand to the same number of pins.
pub open spec fn eq_spec(tts: Seq<TokenTypeV>, i: int) -> Option<(
    Seq<(Seq<char>, Seq<char>)>,
    int,
)> {
    match pin_spec(tts, i) {
        None => None,
        Some((first, j)) => {
            if j < tts.len() && tts[j] == TokenTypeV::Equals {
                match pin_spec(tts, j + 1) {
                    None => None,
                    Some((second, k)) => {
                        if first.len() == second.len() {
                            Some((Seq::new(first.len(), |t: int| (first[t], second[t])), k))
                        } else {
                            None
                        }
                    },
                }
            } else {
                None
            }
        },
    }
}

/// A comma-separated equation list from position `i`.
pub open spec fn eqs_spec(tts: Seq<TokenTypeV>, i: int) -> Option<(
    Seq<(Seq<char>, Seq<char>)>,
    int,
)>
    decreases tts.len() - i,
    when 0 <= i
{
    match eq_spec(tts, i) {
        None => None,
        Some((pairs, n)) => {
            if n < tts.len() && tts[n] == TokenTypeV::Comma {
                if n + 1 <= i {
                    None
                } else {
                    match eqs_spec(tts, n + 1) {
                        None => None,
                        Some((rest, m)) => Some((pairs + rest, m)),
                    }
                }
            } else {
                Some((pairs, n))
            }
        },
    }
}

/// One component instantiation `Name(eq, …);`.
pub open spec fn comp_spec(tts: Seq<TokenTypeV>, i: int) -> Option<(ComponentMapV, int)> {
    if i + 1 < tts.len() {
        match tts[i] {
            TokenTypeV::Identifier(chip_name) => {
                if tts[i + 1] == TokenTypeV::OpenP {
                    match eqs_spec(tts, i + 2) {
                        None => None,
                        Some((pairs, j)) => {
                            if j + 1 < tts.len() && tts[j] == TokenTypeV::CloseP && tts[j + 1]
                                == TokenTypeV::Semicolon {
                                Some((ComponentMapV { var_map: pairs, chip_name }, j + 2))
                            } else {
                                None
                            }
                        },
                    }
                } else {
                    None
                }
            },
            _ => None,
        }
    } else {
        None
    }
}

/// The component list of a `PARTS:` section: one component, then more as
/// long as an identifier follows.
pub open spec fn parts_spec(tts: Seq<TokenTypeV>, i: int) -> Option<(Seq<ComponentMapV>, int)>
    decreases tts.len() - i,
    when 0 <= i
{
    match comp_spec(tts, i) {
        None => None,
        Some((c, n)) => {
            if n < tts.len() && tts[n] is Identifier {
                if n <= i {
                    None
                } else {
                    match parts_spec(tts, n) {
                        None => None,
                        Some((rest, m)) => Some((seq![c] + rest, m)),
                    }
                }
            } else {
                Some((seq![c], n))
            }
        },
    }
}

/// One whole chip definition.
pub open spec fn chip_spec(tts: Seq<TokenTypeV>, i: int) -> Option<(ChipDefV, int)> {
    if i + 3 < tts.len() && tts[i] == TokenTypeV::Chip && tts[i + 2] == TokenTypeV::OpenC && tts[i
        + 3] == TokenTypeV::In {
        match tts[i + 1] {
            TokenTypeV::Identifier(name) => {
                match pins_spec(tts, i + 4) {
                    None => None,
                    Some((ins, j)) => {
                        if j + 1 < tts.len() && tts[j] == TokenTypeV::Semicolon && tts[j + 1]
                            == TokenTypeV::Out {
                            match pins_spec(tts, j + 2) {
                                None => None,
                                Some((outs, k)) => {
                                    if k + 2 < tts.len() && tts[k] == TokenTypeV::Semicolon
                                        && tts[k + 1] == TokenTypeV::Parts && tts[k + 2]
                                        == TokenTypeV::Colon {
                                        match parts_spec(tts, k + 3) {
                                            None => None,
                                            Some((parts, m)) => {
                                                if m < tts.len() && tts[m]
                                                    == TokenTypeV::CloseC {
                                                    Some(
                                                        (
                                                            ChipDefV {
                                                                name,
                                                                inputs: ins,
                                                                outputs: outs,
                                                                parts,
                                                            },
                                                            m + 1,
                                                        ),
                                                    )
                                                } else {
                                                    None
                                                }
                                            },
                                        }
                                    } else {
                                        None
                                    }
                                },
                            }
                        } else {
                            None
                        }
                    },
                }
            },
            _ => None,
        }
    } else {
        None
    }
}

/// All chip definitions of a file, one after the other.
pub open spec fn chips_spec(tts: Seq<TokenTypeV>, i: int) -> Option<(Seq<ChipDefV>, int)>
    decreases tts.len() - i,
    when 0 <= i
{
    match chip_spec(tts, i) {
        None => None,
        Some((c, n)) => {
            if n >= tts.len() {
                Some((seq![c], n))
            } else if n <= i {
                None
            } else {
                match chips_spec(tts, n) {
                    None => None,
                    Some((rest, m)) => Some((seq![c] + rest, m)),
                }
            }
        },
    }
}

/// What `parse` returns on HDL text.
pub open spec fn hdl_parse_spec(s: Seq<char>) -> Option<Seq<ChipDefV>> {
    match chips_spec(types_of(hdl_lex_spec(s)), 0) {
        None => None,
        Some((chips, _)) => Some(chips),
    }
}

/// The views of a chip list.
pub open spec fn chips_view(v: Seq<ChipDef>) -> Seq<ChipDefV> {
    v.map_values(|c: ChipDef| c@)
}

/// Reads the number under the cursor.
pub fn get_num(toks: &Vec<Token>, pos: &mut usize) -> (r: Result<usize, Error>)
    requires
        *old(pos) <= toks@.len(),
    ensures
        *final(pos) <= toks@.len(),
        match r {
            Ok(n) => *old(pos) < toks@.len() && types_of(hdl_toks_view(toks@))[*old(pos) as int]
                == TokenTypeV::Number(n as nat) && *final(pos) == *old(pos) + 1,
            Err(_) => !(*old(pos) < toks@.len() && types_of(hdl_toks_view(toks@))[*old(
                pos,
            ) as int] is Number) && *final(pos) == *old(pos),
        },
{
    let ghost tts = types_of(hdl_toks_view(toks@));
    if *pos >= toks.len() {
        return Err(Error::msg("unexpected end of file, expected a number"));
    }
    proof {
        assert(tts[*old(pos) as int] == toks@[*old(pos) as int]@.token_type);
    }
    match &toks[*pos].token_type {
        TokenType::Number(n) => {
            let n = *n;
            *pos = *pos + 1;
            Ok(n)
        },
        _ => Err(Error::msg_token("expected a number", toks[*pos].clone())),
    }
}

/// Reads the identifier under the cursor.
pub fn get_identifier(toks: &Vec<Token>, pos: &mut usize) -> (r: Result<String, Error>)
    requires
        *old(pos) <= toks@.len(),
    ensures
        *final(pos) <= toks@.len(),
        match r {
            Ok(name) => *old(pos) < toks@.len() && types_of(hdl_toks_view(toks@))[*old(
                pos,
            ) as int] == TokenTypeV::Identifier(name@) && *final(pos) == *old(pos) + 1,
            Err(_) => !(*old(pos) < toks@.len() && types_of(hdl_toks_view(toks@))[*old(
                pos,
            ) as int] is Identifier) && *final(pos) == *old(pos),
        },
{
    let ghost tts = types_of(hdl_toks_view(toks@));
    if *pos >= toks.len() {
        return Err(Error::msg("unexpected end of file, expected an identifier"));
    }
    proof {
        assert(tts[*old(pos) as int] == toks@[*old(pos) as int]@.token_type);
    }
    match &toks[*pos].token_type {
        TokenType::Identifier(s) => {
            let name = s.clone();
            *pos = *pos + 1;
            Ok(name)
        },
        _ => Err(Error::msg_token("expected an identifier", toks[*pos].clone())),
    }
}

/// Whether the token under `j` is of the given kind.
fn peek_is(toks: &Vec<Token>, j: usize, kind: &TokenType) -> (r: bool)
    requires
        j <= toks@.len(),
    ensures
        r == (j < toks@.len() && hdl_kind_id_spec(types_of(hdl_toks_view(toks@))[j as int])
            == hdl_kind_id_spec(kind@)),
{
    proof {
        if j < toks@.len() {
            assert(types_of(hdl_toks_view(toks@))[j as int] == toks@[j as int]@.token_type);
        }
    }
    j < toks.len() && hdl_kind_id(&toks[j].token_type) == hdl_kind_id(kind)
}

/// Reads one pin element, bus slices expanded.
#[verifier::loop_isolation(false)]
pub fn get_name(toks: &Vec<Token>, pos: &mut usize) -> (r: Result<Vec<String>, Error>)
    requires
        *old(pos) <= toks@.len(),
    ensures
        *final(pos) <= toks@.len(),
        match r {
            Ok(names) => pin_spec(types_of(hdl_toks_view(toks@)), *old(pos) as int) == Some(
                (strs_view(names@), *final(pos) as int),
            ) && *old(pos) < *final(pos),
            Err(_) => pin_spec(types_of(hdl_toks_view(toks@)), *old(pos) as int) is None,
        },
{
    let n_toks = toks.len();
    let ghost tts = types_of(hdl_toks_view(toks@));
    let name = match get_identifier(toks, pos) {
        Ok(name) => name,
        Err(e) => {
            return Err(e);
        },
    };
    if !peek_is(toks, *pos, &TokenType::OpenB) {
        let mut names: Vec<String> = Vec::new();
        let ghost nv = name@;
        names.push(name);
        proof {
            assert(strs_view(names@) =~= seq![nv]);
        }
        return Ok(names);
    }
    *pos = *pos + 1;
    let a = match get_num(toks, pos) {
        Ok(a) => a,
        Err(e) => {
            return Err(e);
        },
    };
    if !peek_is(toks, *pos, &TokenType::DoubleDot) {
        return Err(Error::msg("expected a bus range"));
    }
    *pos = *pos + 1;
    let b = match get_num(toks, pos) {
        Ok(b) => b,
        Err(e) => {
            return Err(e);
        },
    };
    if !peek_is(toks, *pos, &TokenType::CloseB) {
        return Err(Error::msg("expected the end of the bus range"));
    }
    *pos = *pos + 1;
    let mut names: Vec<String> = Vec::new();
    if a <= b {
        let total = b - a;
        let mut cnt: usize = 0;
        loop
            invariant
                cnt <= total,
                names@.len() == cnt,
                forall|t: int|
                    0 <= t < cnt ==> (#[trigger] names@[t])@ == name@ + dec_digits((a + t) as nat),
            decreases total - cnt,
        {
            let mut pin = name.clone();
            let digits = usize_to_string(a + cnt);
            pin.append(digits.as_str());
            names.push(pin);
            if cnt == total {
                break ;
            }
            cnt = cnt + 1;
        }
    }
    proof {
        assert(strs_view(names@) =~= expand_bus(name@, a as nat, b as nat));
    }
    Ok(names)
}


/// Whether the token under `j` is exactly the given payload-free symbol.
fn peek_sym(toks: &Vec<Token>, j: usize, kind: &TokenType) -> (r: bool)
    requires
        j <= toks@.len(),
        !(kind@ is Identifier),
        !(kind@ is Number),
    ensures
        r == (j < toks@.len() && types_of(hdl_toks_view(toks@))[j as int] == kind@),
{
    proof {
        if j < toks@.len() {
            assert(types_of(hdl_toks_view(toks@))[j as int] == toks@[j as int]@.token_type);
        }
    }
    if j >= toks.len() {
        return false;
    }
    match (&toks[j].token_type, kind) {
        (TokenType::Chip, TokenType::Chip) => true,
        (TokenType::In, TokenType::In) => true,
        (TokenType::Out, TokenType::Out) => true,
        (TokenType::Parts, TokenType::Parts) => true,
        (TokenType::OpenC, TokenType::OpenC) => true,
        (TokenType::CloseC, TokenType::CloseC) => true,
        (TokenType::OpenP, TokenType::OpenP) => true,
        (TokenType::CloseP, TokenType::CloseP) => true,
        (TokenType::OpenB, TokenType::OpenB) => true,
        (TokenType::CloseB, TokenType::CloseB) => true,
        (TokenType::Comma, TokenType::Comma) => true,
        (TokenType::Semicolon, TokenType::Semicolon) => true,
        (TokenType::Equals, TokenType::Equals) => true,
        (TokenType::DoubleDot, TokenType::DoubleDot) => true,
        (TokenType::Colon, TokenType::Colon) => true,
        (TokenType::Unknown, TokenType::Unknown) => true,
        _ => false,
    }
}

/// Whether the token under `j` is an identifier.
fn peek_ident(toks: &Vec<Token>, j: usize) -> (r: bool)
    requires
        j <= toks@.len(),
    ensures
        r == (j < toks@.len() && types_of(hdl_toks_view(toks@))[j as int] is Identifier),
{
    proof {
        if j < toks@.len() {
            assert(types_of(hdl_toks_view(toks@))[j as int] == toks@[j as int]@.token_type);
        }
    }
    if j >= toks.len() {
        return false;
    }
    match &toks[j].token_type {
        TokenType::Identifier(_) => true,
        _ => false,
    }
}

/// Appends all names of `more` onto `acc`.
fn append_strs(acc: &mut Vec<String>, more: &Vec<String>)
    ensures
        strs_view(final(acc)@) == strs_view(old(acc)@) + strs_view(more@),
{
    let mut j: usize = 0;
    while j < more.len()
        invariant
            j <= more@.len(),
            strs_view(acc@) =~= strs_view(old(acc)@) + strs_view(more@).subrange(0, j as int),
        decreases more@.len() - j,
    {
        let ghost prev = acc@;
        acc.push(more[j].clone());
        j = j + 1;
        proof {
            assert(acc@ == prev.push(more@[j - 1]));
            assert(strs_view(acc@) =~= strs_view(prev).push(more@[j - 1]@));
            assert(strs_view(more@).subrange(0, j as int) =~= strs_view(more@).subrange(
                0,
                j - 1,
            ).push(more@[j - 1]@));
            assert(strs_view(acc@) =~= strs_view(old(acc)@) + strs_view(more@).subrange(
                0,
                j as int,
            ));
        }
    }
    proof {
        assert(strs_view(more@).subrange(0, more@.len() as int) =~= strs_view(more@));
        assert(strs_view(acc@) =~= strs_view(old(acc)@) + strs_view(more@));
    }
}

/// Appends all pairs of `more` onto `acc`.
fn append_pairs(acc: &mut Vec<(String, String)>, more: &Vec<(String, String)>)
    ensures
        pairs_view(final(acc)@) == pairs_view(old(acc)@) + pairs_view(more@),
{
    let mut j: usize = 0;
    while j < more.len()
        invariant
            j <= more@.len(),
            pairs_view(acc@) =~= pairs_view(old(acc)@) + pairs_view(more@).subrange(0, j as int),
        decreases more@.len() - j,
    {
        let ghost prev = acc@;
        acc.push((more[j].0.clone(), more[j].1.clone()));
        j = j + 1;
        proof {
            assert(acc@ == prev.push((more@[j - 1].0, more@[j - 1].1)));
            assert(pairs_view(acc@) =~= pairs_view(prev).push(
                (more@[j - 1].0@, more@[j - 1].1@),
            ));
            assert(pairs_view(more@).subrange(0, j as int) =~= pairs_view(more@).subrange(
                0,
                j - 1,
            ).push((more@[j - 1].0@, more@[j - 1].1@)));
            assert(pairs_view(acc@) =~= pairs_view(old(acc)@) + pairs_view(more@).subrange(
                0,
                j as int,
            ));
        }
    }
    proof {
        assert(pairs_view(more@).subrange(0, more@.len() as int) =~= pairs_view(more@));
        assert(pairs_view(acc@) =~= pairs_view(old(acc)@) + pairs_view(more@));
    }
}

/// Reads a comma-separated pin list.
#[verifier::loop_isolation(false)]
pub fn get_names(toks: &Vec<Token>, pos: &mut usize) -> (r: Result<Vec<String>, Error>)
    requires
        *old(pos) <= toks@.len(),
    ensures
        *final(pos) <= toks@.len(),
        match r {
            Ok(names) => pins_spec(types_of(hdl_toks_view(toks@)), *old(pos) as int) == Some(
                (strs_view(names@), *final(pos) as int),
            ) && *old(pos) <= *final(pos),
            Err(_) => pins_spec(types_of(hdl_toks_view(toks@)), *old(pos) as int) is None,
        },
{
    let n_toks = toks.len();
    let ghost tts = types_of(hdl_toks_view(toks@));
    let ghost i0 = *old(pos) as int;
    let mut acc: Vec<String> = Vec::new();
    proof {
        assert(strs_view(acc@) =~= Seq::<Seq<char>>::empty());
    }
    loop
        invariant
            *pos <= toks@.len(),
            i0 <= *pos as int,
            match pins_spec(tts, *pos as int) {
                Some((rest, m)) => pins_spec(tts, i0) == Some((strs_view(acc@) + rest, m)),
                None => pins_spec(tts, i0) is None,
            },
        decreases toks@.len() - *pos,
    {
        let ghost p0 = *pos as int;
        let ghost acc0 = strs_view(acc@);
        let names = match get_name(toks, pos) {
            Ok(names) => names,
            Err(e) => {
                proof {
                    assert(pins_spec(tts, p0) is None);
                }
                return Err(e);
            },
        };
        let ghost got = strs_view(names@);
        append_strs(&mut acc, &names);
        if peek_sym(toks, *pos, &TokenType::Comma) {
            proof {
                match pins_spec(tts, *pos + 1) {
                    Some((rest, m)) => {
                        assert(pins_spec(tts, p0) == Some((got + rest, m)));
                        assert(acc0 + (got + rest) =~= (acc0 + got) + rest);
                    },
                    None => {
                        assert(pins_spec(tts, p0) is None);
                    },
                }
            }
            *pos = *pos + 1;
        } else {
            proof {
                assert(pins_spec(tts, p0) == Some((got, *pos as int)));
                assert(acc0 + got =~= strs_view(acc@));
            }
            return Ok(acc);
        }
    }
}

/// Reads one wiring equation, both sides expanded and zipped.
pub fn get_eq(toks: &Vec<Token>, pos: &mut usize) -> (r: Result<Vec<(String, String)>, Error>)
    requires
        *old(pos) <= toks@.len(),
    ensures
        *final(pos) <= toks@.len(),
        match r {
            Ok(pairs) => eq_spec(types_of(hdl_toks_view(toks@)), *old(pos) as int) == Some(
                (pairs_view(pairs@), *final(pos) as int),
            ) && *old(pos) < *final(pos),
            Err(_) => eq_spec(types_of(hdl_toks_view(toks@)), *old(pos) as int) is None,
        },
{
    let n_toks = toks.len();
    let ghost tts = types_of(hdl_toks_view(toks@));
    let first = match get_name(toks, pos) {
        Ok(v) => v,
        Err(e) => {
            return Err(e);
        },
    };
    if !peek_sym(toks, *pos, &TokenType::Equals) {
        return Err(Error::msg("expected an equals sign"));
    }
    *pos = *pos + 1;
    let second = match get_name(toks, pos) {
        Ok(v) => v,
        Err(e) => {
            return Err(e);
        },
    };
    if first.len() != second.len() {
        return Err(Error::msg("the two sides expand to different widths"));
    }
    let mut pairs: Vec<(String, String)> = Vec::new();
    let mut j: usize = 0;
    while j < first.len()
        invariant
            j <= first@.len(),
            first@.len() == second@.len(),
            pairs@.len() == j,
            forall|t: int|
                0 <= t < j ==> #[trigger] pairs_view(pairs@)[t] == (
                    strs_view(first@)[t],
                    strs_view(second@)[t],
                ),
        decreases first@.len() - j,
    {
        let ghost prev = pairs@;
        pairs.push((first[j].clone(), second[j].clone()));
        j = j + 1;
        proof {
            assert(pairs@ == prev.push((first@[j - 1], second@[j - 1])));
            assert(pairs_view(pairs@) =~= pairs_view(prev).push(
                (first@[j - 1]@, second@[j - 1]@),
            ));
            assert(pairs_view(pairs@)[j - 1] == (first@[j - 1]@, second@[j - 1]@));
            assert(strs_view(first@)[j - 1] == first@[j - 1]@);
            assert(strs_view(second@)[j - 1] == second@[j - 1]@);
        }
    }
    proof {
        assert(pairs_view(pairs@) =~= Seq::new(
            strs_view(first@).len(),
            |t: int| (strs_view(first@)[t], strs_view(second@)[t]),
        ));
    }
    Ok(pairs)
}


/// Reads a comma-separated equation list.
#[verifier::loop_isolation(false)]
fn get_eqs(toks: &Vec<Token>, pos: &mut usize) -> (r: Result<Vec<(String, String)>, Error>)
    requires
        *old(pos) <= toks@.len(),
    ensures
        *final(pos) <= toks@.len(),
        match r {
            Ok(pairs) => eqs_spec(types_of(hdl_toks_view(toks@)), *old(pos) as int) == Some(
                (pairs_view(pairs@), *final(pos) as int),
            ) && *old(pos) <= *final(pos),
            Err(_) => eqs_spec(types_of(hdl_toks_view(toks@)), *old(pos) as int) is None,
        },
{
    let n_toks = toks.len();
    let ghost tts = types_of(hdl_toks_view(toks@));
    let ghost i0 = *old(pos) as int;
    let mut acc: Vec<(String, String)> = Vec::new();
    proof {
        assert(pairs_view(acc@) =~= Seq::<(Seq<char>, Seq<char>)>::empty());
    }
    loop
        invariant
            *pos <= toks@.len(),
            i0 <= *pos as int,
            match eqs_spec(tts, *pos as int) {
                Some((rest, m)) => eqs_spec(tts, i0) == Some((pairs_view(acc@) + rest, m)),
                None => eqs_spec(tts, i0) is None,
            },
        decreases toks@.len() - *pos,
    {
        let ghost p0 = *pos as int;
        let ghost acc0 = pairs_view(acc@);
        let pairs = match get_eq(toks, pos) {
            Ok(v) => v,
            Err(e) => {
                proof {
                    assert(eqs_spec(tts, p0) is None);
                }
                return Err(e);
            },
        };
        let ghost got = pairs_view(pairs@);
        append_pairs(&mut acc, &pairs);
        if peek_sym(toks, *pos, &TokenType::Comma) {
            proof {
                match eqs_spec(tts, *pos + 1) {
                    Some((rest, m)) => {
                        assert(eqs_spec(tts, p0) == Some((got + rest, m)));
                        assert(acc0 + (got + rest) =~= (acc0 + got) + rest);
                    },
                    None => {
                        assert(eqs_spec(tts, p0) is None);
                    },
                }
            }
            *pos = *pos + 1;
        } else {
            proof {
                assert(eqs_spec(tts, p0) == Some((got, *pos as int)));
                assert(acc0 + got =~= pairs_view(acc@));
            }
            return Ok(acc);
        }
    }
}

/// Reads one component instantiation.
#[verifier::loop_isolation(false)]
pub fn get_component(toks: &Vec<Token>, pos: &mut usize) -> (r: Result<ComponentMap, Error>)
    requires
        *old(pos) <= toks@.len(),
    ensures
        *final(pos) <= toks@.len(),
        match r {
            Ok(c) => comp_spec(types_of(hdl_toks_view(toks@)), *old(pos) as int) == Some(
                (c@, *final(pos) as int),
            ) && *old(pos) < *final(pos),
            Err(_) => comp_spec(types_of(hdl_toks_view(toks@)), *old(pos) as int) is None,
        },
{
    let n_toks = toks.len();
    let ghost tts = types_of(hdl_toks_view(toks@));
    let ghost i0 = *old(pos) as int;
    let chip_name = match get_identifier(toks, pos) {
        Ok(name) => name,
        Err(e) => {
            return Err(e);
        },
    };
    if !peek_sym(toks, *pos, &TokenType::OpenP) {
        return Err(Error::msg("expected an opening parenthesis"));
    }
    *pos = *pos + 1;
    let var_map = match get_eqs(toks, pos) {
        Ok(v) => v,
        Err(e) => {
            return Err(e);
        },
    };
    if !peek_sym(toks, *pos, &TokenType::CloseP) {
        return Err(Error::msg("expected a closing parenthesis"));
    }
    if !peek_sym(toks, *pos + 1, &TokenType::Semicolon) {
        return Err(Error::msg("expected a semicolon"));
    }
    *pos = *pos + 2;
    proof {
        let c = ComponentMapV { var_map: pairs_view(var_map@), chip_name: chip_name@ };
        assert(comp_spec(tts, i0) == Some((c, *pos as int)));
    }
    Ok(ComponentMap { var_map, chip_name })
}

/// Reads the component list of a `PARTS:` section.
#[verifier::loop_isolation(false)]
pub fn get_parts(toks: &Vec<Token>, pos: &mut usize) -> (r: Result<Vec<ComponentMap>, Error>)
    requires
        *old(pos) <= toks@.len(),
    ensures
        *final(pos) <= toks@.len(),
        match r {
            Ok(parts) => parts_spec(types_of(hdl_toks_view(toks@)), *old(pos) as int) == Some(
                (comps_view(parts@), *final(pos) as int),
            ) && *old(pos) <= *final(pos),
            Err(_) => parts_spec(types_of(hdl_toks_view(toks@)), *old(pos) as int) is None,
        },
{
    let ghost tts = types_of(hdl_toks_view(toks@));
    let ghost i0 = *old(pos) as int;
    let mut acc: Vec<ComponentMap> = Vec::new();
    proof {
        assert(comps_view(acc@) =~= Seq::<ComponentMapV>::empty());
    }
    loop
        invariant
            *pos <= toks@.len(),
            i0 <= *pos as int,
            match parts_spec(tts, *pos as int) {
                Some((rest, m)) => parts_spec(tts, i0) == Some((comps_view(acc@) + rest, m)),
                None => parts_spec(tts, i0) is None,
            },
        decreases toks@.len() - *pos,
    {
        let ghost p0 = *pos as int;
        let ghost acc0 = comps_view(acc@);
        let c = match get_component(toks, pos) {
            Ok(c) => c,
            Err(e) => {
                proof {
                    assert(parts_spec(tts, p0) is None);
                }
                return Err(e);
            },
        };
        let ghost cv = c@;
        acc.push(c);
        proof {
            assert(comps_view(acc@) =~= acc0.push(cv));
        }
        if peek_ident(toks, *pos) {
            proof {
                match parts_spec(tts, *pos as int) {
                    Some((rest, m)) => {
                        assert(parts_spec(tts, p0) == Some((seq![cv] + rest, m)));
                        assert(acc0 + (seq![cv] + rest) =~= acc0.push(cv) + rest);
                    },
                    None => {
                        assert(parts_spec(tts, p0) is None);
                    },
                }
            }
        } else {
            proof {
                assert(parts_spec(tts, p0) == Some((seq![cv], *pos as int)));
                assert(acc0 + seq![cv] =~= acc0.push(cv));
            }
            return Ok(acc);
        }
    }
}

/// Parses HDL text into chip definitions: each chip's name, its expanded
/// input and output pin lists, and its components with their wiring maps,
/// in source order.  Both sides of every wiring equation must expand to
/// the same width.
#[verifier::loop_isolation(false)]
pub fn parse(code: &str) -> (r: Result<Vec<ChipDef>, Error>)
    ensures
        match r {
            Ok(chips) => hdl_parse_spec(code@) == Some(chips_view(chips@)),
            Err(_) => hdl_parse_spec(code@) is None,
        },
{
    let toks = tokenize(code);
    let ghost tts = types_of(hdl_toks_view(toks@));
    let mut pos: usize = 0;
    let mut acc: Vec<ChipDef> = Vec::new();
    proof {
        assert(chips_view(acc@) =~= Seq::<ChipDefV>::empty());
    }
    loop
        invariant
            pos <= toks@.len(),
            match chips_spec(tts, pos as int) {
                Some((rest, m)) => chips_spec(tts, 0) == Some((chips_view(acc@) + rest, m)),
                None => chips_spec(tts, 0) is None,
            },
        decreases toks@.len() - pos + 1,
    {
        let ghost p0 = pos as int;
        let ghost acc0 = chips_view(acc@);
        let c = match get_chip(&toks, &mut pos) {
            Ok(c) => c,
            Err(e) => {
                proof {
                    assert(chips_spec(tts, p0) is None);
                }
                return Err(e);
            },
        };
        let ghost cv = c@;
        acc.push(c);
        proof {
            assert(chips_view(acc@) =~= acc0.push(cv));
        }
        if pos >= toks.len() {
            proof {
                assert(chips_spec(tts, p0) == Some((seq![cv], pos as int)));
                assert(acc0 + seq![cv] =~= acc0.push(cv));
            }
            return Ok(acc);
        }
        proof {
            match chips_spec(tts, pos as int) {
                Some((rest, m)) => {
                    assert(chips_spec(tts, p0) == Some((seq![cv] + rest, m)));
                    assert(acc0 + (seq![cv] + rest) =~= acc0.push(cv) + rest);
                },
                None => {
                    assert(chips_spec(tts, p0) is None);
                },
            }
        }
    }
}

/// Reads one whole chip definition.
#[verifier::rlimit(100)]
fn get_chip(toks: &Vec<Token>, pos: &mut usize) -> (r: Result<ChipDef, Error>)
    requires
        *old(pos) <= toks@.len(),
    ensures
        *final(pos) <= toks@.len(),
        match r {
            Ok(c) => chip_spec(types_of(hdl_toks_view(toks@)), *old(pos) as int) == Some(
                (c@, *final(pos) as int),
            ) && *old(pos) < *final(pos),
            Err(_) => chip_spec(types_of(hdl_toks_view(toks@)), *old(pos) as int) is None,
        },
{
    let n_toks = toks.len();
    let ghost tts = types_of(hdl_toks_view(toks@));
    let ghost i0 = *old(pos) as int;
    if !peek_sym(toks, *pos, &TokenType::Chip) {
        return Err(Error::msg("expected CHIP"));
    }
    *pos = *pos + 1;
    let name = match get_identifier(toks, pos) {
        Ok(name) => name,
        Err(e) => {
            return Err(e);
        },
    };
    if !peek_sym(toks, *pos, &TokenType::OpenC) {
        return Err(Error::msg("expected an opening brace"));
    }
    *pos = *pos + 1;
    if !peek_sym(toks, *pos, &TokenType::In) {
        return Err(Error::msg("expected IN"));
    }
    *pos = *pos + 1;
    let inputs = match get_names(toks, pos) {
        Ok(v) => v,
        Err(e) => {
            return Err(e);
        },
    };
    if !peek_sym(toks, *pos, &TokenType::Semicolon) {
        return Err(Error::msg("expected a semicolon"));
    }
    *pos = *pos + 1;
    if !peek_sym(toks, *pos, &TokenType::Out) {
        return Err(Error::msg("expected OUT"));
    }
    *pos = *pos + 1;
    let outputs = match get_names(toks, pos) {
        Ok(v) => v,
        Err(e) => {
            return Err(e);
        },
    };
    if !peek_sym(toks, *pos, &TokenType::Semicolon) {
        return Err(Error::msg("expected a semicolon"));
    }
    if !peek_sym(toks, *pos + 1, &TokenType::Parts) {
        return Err(Error::msg("expected PARTS"));
    }
    if !peek_sym(toks, *pos + 2, &TokenType::Colon) {
        return Err(Error::msg("expected a colon"));
    }
    *pos = *pos + 3;
    let parts = match get_parts(toks, pos) {
        Ok(v) => v,
        Err(e) => {
            return Err(e);
        },
    };
    if !peek_sym(toks, *pos, &TokenType::CloseC) {
        return Err(Error::msg("expected a closing brace"));
    }
    *pos = *pos + 1;
    proof {
        let c = ChipDefV {
            name: name@,
            inputs: strs_view(inputs@),
            outputs: strs_view(outputs@),
            parts: comps_view(parts@),
        };
        assert(chip_spec(tts, i0) == Some((c, *pos as int)));
    }
    Ok(ChipDef { name, inputs, outputs, parts })
}

} // verus!
