//! The `.tst` test-script reader: a `load` header with optional output,
//! comparison and output-list clauses, followed by instructions and
//! `repeat` blocks; `set` values are checked against the output list.

use crate::test_script::n2t_cmp::{all_bits, all_digits, bits_of, signed_val, N2tCmp};
use crate::test_script::{dup_out_type, OutType, OutTypeV};
use crate::text::{
    block_comment_end, block_comment_end_exec, chars_to_string, digits_end, digits_end_exec,
    digits_to_usize, digits_val, is_digit, is_digit_exec, line_comment_end, line_comment_end_exec,
    to_chars,
};
use vstd::prelude::*;

verus! {

/// One lexical element of test-script text.
#[derive(Debug, Clone, PartialEq, Eq)]
pub enum Token {
    Comma,
    Semicolon,
    CurlyOpen,
    CurlyClose,
    StringLit(String),
    Word(String),
    Number(usize),
}

/// The mathematical reading of a token.
pub ghost enum TokenV {
    Comma,
    Semicolon,
    CurlyOpen,
    CurlyClose,
    StringLit(Seq<char>),
    Word(Seq<char>),
    Number(nat),
}

impl View for Token {
    type V = TokenV;

    open spec fn view(&self) -> TokenV {
        match self {
            Token::Comma => TokenV::Comma,
            Token::Semicolon => TokenV::Semicolon,
            Token::CurlyOpen => TokenV::CurlyOpen,
            Token::CurlyClose => TokenV::CurlyClose,
            Token::StringLit(s) => TokenV::StringLit(s@),
            Token::Word(s) => TokenV::Word(s@),
            Token::Number(n) => TokenV::Number(*n as nat),
        }
    }
}

/// The views of a token list.
pub open spec fn tst_toks_view(v: Seq<Token>) -> Seq<TokenV> {
    v.map_values(|t: Token| t@)
}

/// One entry of an `output-list` clause: the column name, its display
/// triplet, and its type.
#[derive(Debug, PartialEq, Eq)]
pub struct OutList {
    pub name: String,
    pub triplet: (usize, usize, usize),
    pub out_type: OutType,
}

/// The mathematical reading of an output-list entry.
pub ghost struct OutListV {
    pub name: Seq<char>,
    pub triplet: (nat, nat, nat),
    pub out_type: OutTypeV,
}

impl View for OutList {
    type V = OutListV;

    open spec fn view(&self) -> OutListV {
        OutListV {
            name: self.name@,
            triplet: (self.triplet.0 as nat, self.triplet.1 as nat, self.triplet.2 as nat),
            out_type: self.out_type@,
        }
    }
}

/// The views of an output list.
pub open spec fn out_list_view(v: Seq<OutList>) -> Seq<OutListV> {
    v.map_values(|o: OutList| o@)
}

impl OutList {
    /// An entry from its parts.
    pub fn new(name: &str, triplet: (usize, usize, usize), out_type: OutType) -> (r: Self)
        ensures
            r@.name == name@,
            r@.triplet == (triplet.0 as nat, triplet.1 as nat, triplet.2 as nat),
            r@.out_type == out_type@,
    {
        OutList { name: String::from_str(name), triplet, out_type }
    }
}

/// One test-script instruction.
#[derive(Debug, PartialEq, Eq)]
pub enum Instruction {
    SetVal(String, OutType),
    Tock,
    Tick,
    TickTock,
    Output,
    Eval,
    Echo(String),
    BeginRepeat(Option<usize>),
    EndRepeat,
    EndInstruction,
}

/// The mathematical reading of an instruction.
pub ghost enum InstructionV {
    SetVal(Seq<char>, OutTypeV),
    Tock,
    Tick,
    TickTock,
    Output,
    Eval,
    Echo(Seq<char>),
    BeginRepeat(Option<nat>),
    EndRepeat,
    EndInstruction,
}

impl View for Instruction {
    type V = InstructionV;

    open spec fn view(&self) -> InstructionV {
        match self {
            Instruction::SetVal(name, v) => InstructionV::SetVal(name@, v@),
            Instruction::Tock => InstructionV::Tock,
            Instruction::Tick => InstructionV::Tick,
            Instruction::TickTock => InstructionV::TickTock,
            Instruction::Output => InstructionV::Output,
            Instruction::Eval => InstructionV::Eval,
            Instruction::Echo(s) => InstructionV::Echo(s@),
            Instruction::BeginRepeat(n) => match n {
                Some(k) => InstructionV::BeginRepeat(Some(*k as nat)),
                None => InstructionV::BeginRepeat(None),
            },
            Instruction::EndRepeat => InstructionV::EndRepeat,
            Instruction::EndInstruction => InstructionV::EndInstruction,
        }
    }
}

/// The views of an instruction list.
pub open spec fn instrs_view(v: Seq<Instruction>) -> Seq<InstructionV> {
    v.map_values(|i: Instruction| i@)
}

// ---------------------------------------------------------------------------
// Lexing
// ---------------------------------------------------------------------------

/// Characters that may stand in a bare word: names, paths, output-list
/// specs and signed numbers.
pub open spec fn is_word_char(c: char) -> bool {
    ('a' <= c && c <= 'z') || ('A' <= c && c <= 'Z') || is_digit(c) || c == '_' || c == '$' || c
        == '%' || c == '.' || c == '-' || c == '[' || c == ']'
}

/// First position at or after `i` that does not continue a word.
pub open spec fn word_end(s: Seq<char>, i: int) -> int
    decreases s.len() - i,
    when 0 <= i <= s.len()
{
    if i < s.len() && is_word_char(s[i]) {
        word_end(s, i + 1)
    } else {
        i
    }
}

/// First position at or after `i` holding a double quote, or the end.
pub open spec fn quote_end(s: Seq<char>, i: int) -> int
    decreases s.len() - i,
    when 0 <= i <= s.len()
{
    if i < s.len() && s[i] != '"' {
        quote_end(s, i + 1)
    } else {
        i
    }
}

/// What the test-script lexer does at position `i`.
pub ghost enum TstLexStep {
    Tok(TokenV, int),
    Skip(int),
    End,
    Fail,
}

/// One lexer decision: blanks and both comment forms are skipped, the four
/// punctuation marks stand alone, a quoted run is a string literal, and a
/// word of digits alone is a number.
pub open spec fn tst_lex_step(s: Seq<char>, i: int) -> TstLexStep {
    if i >= s.len() {
        TstLexStep::End
    } else {
        let c = s[i];
        if c == ' ' || c == '\t' || c == '\r' || c == '\n' {
            TstLexStep::Skip(i + 1)
        } else if c == '/' && i + 1 < s.len() && s[i + 1] == '/' {
            TstLexStep::Skip(line_comment_end(s, i + 2))
        } else if c == '/' && i + 1 < s.len() && s[i + 1] == '*' {
            match block_comment_end(s, i + 2) {
                Some(n) => TstLexStep::Skip(n),
                None => TstLexStep::Fail,
            }
        } else if c == ',' {
            TstLexStep::Tok(TokenV::Comma, i + 1)
        } else if c == ';' {
            TstLexStep::Tok(TokenV::Semicolon, i + 1)
        } else if c == '{' {
            TstLexStep::Tok(TokenV::CurlyOpen, i + 1)
        } else if c == '}' {
            TstLexStep::Tok(TokenV::CurlyClose, i + 1)
        } else if c == '"' {
            let e = quote_end(s, i + 1);
            if e < s.len() {
                TstLexStep::Tok(TokenV::StringLit(s.subrange(i + 1, e)), e + 1)
            } else {
                TstLexStep::Fail
            }
        } else if is_digit(c) {
            let e = digits_end(s, i);
            if e < s.len() && is_word_char(s[e]) {
                let w = word_end(s, e);
                TstLexStep::Tok(TokenV::Word(s.subrange(i, w)), w)
            } else if digits_val(s.subrange(i, e)) > usize::MAX {
                TstLexStep::Fail
            } else {
                TstLexStep::Tok(TokenV::Number(digits_val(s.subrange(i, e))), e)
            }
        } else if is_word_char(c) {
            let e = word_end(s, i);
            TstLexStep::Tok(TokenV::Word(s.subrange(i, e)), e)
        } else {
            TstLexStep::Fail
        }
    }
}

/// The token sequence of the text from position `i` on.
pub open spec fn tst_lex_spec(s: Seq<char>, i: int) -> Option<Seq<TokenV>>
    decreases s.len() - i,
    when 0 <= i
{
    match tst_lex_step(s, i) {
        TstLexStep::End => Some(Seq::empty()),
        TstLexStep::Fail => None,
        TstLexStep::Skip(n) => if i < n <= s.len() {
            tst_lex_spec(s, n)
        } else {
            None
        },
        TstLexStep::Tok(t, n) => if i < n <= s.len() {
            match tst_lex_spec(s, n) {
                Some(r) => Some(seq![t] + r),
                None => None,
            }
        } else {
            None
        },
    }
}

fn is_word_char_exec(c: char) -> (r: bool)
    ensures
        r == is_word_char(c),
{
    ('a' <= c && c <= 'z') || ('A' <= c && c <= 'Z') || is_digit_exec(c) || c == '_' || c == '$'
        || c == '%' || c == '.' || c == '-' || c == '[' || c == ']'
}

fn word_end_exec(v: &Vec<char>, i: usize) -> (e: usize)
    requires
        i <= v@.len(),
    ensures
        e == word_end(v@, i as int),
        i <= e <= v@.len(),
{
    let mut j = i;
    while j < v.len() && is_word_char_exec(v[j])
        invariant
            i <= j <= v@.len(),
            word_end(v@, i as int) == word_end(v@, j as int),
        decreases v@.len() - j,
    {
        j = j + 1;
    }
    j
}

fn quote_end_exec(v: &Vec<char>, i: usize) -> (e: usize)
    requires
        i <= v@.len(),
    ensures
        e == quote_end(v@, i as int),
        i <= e <= v@.len(),
{
    let mut j = i;
    while j < v.len() && v[j] != '"'
        invariant
            i <= j <= v@.len(),
            quote_end(v@, i as int) == quote_end(v@, j as int),
        decreases v@.len() - j,
    {
        j = j + 1;
    }
    j
}

/// A word run never ends before it starts.
proof fn lemma_word_end_lb(s: Seq<char>, i: int)
    requires
        0 <= i <= s.len(),
    ensures
        word_end(s, i) >= i,
    decreases s.len() - i,
{
    if i < s.len() && is_word_char(s[i]) {
        lemma_word_end_lb(s, i + 1);
    }
}

/// Lexes test-script text; fails on an unterminated string literal or a
/// character outside the alphabet.
#[verifier::loop_isolation(false)]
pub fn tokenize(code: &str) -> (r: Result<Vec<Token>, String>)
    ensures
        match r {
            Ok(toks) => tst_lex_spec(code@, 0) == Some(tst_toks_view(toks@)),
            Err(_) => tst_lex_spec(code@, 0) is None,
        },
{
    let v = to_chars(code);
    let mut tokens: Vec<Token> = Vec::new();
    let mut i: usize = 0;
    proof {
        assert(tst_toks_view(tokens@) =~= Seq::<TokenV>::empty());
    }
    loop
        invariant
            i <= v@.len(),
            tst_lex_spec(code@, 0) == (match tst_lex_spec(code@, i as int) {
                Some(rest) => Some(tst_toks_view(tokens@) + rest),
                None => None::<Seq<TokenV>>,
            }),
        decreases v@.len() - i,
    {
        let ghost done = tst_toks_view(tokens@);
        if i >= v.len() {
            proof {
                assert(done + Seq::<TokenV>::empty() =~= done);
            }
            return Ok(tokens);
        }
        let c = v[i];
        if c == ' ' || c == '\t' || c == '\r' || c == '\n' {
            i = i + 1;
        } else if c == '/' && i + 1 < v.len() && v[i + 1] == '/' {
            i = line_comment_end_exec(&v, i + 2);
        } else if c == '/' && i + 1 < v.len() && v[i + 1] == '*' {
            match block_comment_end_exec(&v, i + 2) {
                Some(n) => {
                    i = n;
                },
                None => {
                    return Err(String::from_str("an unterminated comment"));
                },
            }
        } else {
            let (tok, n) = if c == ',' {
                (Token::Comma, i + 1)
            } else if c == ';' {
                (Token::Semicolon, i + 1)
            } else if c == '{' {
                (Token::CurlyOpen, i + 1)
            } else if c == '}' {
                (Token::CurlyClose, i + 1)
            } else if c == '"' {
                let e = quote_end_exec(&v, i + 1);
                if e >= v.len() {
                    return Err(String::from_str("an unterminated string"));
                }
                (Token::StringLit(chars_to_string(&v, i + 1, e)), e + 1)
            } else if is_digit_exec(c) {
                let e = digits_end_exec(&v, i);
                proof {
                    assert(digits_end(v@, i as int) == digits_end(v@, i + 1));
                    crate::text::lemma_digits_end_lb(v@, i + 1);
                }
                if e < v.len() && is_word_char_exec(v[e]) {
                    let w = word_end_exec(&v, e);
                    proof {
                        lemma_word_end_lb(v@, e as int);
                    }
                    (Token::Word(chars_to_string(&v, i, w)), w)
                } else {
                    match digits_to_usize(&v, i, e) {
                        Some(num) => (Token::Number(num), e),
                        None => {
                            return Err(String::from_str("a number is out of range"));
                        },
                    }
                }
            } else if is_word_char_exec(c) {
                let e = word_end_exec(&v, i);
                proof {
                    assert(word_end(v@, i as int) == word_end(v@, i + 1));
                    lemma_word_end_lb(v@, i + 1);
                }
                (Token::Word(chars_to_string(&v, i, e)), e)
            } else {
                return Err(String::from_str("an unrecognized character"));
            };
            let ghost tv = tok@;
            tokens.push(tok);
            proof {
                assert(tst_toks_view(tokens@) =~= done.push(tv));
                match tst_lex_spec(code@, n as int) {
                    Some(rest) => {
                        assert(tst_lex_spec(code@, i as int) == Some(seq![tv] + rest));
                        assert(done + (seq![tv] + rest) =~= done.push(tv) + rest);
                    },
                    None => {},
                }
            }
            i = n;
        }
    }
}

// ---------------------------------------------------------------------------
// Parsing
// ---------------------------------------------------------------------------

/// First position at or after `i` in the word holding the given mark, or
/// the end.
pub open spec fn find_mark(s: Seq<char>, i: int, mark: char) -> int
    decreases s.len() - i,
    when 0 <= i <= s.len()
{
    if i < s.len() && s[i] != mark {
        find_mark(s, i + 1, mark)
    } else {
        i
    }
}

/// One output-list entry read from a word `name%<B|D|S>a.b.c`.
pub open spec fn get_out_spec(w: Seq<char>) -> Option<OutListV> {
    let p = find_mark(w, 0, '%');
    if p + 1 >= w.len() {
        None
    } else {
        let t = w[p + 1];
        let ot = if t == 'B' {
            Some(OutTypeV::Binary(Seq::empty()))
        } else if t == 'D' {
            Some(OutTypeV::Decimal(0))
        } else if t == 'S' {
            Some(OutTypeV::Clock((0, false)))
        } else {
            None
        };
        match ot {
            None => None,
            Some(ot) => {
                let d1 = find_mark(w, p + 2, '.');
                if d1 >= w.len() {
                    None
                } else {
                    let d2 = find_mark(w, d1 + 1, '.');
                    if d2 >= w.len() {
                        None
                    } else if find_mark(w, d2 + 1, '.') < w.len() {
                        None
                    } else {
                        let a = w.subrange(p + 2, d1);
                        let b = w.subrange(d1 + 1, d2);
                        let c = w.subrange(d2 + 1, w.len() as int);
                        if a.len() > 0 && b.len() > 0 && c.len() > 0 && all_digits(a)
                            && all_digits(b) && all_digits(c) && digits_val(a) <= usize::MAX
                            && digits_val(b) <= usize::MAX && digits_val(c) <= usize::MAX {
                            Some(
                                OutListV {
                                    name: w.subrange(0, p),
                                    triplet: (digits_val(a), digits_val(b), digits_val(c)),
                                    out_type: ot,
                                },
                            )
                        } else {
                            None
                        }
                    }
                }
            },
        }
    }
}

/// The output-list entries up to the closing semicolon, which is consumed.
pub open spec fn out_list_spec(toks: Seq<TokenV>, i: int) -> Option<(Seq<OutListV>, int)>
    decreases toks.len() - i,
    when 0 <= i
{
    if i >= toks.len() {
        None
    } else {
        match toks[i] {
            TokenV::Semicolon => Some((Seq::empty(), i + 1)),
            TokenV::Word(w) => match get_out_spec(w) {
                None => None,
                Some(o) => match out_list_spec(toks, i + 1) {
                    None => None,
                    Some((rest, n)) => Some((seq![o] + rest, n)),
                },
            },
            _ => None,
        }
    }
}

/// The type bound to a name in the output list, front entries first.
pub open spec fn find_out(ol: Seq<OutListV>, name: Seq<char>) -> Option<OutTypeV>
    decreases ol.len(),
{
    if ol.len() == 0 {
        None
    } else if ol[0].name == name {
        Some(ol[0].out_type)
    } else {
        find_out(ol.drop_first(), name)
    }
}

/// The value of a `set` under the declared type: a bare 0 or 1 or a
/// `%B`-prefixed bit row for a binary column, a possibly signed number for
/// a decimal one; a clock column cannot be set.
pub open spec fn set_value_spec(ot: OutTypeV, toks: Seq<TokenV>, i: int) -> Option<(
    OutTypeV,
    int,
)> {
    if i >= toks.len() {
        None
    } else {
        match ot {
            OutTypeV::Binary(_) => match toks[i] {
                TokenV::Number(n) => if n == 0 {
                    Some((OutTypeV::Binary(seq![false]), i + 1))
                } else if n == 1 {
                    Some((OutTypeV::Binary(seq![true]), i + 1))
                } else {
                    None
                },
                TokenV::Word(w) => if w.len() >= 2 && w[0] == '%' && w[1] == 'B' && all_bits(
                    w.subrange(2, w.len() as int),
                ) {
                    Some((OutTypeV::Binary(bits_of(w.subrange(2, w.len() as int))), i + 1))
                } else {
                    None
                },
                _ => None,
            },
            OutTypeV::Decimal(_) => match toks[i] {
                TokenV::Number(n) => if n <= isize::MAX {
                    Some((OutTypeV::Decimal(n as int), i + 1))
                } else {
                    None
                },
                TokenV::Word(w) => match signed_val(w) {
                    Some(d) => Some((OutTypeV::Decimal(d), i + 1)),
                    None => None,
                },
                _ => None,
            },
            OutTypeV::Clock(_) => None,
        }
    }
}

/// The terminator after an instruction: a comma continues the group, a
/// semicolon ends it and appends `EndInstruction`.
pub open spec fn term_spec(toks: Seq<TokenV>, i: int) -> Option<(bool, int)> {
    if i < toks.len() && toks[i] == TokenV::Comma {
        Some((false, i + 1))
    } else if i < toks.len() && toks[i] == TokenV::Semicolon {
        Some((true, i + 1))
    } else {
        None
    }
}

/// The instruction list from token position `i` on.
pub open spec fn tst_pass(
    toks: Seq<TokenV>,
    i: int,
    ol: Option<Seq<OutListV>>,
    acc: Seq<InstructionV>,
) -> Option<Seq<InstructionV>>
    decreases toks.len() - i, 0nat,
    when 0 <= i
{
    if i >= toks.len() {
        Some(acc)
    } else {
        match toks[i] {
            TokenV::CurlyClose => tst_pass(toks, i + 1, ol, acc.push(InstructionV::EndRepeat)),
            TokenV::Word(w) => {
                if w == "tock"@ {
                    tst_simple(toks, i + 1, ol, acc.push(InstructionV::Tock))
                } else if w == "tick"@ {
                    tst_simple(toks, i + 1, ol, acc.push(InstructionV::Tick))
                } else if w == "ticktock"@ {
                    tst_simple(toks, i + 1, ol, acc.push(InstructionV::TickTock))
                } else if w == "output"@ {
                    tst_simple(toks, i + 1, ol, acc.push(InstructionV::Output))
                } else if w == "eval"@ {
                    tst_simple(toks, i + 1, ol, acc.push(InstructionV::Eval))
                } else if w == "echo"@ {
                    if i + 1 < toks.len() && toks[i + 1] is StringLit {
                        tst_simple(
                            toks,
                            i + 2,
                            ol,
                            acc.push(InstructionV::Echo(toks[i + 1]->StringLit_0)),
                        )
                    } else {
                        None
                    }
                } else if w == "repeat"@ {
                    if i + 1 < toks.len() && toks[i + 1] is Number {
                        if i + 2 < toks.len() && toks[i + 2] == TokenV::CurlyOpen {
                            tst_pass(
                                toks,
                                i + 3,
                                ol,
                                acc.push(
                                    InstructionV::BeginRepeat(Some(toks[i + 1]->Number_0)),
                                ),
                            )
                        } else {
                            None
                        }
                    } else if i + 1 < toks.len() && toks[i + 1] == TokenV::CurlyOpen {
                        tst_pass(toks, i + 2, ol, acc.push(InstructionV::BeginRepeat(None)))
                    } else {
                        None
                    }
                } else if w == "set"@ {
                    if i + 1 < toks.len() && toks[i + 1] is Word {
                        let var = toks[i + 1]->Word_0;
                        match ol {
                            None => None,
                            Some(entries) => match find_out(entries, var) {
                                None => None,
                                Some(ot) => match set_value_spec(ot, toks, i + 2) {
                                    None => None,
                                    Some((val, n)) => if n <= i {
                                        None
                                    } else {
                                        tst_simple(
                                            toks,
                                            n,
                                            ol,
                                            acc.push(InstructionV::SetVal(var, val)),
                                        )
                                    },
                                },
                            },
                        }
                    } else {
                        None
                    }
                } else {
                    None
                }
            },
            _ => None,
        }
    }
}

/// Applies the terminator after an instruction and goes on.
pub open spec fn tst_simple(
    toks: Seq<TokenV>,
    i: int,
    ol: Option<Seq<OutListV>>,
    acc: Seq<InstructionV>,
) -> Option<Seq<InstructionV>>
    decreases toks.len() - i, 1nat,
    when 0 <= i
{
    match term_spec(toks, i) {
        None => None,
        Some((ends, n)) => {
            let acc2 = if ends {
                acc.push(InstructionV::EndInstruction)
            } else {
                acc
            };
            if n <= i {
                None
            } else {
                tst_pass(toks, n, ol, acc2)
            }
        },
    }
}

/// The header of a script: `load f`, either alone with its semicolon or
/// followed by the output file, the comparison file and the output list.
pub open spec fn header_spec(toks: Seq<TokenV>) -> Option<(
    Seq<char>,
    Option<Seq<char>>,
    Option<Seq<char>>,
    Option<Seq<OutListV>>,
    int,
)> {
    if 2 <= toks.len() && toks[0] == TokenV::Word("load"@) && toks[1] is Word {
        let load = toks[1]->Word_0;
        if 2 < toks.len() && toks[2] == TokenV::Comma {
            if 8 <= toks.len() && toks[3] == TokenV::Word("output-file"@) && toks[4] is Word
                && toks[5] == TokenV::Comma && toks[6] == TokenV::Word("compare-to"@)
                && toks[7] is Word && 9 < toks.len() && toks[8] == TokenV::Comma && toks[9]
                == TokenV::Word("output-list"@) {
                match out_list_spec(toks, 10) {
                    None => None,
                    Some((entries, n)) => Some(
                        (load, Some(toks[4]->Word_0), Some(toks[7]->Word_0), Some(entries), n),
                    ),
                }
            } else {
                None
            }
        } else if 2 < toks.len() && toks[2] == TokenV::Semicolon {
            Some((load, None, None, None, 3))
        } else {
            None
        }
    } else {
        None
    }
}

/// What `from_code` returns on a script text.
pub open spec fn tst_spec(s: Seq<char>) -> Option<(
    Seq<char>,
    Option<Seq<char>>,
    Option<Seq<char>>,
    Option<Seq<OutListV>>,
    Seq<InstructionV>,
)> {
    match tst_lex_spec(s, 0) {
        None => None,
        Some(toks) => match header_spec(toks) {
            None => None,
            Some((load, out_file, compare_to, ol, n)) => if n < 0 {
                None
            } else {
                match tst_pass(toks, n, ol, Seq::empty()) {
                    None => None,
                    Some(instrs) => Some((load, out_file, compare_to, ol, instrs)),
                }
            },
        },
    }
}

/// A parsed test script.
#[derive(Debug, PartialEq, Eq)]
pub struct N2tTst {
    pub load: String,
    pub out_file: Option<String>,
    pub compare_to: Option<String>,
    pub out_list: Option<Vec<OutList>>,
    pub instruction: Vec<Instruction>,
    pub out: Option<N2tCmp>,
}

/// The view of an optional name.
pub open spec fn opt_str_view(v: Option<String>) -> Option<Seq<char>> {
    match v {
        Some(s) => Some(s@),
        None => None,
    }
}

/// The view of an optional output list.
pub open spec fn opt_out_list_view(v: Option<Vec<OutList>>) -> Option<Seq<OutListV>> {
    match v {
        Some(entries) => Some(out_list_view(entries@)),
        None => None,
    }
}

impl N2tTst {
    /// A script value from its parts; the comparison slot starts empty.
    pub fn new(
        load: &str,
        out_file: Option<&str>,
        compare_to: Option<&str>,
        out_list: Option<Vec<OutList>>,
        instruction: Vec<Instruction>,
    ) -> (r: Self)
        ensures
            r.load@ == load@,
            opt_str_view(r.out_file) == (match out_file {
                Some(s) => Some(s@),
                None => None::<Seq<char>>,
            }),
            opt_str_view(r.compare_to) == (match compare_to {
                Some(s) => Some(s@),
                None => None::<Seq<char>>,
            }),
            opt_out_list_view(r.out_list) == (match out_list {
                Some(entries) => Some(out_list_view(entries@)),
                None => None::<Seq<OutListV>>,
            }),
            r.instruction@ == instruction@,
            r.out is None,
    {
        let out_file = match out_file {
            Some(v) => Some(String::from_str(v)),
            None => None,
        };
        let compare_to = match compare_to {
            Some(v) => Some(String::from_str(v)),
            None => None,
        };
        N2tTst {
            load: String::from_str(load),
            out_file,
            compare_to,
            out_list,
            instruction,
            out: None,
        }
    }

    /// Reads a test script: the header clauses, the instruction list with
    /// its comma groups and `repeat` blocks, and every `set` checked
    /// against the output list.
    #[verifier::loop_isolation(false)]
    pub fn from_code(code: &str) -> (r: Result<Self, String>)
        ensures
            match r {
                Ok(tst) => tst_spec(code@) == Some(
                    (
                        tst.load@,
                        opt_str_view(tst.out_file),
                        opt_str_view(tst.compare_to),
                        opt_out_list_view(tst.out_list),
                        instrs_view(tst.instruction@),
                    ),
                ) && tst.out is None,
                Err(_) => tst_spec(code@) is None,
            },
    {
        let toks = match tokenize(code) {
            Ok(toks) => toks,
            Err(e) => {
                return Err(e);
            },
        };
        let ghost tv = tst_toks_view(toks@);
        let n_toks = toks.len();
        // Header.
        if n_toks < 2 || !word_is(&toks, 0, "load") {
            proof {
                assert(header_spec(tv) is None);
            }
            return Err(String::from_str("expected load"));
        }
        let load = match &toks[1] {
            Token::Word(s) => s.clone(),
            _ => {
                proof {
                    assert(!(tv[1] is Word));
                }
                return Err(String::from_str("expected a file name after load"));
            },
        };
        let out_file;
        let compare_to;
        let out_list;
        let mut i: usize;
        if n_toks > 2 && tok_is_comma(&toks, 2) {
            if !(n_toks >= 8 && word_is(&toks, 3, "output-file") && tok_is_word(&toks, 4)
                && tok_is_comma(&toks, 5) && word_is(&toks, 6, "compare-to") && tok_is_word(
                &toks,
                7,
            ) && n_toks > 9 && tok_is_comma(&toks, 8) && word_is(&toks, 9, "output-list")) {
                proof {
                    assert(header_spec(tv) is None);
                }
                return Err(String::from_str("a malformed header"));
            }
            out_file = match &toks[4] {
                Token::Word(s) => Some(s.clone()),
                _ => {
                    proof {
                        assert(tv[4] == toks@[4]@);
                        assert(false);
                    }
                    return Err(String::from_str("a malformed header"));
                },
            };
            compare_to = match &toks[7] {
                Token::Word(s) => Some(s.clone()),
                _ => {
                    proof {
                        assert(tv[7] == toks@[7]@);
                        assert(false);
                    }
                    return Err(String::from_str("a malformed header"));
                },
            };
            let (entries, after) = match read_out_list(&toks, 10) {
                Ok(v) => v,
                Err(e) => {
                    proof {
                        assert(header_spec(tv) is None);
                    }
                    return Err(e);
                },
            };
            out_list = Some(entries);
            i = after;
        } else if n_toks > 2 && tok_is_semicolon(&toks, 2) {
            out_file = None;
            compare_to = None;
            out_list = None;
            i = 3;
        } else {
            proof {
                assert(header_spec(tv) is None);
            }
            return Err(String::from_str("a malformed header"));
        }
        let ghost olv = opt_out_list_view(out_list);
        let ghost hdr = header_spec(tv);
        proof {
            assert(hdr == Some(
                (
                    load@,
                    opt_str_view(out_file),
                    opt_str_view(compare_to),
                    olv,
                    i as int,
                ),
            ));
        }
        // Instructions.
        let mut acc: Vec<Instruction> = Vec::new();
        proof {
            assert(instrs_view(acc@) =~= Seq::<InstructionV>::empty());
        }
        while i < n_toks
            invariant
                i <= n_toks,
                tst_pass(tv, hdr->Some_0.4, olv, Seq::empty()) == tst_pass(
                    tv,
                    i as int,
                    olv,
                    instrs_view(acc@),
                ),
            decreases n_toks - i,
        {
            let ghost p0 = i as int;
            let ghost acc0 = instrs_view(acc@);
            match &toks[i] {
                Token::CurlyClose => {
                    acc.push(Instruction::EndRepeat);
                    proof {
                        assert(instrs_view(acc@) =~= acc0.push(InstructionV::EndRepeat));
                    }
                    i = i + 1;
                },
                Token::Word(w) => {
                    let w = w.clone();
                    proof {
                        assert(tv[p0] == TokenV::Word(w@));
                    }
                    if str_eq(&w, "tock") {
                        acc.push(Instruction::Tock);
                        proof {
                            assert(instrs_view(acc@) =~= acc0.push(InstructionV::Tock));
                        }
                        i = match read_term(&toks, i + 1, &mut acc) {
                            Ok(n) => n,
                            Err(e) => {
                                proof {
                                    lemma_cmd_words();
                                    assert(tst_simple(
                                        tv,
                                        p0 + 1,
                                        olv,
                                        acc0.push(InstructionV::Tock),
                                    ) is None);
                                    assert(tst_pass(tv, p0, olv, acc0) == tst_simple(
                                        tv,
                                        p0 + 1,
                                        olv,
                                        acc0.push(InstructionV::Tock),
                                    ));
                                }
                                return Err(e);
                            },
                        };
                        proof {
                            lemma_cmd_words();
                            assert(tst_pass(tv, p0, olv, acc0) == tst_simple(
                                tv,
                                p0 + 1,
                                olv,
                                acc0.push(InstructionV::Tock),
                            ));
                            assert(tst_simple(tv, p0 + 1, olv, acc0.push(InstructionV::Tock))
                                == tst_pass(tv, i as int, olv, instrs_view(acc@)));
                        }
                    } else if str_eq(&w, "tick") {
                        acc.push(Instruction::Tick);
                        proof {
                            assert(instrs_view(acc@) =~= acc0.push(InstructionV::Tick));
                        }
                        i = match read_term(&toks, i + 1, &mut acc) {
                            Ok(n) => n,
                            Err(e) => {
                                proof {
                                    lemma_cmd_words();
                                    assert(tst_simple(
                                        tv,
                                        p0 + 1,
                                        olv,
                                        acc0.push(InstructionV::Tick),
                                    ) is None);
                                    assert(tst_pass(tv, p0, olv, acc0) == tst_simple(
                                        tv,
                                        p0 + 1,
                                        olv,
                                        acc0.push(InstructionV::Tick),
                                    ));
                                }
                                return Err(e);
                            },
                        };
                        proof {
                            lemma_cmd_words();
                            assert(tst_pass(tv, p0, olv, acc0) == tst_simple(
                                tv,
                                p0 + 1,
                                olv,
                                acc0.push(InstructionV::Tick),
                            ));
                            assert(tst_simple(tv, p0 + 1, olv, acc0.push(InstructionV::Tick))
                                == tst_pass(tv, i as int, olv, instrs_view(acc@)));
                        }
                    } else if str_eq(&w, "ticktock") {
                        acc.push(Instruction::TickTock);
                        proof {
                            assert(instrs_view(acc@) =~= acc0.push(InstructionV::TickTock));
                        }
                        i = match read_term(&toks, i + 1, &mut acc) {
                            Ok(n) => n,
                            Err(e) => {
                                proof {
                                    lemma_cmd_words();
                                    assert(tst_simple(
                                        tv,
                                        p0 + 1,
                                        olv,
                                        acc0.push(InstructionV::TickTock),
                                    ) is None);
                                    assert(tst_pass(tv, p0, olv, acc0) == tst_simple(
                                        tv,
                                        p0 + 1,
                                        olv,
                                        acc0.push(InstructionV::TickTock),
                                    ));
                                }
                                return Err(e);
                            },
                        };
                        proof {
                            lemma_cmd_words();
                            assert(tst_pass(tv, p0, olv, acc0) == tst_simple(
                                tv,
                                p0 + 1,
                                olv,
                                acc0.push(InstructionV::TickTock),
                            ));
                            assert(tst_simple(tv, p0 + 1, olv, acc0.push(InstructionV::TickTock))
                                == tst_pass(tv, i as int, olv, instrs_view(acc@)));
                        }
                    } else if str_eq(&w, "output") {
                        acc.push(Instruction::Output);
                        proof {
                            assert(instrs_view(acc@) =~= acc0.push(InstructionV::Output));
                        }
                        i = match read_term(&toks, i + 1, &mut acc) {
                            Ok(n) => n,
                            Err(e) => {
                                proof {
                                    lemma_cmd_words();
                                    assert(tst_simple(
                                        tv,
                                        p0 + 1,
                                        olv,
                                        acc0.push(InstructionV::Output),
                                    ) is None);
                                    assert(tst_pass(tv, p0, olv, acc0) == tst_simple(
                                        tv,
                                        p0 + 1,
                                        olv,
                                        acc0.push(InstructionV::Output),
                                    ));
                                }
                                return Err(e);
                            },
                        };
                        proof {
                            lemma_cmd_words();
                            assert(tst_pass(tv, p0, olv, acc0) == tst_simple(
                                tv,
                                p0 + 1,
                                olv,
                                acc0.push(InstructionV::Output),
                            ));
                            assert(tst_simple(tv, p0 + 1, olv, acc0.push(InstructionV::Output))
                                == tst_pass(tv, i as int, olv, instrs_view(acc@)));
                        }
                    } else if str_eq(&w, "eval") {
                        acc.push(Instruction::Eval);
                        proof {
                            assert(instrs_view(acc@) =~= acc0.push(InstructionV::Eval));
                        }
                        i = match read_term(&toks, i + 1, &mut acc) {
                            Ok(n) => n,
                            Err(e) => {
                                proof {
                                    lemma_cmd_words();
                                    assert(tst_simple(
                                        tv,
                                        p0 + 1,
                                        olv,
                                        acc0.push(InstructionV::Eval),
                                    ) is None);
                                    assert(tst_pass(tv, p0, olv, acc0) == tst_simple(
                                        tv,
                                        p0 + 1,
                                        olv,
                                        acc0.push(InstructionV::Eval),
                                    ));
                                }
                                return Err(e);
                            },
                        };
                        proof {
                            lemma_cmd_words();
                            assert(tst_pass(tv, p0, olv, acc0) == tst_simple(
                                tv,
                                p0 + 1,
                                olv,
                                acc0.push(InstructionV::Eval),
                            ));
                            assert(tst_simple(tv, p0 + 1, olv, acc0.push(InstructionV::Eval))
                                == tst_pass(tv, i as int, olv, instrs_view(acc@)));
                        }
                    } else if str_eq(&w, "echo") {
                        if i + 1 >= n_toks {
                            proof {
                                lemma_cmd_words();
                                assert(tst_pass(tv, p0, olv, acc0) is None);
                            }
                            return Err(String::from_str("expected a string after echo"));
                        }
                        let lit = match &toks[i + 1] {
                            Token::StringLit(s) => s.clone(),
                            _ => {
                                proof {
                                    lemma_cmd_words();
                                    assert(!(tv[i + 1] is StringLit));
                                    assert(tst_pass(tv, p0, olv, acc0) is None);
                                }
                                return Err(String::from_str("expected a string after echo"));
                            },
                        };
                        let ghost litv = lit@;
                        acc.push(Instruction::Echo(lit));
                        proof {
                            assert(instrs_view(acc@) =~= acc0.push(InstructionV::Echo(litv)));
                        }
                        i = match read_term(&toks, i + 2, &mut acc) {
                            Ok(n) => n,
                            Err(e) => {
                                proof {
                                    lemma_cmd_words();
                                    assert(tst_simple(
                                        tv,
                                        p0 + 2,
                                        olv,
                                        acc0.push(InstructionV::Echo(litv)),
                                    ) is None);
                                    assert(tst_pass(tv, p0, olv, acc0) == tst_simple(
                                        tv,
                                        p0 + 2,
                                        olv,
                                        acc0.push(InstructionV::Echo(litv)),
                                    ));
                                }
                                return Err(e);
                            },
                        };
                        proof {
                            lemma_cmd_words();
                            assert(tst_pass(tv, p0, olv, acc0) == tst_simple(
                                tv,
                                p0 + 2,
                                olv,
                                acc0.push(InstructionV::Echo(litv)),
                            ));
                            assert(tst_simple(
                                tv,
                                p0 + 2,
                                olv,
                                acc0.push(InstructionV::Echo(litv)),
                            ) == tst_pass(tv, i as int, olv, instrs_view(acc@)));
                        }
                    } else if str_eq(&w, "repeat") {
                        if i + 1 < n_toks && tok_is_number(&toks, i + 1) {
                            let count = match &toks[i + 1] {
                                Token::Number(n) => *n,
                                _ => 0,
                            };
                            if !(i + 2 < n_toks && tok_is_curly_open(&toks, i + 2)) {
                                proof {
                                    lemma_cmd_words();
                                    assert(tst_pass(tv, p0, olv, acc0) is None);
                                }
                                return Err(String::from_str("expected a block after repeat"));
                            }
                            acc.push(Instruction::BeginRepeat(Some(count)));
                            proof {
                                lemma_cmd_words();
                                assert(instrs_view(acc@) =~= acc0.push(
                                    InstructionV::BeginRepeat(Some(count as nat)),
                                ));
                                assert(tst_pass(tv, p0, olv, acc0) == tst_pass(
                                    tv,
                                    p0 + 3,
                                    olv,
                                    instrs_view(acc@),
                                ));
                            }
                            i = i + 3;
                        } else if i + 1 < n_toks && tok_is_curly_open(&toks, i + 1) {
                            acc.push(Instruction::BeginRepeat(None));
                            proof {
                                lemma_cmd_words();
                                assert(instrs_view(acc@) =~= acc0.push(
                                    InstructionV::BeginRepeat(None),
                                ));
                                assert(tst_pass(tv, p0, olv, acc0) == tst_pass(
                                    tv,
                                    p0 + 2,
                                    olv,
                                    instrs_view(acc@),
                                ));
                            }
                            i = i + 2;
                        } else {
                            proof {
                                lemma_cmd_words();
                                assert(tst_pass(tv, p0, olv, acc0) is None);
                            }
                            return Err(String::from_str("expected a block after repeat"));
                        }
                    } else if str_eq(&w, "set") {
                        if !(i + 1 < n_toks && tok_is_word(&toks, i + 1)) {
                            proof {
                                lemma_cmd_words();
                                assert(tst_pass(tv, p0, olv, acc0) is None);
                            }
                            return Err(String::from_str("expected a name after set"));
                        }
                        let var = match &toks[i + 1] {
                            Token::Word(s) => s.clone(),
                            _ => {
                                return Err(String::from_str("expected a name after set"));
                            },
                        };
                        let ot = match &out_list {
                            Some(entries) => match find_out_exec(entries, &var) {
                                Some(ot) => ot,
                                None => {
                                    proof {
                                        lemma_cmd_words();
                                        assert(tst_pass(tv, p0, olv, acc0) is None);
                                    }
                                    return Err(
                                        String::from_str("the name is not in the output list"),
                                    );
                                },
                            },
                            None => {
                                proof {
                                    lemma_cmd_words();
                                    assert(tst_pass(tv, p0, olv, acc0) is None);
                                }
                                return Err(String::from_str("no output list was supplied"));
                            },
                        };
                        let (val, after) = match set_value_exec(&ot, &toks, i + 2) {
                            Ok(v) => v,
                            Err(e) => {
                                proof {
                                    lemma_cmd_words();
                                    assert(tst_pass(tv, p0, olv, acc0) is None);
                                }
                                return Err(e);
                            },
                        };
                        let ghost varv = var@;
                        let ghost valv = val@;
                        acc.push(Instruction::SetVal(var, val));
                        proof {
                            assert(instrs_view(acc@) =~= acc0.push(
                                InstructionV::SetVal(varv, valv),
                            ));
                        }
                        i = match read_term(&toks, after, &mut acc) {
                            Ok(n) => n,
                            Err(e) => {
                                proof {
                                    lemma_cmd_words();
                                    assert(tst_simple(
                                        tv,
                                        after as int,
                                        olv,
                                        acc0.push(InstructionV::SetVal(varv, valv)),
                                    ) is None);
                                    assert(tst_pass(tv, p0, olv, acc0) == tst_simple(
                                        tv,
                                        after as int,
                                        olv,
                                        acc0.push(InstructionV::SetVal(varv, valv)),
                                    ));
                                }
                                return Err(e);
                            },
                        };
                        proof {
                            lemma_cmd_words();
                            assert(tst_pass(tv, p0, olv, acc0) == tst_simple(
                                tv,
                                after as int,
                                olv,
                                acc0.push(InstructionV::SetVal(varv, valv)),
                            ));
                            assert(tst_simple(
                                tv,
                                after as int,
                                olv,
                                acc0.push(InstructionV::SetVal(varv, valv)),
                            ) == tst_pass(tv, i as int, olv, instrs_view(acc@)));
                        }
                    } else {
                        proof {
                            lemma_cmd_words();
                            assert(tst_pass(tv, p0, olv, acc0) is None);
                        }
                        return Err(String::from_str("an unknown instruction"));
                    }
                },
                _ => {
                    proof {
                        assert(tst_pass(tv, p0, olv, acc0) is None);
                    }
                    return Err(String::from_str("expected an instruction"));
                },
            }
        }
        let result = N2tTst { load, out_file, compare_to, out_list, instruction: acc, out: None };
        Ok(result)
    }
}


/// The eight instruction words are pairwise distinct.
proof fn lemma_cmd_words()
    ensures
        "tock"@ != "tick"@,
        "tock"@ != "ticktock"@,
        "tock"@ != "output"@,
        "tock"@ != "eval"@,
        "tock"@ != "echo"@,
        "tock"@ != "repeat"@,
        "tock"@ != "set"@,
        "tick"@ != "ticktock"@,
        "tick"@ != "output"@,
        "tick"@ != "eval"@,
        "tick"@ != "echo"@,
        "tick"@ != "repeat"@,
        "tick"@ != "set"@,
        "ticktock"@ != "output"@,
        "ticktock"@ != "eval"@,
        "ticktock"@ != "echo"@,
        "ticktock"@ != "repeat"@,
        "ticktock"@ != "set"@,
        "output"@ != "eval"@,
        "output"@ != "echo"@,
        "output"@ != "repeat"@,
        "output"@ != "set"@,
        "eval"@ != "echo"@,
        "eval"@ != "repeat"@,
        "eval"@ != "set"@,
        "echo"@ != "repeat"@,
        "echo"@ != "set"@,
        "repeat"@ != "set"@,
{
    reveal_strlit("tock");
    reveal_strlit("tick");
    reveal_strlit("ticktock");
    reveal_strlit("output");
    reveal_strlit("eval");
    reveal_strlit("echo");
    reveal_strlit("repeat");
    reveal_strlit("set");
    assert(("tock"@).len() == 4 && ("tick"@).len() == 4 && ("ticktock"@).len() == 8 && (
    "output"@).len() == 6 && ("eval"@).len() == 4 && ("echo"@).len() == 4 && ("repeat"@).len()
        == 6 && ("set"@).len() == 3);
    assert(("tock"@)[1] == 'o' && ("tick"@)[1] == 'i');
    assert(("tock"@)[0] == 't' && ("eval"@)[0] == 'e' && ("echo"@)[0] == 'e');
    assert(("tick"@)[0] == 't');
    assert(("eval"@)[1] == 'v' && ("echo"@)[1] == 'c');
    assert(("output"@)[0] == 'o' && ("repeat"@)[0] == 'r');
}

/// Whether the token under `j` is the given bare word.
fn word_is(toks: &Vec<Token>, j: usize, w: &str) -> (r: bool)
    requires
        j < toks@.len(),
    ensures
        r == (tst_toks_view(toks@)[j as int] == TokenV::Word(w@)),
{
    proof {
        assert(tst_toks_view(toks@)[j as int] == toks@[j as int]@);
    }
    match &toks[j] {
        Token::Word(s) => str_eq(s, w),
        _ => false,
    }
}

/// Whether two names hold the same characters.
fn str_eq(a: &String, b: &str) -> (r: bool)
    ensures
        r == (a@ == b@),
{
    let owned = String::from_str(b);
    *a == owned
}

fn tok_is_comma(toks: &Vec<Token>, j: usize) -> (r: bool)
    requires
        j < toks@.len(),
    ensures
        r == (tst_toks_view(toks@)[j as int] == TokenV::Comma),
{
    proof {
        assert(tst_toks_view(toks@)[j as int] == toks@[j as int]@);
    }
    match &toks[j] {
        Token::Comma => true,
        _ => false,
    }
}

fn tok_is_semicolon(toks: &Vec<Token>, j: usize) -> (r: bool)
    requires
        j < toks@.len(),
    ensures
        r == (tst_toks_view(toks@)[j as int] == TokenV::Semicolon),
{
    proof {
        assert(tst_toks_view(toks@)[j as int] == toks@[j as int]@);
    }
    match &toks[j] {
        Token::Semicolon => true,
        _ => false,
    }
}

fn tok_is_curly_open(toks: &Vec<Token>, j: usize) -> (r: bool)
    requires
        j < toks@.len(),
    ensures
        r == (tst_toks_view(toks@)[j as int] == TokenV::CurlyOpen),
{
    proof {
        assert(tst_toks_view(toks@)[j as int] == toks@[j as int]@);
    }
    match &toks[j] {
        Token::CurlyOpen => true,
        _ => false,
    }
}

fn tok_is_word(toks: &Vec<Token>, j: usize) -> (r: bool)
    requires
        j < toks@.len(),
    ensures
        r == (tst_toks_view(toks@)[j as int] is Word),
{
    proof {
        assert(tst_toks_view(toks@)[j as int] == toks@[j as int]@);
    }
    match &toks[j] {
        Token::Word(_) => true,
        _ => false,
    }
}

fn tok_is_number(toks: &Vec<Token>, j: usize) -> (r: bool)
    requires
        j < toks@.len(),
    ensures
        r == (tst_toks_view(toks@)[j as int] is Number),
{
    proof {
        assert(tst_toks_view(toks@)[j as int] == toks@[j as int]@);
    }
    match &toks[j] {
        Token::Number(_) => true,
        _ => false,
    }
}

/// Applies the terminator after an instruction, appending
/// `EndInstruction` on a semicolon.
fn read_term(toks: &Vec<Token>, j: usize, acc: &mut Vec<Instruction>) -> (r: Result<usize, String>)
    requires
        j <= toks@.len(),
    ensures
        match r {
            Ok(n) => {
                &&& j < n <= toks@.len()
                &&& match term_spec(tst_toks_view(toks@), j as int) {
                    Some((ends, m)) => n == m && instrs_view(final(acc)@) == (if ends {
                        instrs_view(old(acc)@).push(InstructionV::EndInstruction)
                    } else {
                        instrs_view(old(acc)@)
                    }),
                    None => false,
                }
            },
            Err(_) => term_spec(tst_toks_view(toks@), j as int) is None && final(acc)@ == old(
                acc,
            )@,
        },
{
    if j >= toks.len() {
        return Err(String::from_str("expected a comma or a semicolon"));
    }
    if tok_is_comma(toks, j) {
        Ok(j + 1)
    } else if tok_is_semicolon(toks, j) {
        let ghost acc0 = instrs_view(acc@);
        acc.push(Instruction::EndInstruction);
        proof {
            assert(instrs_view(acc@) =~= acc0.push(InstructionV::EndInstruction));
        }
        Ok(j + 1)
    } else {
        Err(String::from_str("expected a comma or a semicolon"))
    }
}

/// The type bound to a name in the output list.
fn find_out_exec(entries: &Vec<OutList>, name: &String) -> (r: Option<OutType>)
    ensures
        match r {
            Some(ot) => find_out(out_list_view(entries@), name@) == Some(ot@),
            None => find_out(out_list_view(entries@), name@) is None,
        },
{
    let ghost ev = out_list_view(entries@);
    let mut j: usize = 0;
    proof {
        assert(ev.skip(0) =~= ev);
    }
    while j < entries.len()
        invariant
            j <= entries@.len(),
            ev == out_list_view(entries@),
            ev.len() == entries@.len(),
            forall|t: int| 0 <= t < j ==> (#[trigger] ev[t]).name != name@,
            find_out(ev, name@) == find_out(ev.skip(j as int), name@),
        decreases entries@.len() - j,
    {
        proof {
            assert(ev[j as int] == entries@[j as int]@);
        }
        if entries[j].name == *name {
            proof {
                assert(ev.skip(j as int)[0] == ev[j as int]);
            }
            return Some(dup_out_type(&entries[j].out_type));
        }
        proof {
            assert(ev.skip(j as int).drop_first() =~= ev.skip(j + 1));
        }
        j = j + 1;
    }
    proof {
        assert(ev.skip(j as int) =~= Seq::<OutListV>::empty());
    }
    None
}

/// Reads the value of a `set` under the declared type.
#[verifier::loop_isolation(false)]
fn set_value_exec(ot: &OutType, toks: &Vec<Token>, j: usize) -> (r: Result<
    (OutType, usize),
    String,
>)
    requires
        j <= toks@.len(),
    ensures
        match r {
            Ok((val, n)) => set_value_spec(ot@, tst_toks_view(toks@), j as int) == Some(
                (val@, n as int),
            ) && j < n <= toks@.len(),
            Err(_) => set_value_spec(ot@, tst_toks_view(toks@), j as int) is None,
        },
{
    let ghost tv = tst_toks_view(toks@);
    if j >= toks.len() {
        return Err(String::from_str("expected a value"));
    }
    proof {
        assert(tv[j as int] == toks@[j as int]@);
    }
    match ot {
        OutType::Binary(_) => {
            match &toks[j] {
                Token::Number(n) => {
                    if *n == 0 {
                        let mut bits: Vec<bool> = Vec::new();
                        bits.push(false);
                        proof {
                            assert(bits@ =~= seq![false]);
                        }
                        Ok((OutType::Binary(bits), j + 1))
                    } else if *n == 1 {
                        let mut bits: Vec<bool> = Vec::new();
                        bits.push(true);
                        proof {
                            assert(bits@ =~= seq![true]);
                        }
                        Ok((OutType::Binary(bits), j + 1))
                    } else {
                        Err(String::from_str("not a binary value"))
                    }
                },
                Token::Word(w) => {
                    let chars = to_chars(w.as_str());
                    let n_chars = chars.len();
                    if !(n_chars >= 2 && chars[0] == '%' && chars[1] == 'B') {
                        return Err(String::from_str("a binary value must start with %B"));
                    }
                    let ghost rest = w@.subrange(2, w@.len() as int);
                    let mut bits: Vec<bool> = Vec::new();
                    let mut k: usize = 2;
                    while k < n_chars
                        invariant
                            2 <= k <= n_chars,
                            n_chars == chars@.len(),
                            chars@ == w@,
                            bits@.len() == k - 2,
                            forall|t: int|
                                2 <= t < k ==> (chars@[t] == '0' || chars@[t] == '1') && bits@[t
                                    - 2] == (chars@[t] == '1'),
                        decreases n_chars - k,
                    {
                        let c = chars[k];
                        if c == '0' {
                            bits.push(false);
                        } else if c == '1' {
                            bits.push(true);
                        } else {
                            proof {
                                assert(rest[k - 2] == chars@[k as int]);
                                assert(!all_bits(rest));
                            }
                            return Err(String::from_str("not a binary value"));
                        }
                        k = k + 1;
                    }
                    proof {
                        assert(all_bits(rest));
                        assert(bits@ =~= bits_of(rest));
                    }
                    Ok((OutType::Binary(bits), j + 1))
                },
                _ => Err(String::from_str("not a binary value")),
            }
        },
        OutType::Decimal(_) => {
            match &toks[j] {
                Token::Number(n) => {
                    if *n > isize::MAX as usize {
                        return Err(String::from_str("a decimal value is out of range"));
                    }
                    Ok((OutType::Decimal(*n as isize), j + 1))
                },
                Token::Word(w) => {
                    let chars = to_chars(w.as_str());
                    let n_chars = chars.len();
                    let neg = n_chars > 0 && chars[0] == '-';
                    let start: usize = if neg {
                        1
                    } else {
                        0
                    };
                    let ghost mag = if neg {
                        w@.drop_first()
                    } else {
                        w@
                    };
                    proof {
                        assert(mag =~= chars@.subrange(start as int, n_chars as int));
                    }
                    if start >= n_chars {
                        return Err(String::from_str("not a decimal value"));
                    }
                    let mut k: usize = start;
                    while k < n_chars
                        invariant
                            start <= k <= n_chars,
                            forall|t: int| start <= t < k ==> is_digit(#[trigger] chars@[t]),
                        decreases n_chars - k,
                    {
                        if !is_digit_exec(chars[k]) {
                            proof {
                                assert(mag[k - start] == chars@[k as int]);
                                assert(!all_digits(mag));
                            }
                            return Err(String::from_str("not a decimal value"));
                        }
                        k = k + 1;
                    }
                    proof {
                        assert(all_digits(mag));
                    }
                    let num = match digits_to_usize(&chars, start, n_chars) {
                        Some(num) => num,
                        None => {
                            return Err(String::from_str("a decimal value is out of range"));
                        },
                    };
                    if neg {
                        if num > (isize::MAX as usize) + 1 {
                            return Err(String::from_str("a decimal value is out of range"));
                        }
                        let d: isize = if num == (isize::MAX as usize) + 1 {
                            isize::MIN
                        } else {
                            -(num as isize)
                        };
                        Ok((OutType::Decimal(d), j + 1))
                    } else {
                        if num > isize::MAX as usize {
                            return Err(String::from_str("a decimal value is out of range"));
                        }
                        Ok((OutType::Decimal(num as isize), j + 1))
                    }
                },
                _ => Err(String::from_str("not a decimal value")),
            }
        },
        OutType::Clock(_) => Err(String::from_str("a clock column cannot be set")),
    }
}

/// Reads one output-list entry from a word.
#[verifier::loop_isolation(false)]
fn get_out_exec(w: &String) -> (r: Result<OutList, String>)
    ensures
        match r {
            Ok(o) => get_out_spec(w@) == Some(o@),
            Err(_) => get_out_spec(w@) is None,
        },
{
    let chars = to_chars(w.as_str());
    let n = chars.len();
    let p = find_mark_exec(&chars, 0, '%');
    if (p as u128) + 1 >= (n as u128) {
        return Err(String::from_str("an output-list entry has no type"));
    }
    let t = chars[p + 1];
    let out_type = if t == 'B' {
        OutType::Binary(Vec::new())
    } else if t == 'D' {
        OutType::Decimal(0)
    } else if t == 'S' {
        OutType::Clock((0, false))
    } else {
        return Err(String::from_str("an output-list entry has an unknown type"));
    };
    proof {
        assert(out_type@ == (if t == 'B' {
            OutTypeV::Binary(Seq::<bool>::empty())
        } else if t == 'D' {
            OutTypeV::Decimal(0)
        } else {
            OutTypeV::Clock((0nat, false))
        }));
    }
    let d1 = find_mark_exec(&chars, p + 2, '.');
    if d1 >= n {
        return Err(String::from_str("an output-list entry has no display triplet"));
    }
    let d2 = find_mark_exec(&chars, d1 + 1, '.');
    if d2 >= n {
        return Err(String::from_str("an output-list entry has no display triplet"));
    }
    if find_mark_exec(&chars, d2 + 1, '.') < n {
        return Err(String::from_str("an output-list entry has too many triplet parts"));
    }
    let a = match read_digits(&chars, p + 2, d1) {
        Some(v) => v,
        None => {
            return Err(String::from_str("a display triplet part is not a number"));
        },
    };
    let b = match read_digits(&chars, d1 + 1, d2) {
        Some(v) => v,
        None => {
            return Err(String::from_str("a display triplet part is not a number"));
        },
    };
    let c = match read_digits(&chars, d2 + 1, n) {
        Some(v) => v,
        None => {
            return Err(String::from_str("a display triplet part is not a number"));
        },
    };
    let name = chars_to_string(&chars, 0, p);
    Ok(OutList { name, triplet: (a, b, c), out_type })
}

/// The value of a non-empty all-digit run, when it fits.
fn read_digits(v: &Vec<char>, from: usize, to: usize) -> (r: Option<usize>)
    requires
        from <= to <= v@.len(),
    ensures
        match r {
            Some(n) => {
                let part = v@.subrange(from as int, to as int);
                part.len() > 0 && all_digits(part) && digits_val(part) <= usize::MAX && n as nat
                    == digits_val(part)
            },
            None => {
                let part = v@.subrange(from as int, to as int);
                !(part.len() > 0 && all_digits(part) && digits_val(part) <= usize::MAX)
            },
        },
{
    let ghost part = v@.subrange(from as int, to as int);
    if from >= to {
        return None;
    }
    let mut k: usize = from;
    while k < to
        invariant
            from <= k <= to <= v@.len(),
            part == v@.subrange(from as int, to as int),
            forall|t: int| from <= t < k ==> is_digit(#[trigger] v@[t]),
        decreases to - k,
    {
        if !is_digit_exec(v[k]) {
            proof {
                assert(part[k - from] == v@[k as int]);
                assert(!all_digits(part));
            }
            return None;
        }
        k = k + 1;
    }
    proof {
        assert(all_digits(part));
    }
    crate::text::digits_to_usize(v, from, to)
}

/// First position at or after `i` holding the mark, or the end.
fn find_mark_exec(v: &Vec<char>, i: usize, mark: char) -> (e: usize)
    requires
        i <= v@.len(),
    ensures
        e == find_mark(v@, i as int, mark),
        i <= e <= v@.len(),
{
    let mut j = i;
    while j < v.len() && v[j] != mark
        invariant
            i <= j <= v@.len(),
            find_mark(v@, i as int, mark) == find_mark(v@, j as int, mark),
        decreases v@.len() - j,
    {
        j = j + 1;
    }
    j
}

/// An output list always ends past where it starts.
proof fn lemma_out_list_lb(toks: Seq<TokenV>, i: int)
    requires
        0 <= i,
        out_list_spec(toks, i) is Some,
    ensures
        out_list_spec(toks, i)->Some_0.1 > i,
    decreases toks.len() - i,
{
    if i < toks.len() {
        match toks[i] {
            TokenV::Word(w) => {
                lemma_out_list_lb(toks, i + 1);
            },
            _ => {},
        }
    }
}

/// Reads the output-list entries up to their closing semicolon.
#[verifier::loop_isolation(false)]
fn read_out_list(toks: &Vec<Token>, from: usize) -> (r: Result<(Vec<OutList>, usize), String>)
    requires
        from <= toks@.len(),
    ensures
        match r {
            Ok((entries, n)) => out_list_spec(tst_toks_view(toks@), from as int) == Some(
                (out_list_view(entries@), n as int),
            ) && from < n <= toks@.len(),
            Err(_) => out_list_spec(tst_toks_view(toks@), from as int) is None,
        },
{
    let ghost tv = tst_toks_view(toks@);
    let n_toks = toks.len();
    let mut acc: Vec<OutList> = Vec::new();
    let mut j = from;
    proof {
        assert(out_list_view(acc@) =~= Seq::<OutListV>::empty());
        match out_list_spec(tv, from as int) {
            Some((rest, m)) => {
                lemma_out_list_lb(tv, from as int);
                assert(Seq::<OutListV>::empty() + rest =~= rest);
            },
            None => {},
        }
    }
    loop
        invariant
            from <= j <= n_toks,
            match out_list_spec(tv, j as int) {
                Some((rest, m)) => out_list_spec(tv, from as int) == Some(
                    (out_list_view(acc@) + rest, m),
                ) && from < m,
                None => out_list_spec(tv, from as int) is None,
            },
        decreases n_toks - j,
    {
        let ghost acc0 = out_list_view(acc@);
        if j >= n_toks {
            return Err(String::from_str("an unterminated output list"));
        }
        proof {
            assert(tv[j as int] == toks@[j as int]@);
        }
        match &toks[j] {
            Token::Semicolon => {
                proof {
                    assert(out_list_spec(tv, j as int) == Some(
                        (Seq::<OutListV>::empty(), j + 1),
                    ));
                    assert(acc0 + Seq::<OutListV>::empty() =~= acc0);
                }
                return Ok((acc, j + 1));
            },
            Token::Word(w) => {
                let entry = match get_out_exec(w) {
                    Ok(entry) => entry,
                    Err(e) => {
                        return Err(e);
                    },
                };
                let ghost entryv = entry@;
                acc.push(entry);
                proof {
                    assert(out_list_view(acc@) =~= acc0.push(entryv));
                    match out_list_spec(tv, j + 1) {
                        Some((rest, m)) => {
                            assert(out_list_spec(tv, j as int) == Some((seq![entryv] + rest, m)));
                            assert(acc0 + (seq![entryv] + rest) =~= acc0.push(entryv) + rest);
                        },
                        None => {},
                    }
                }
                j = j + 1;
            },
            _ => {
                return Err(String::from_str("an unexpected token in the output list"));
            },
        }
    }
}

} // verus!
