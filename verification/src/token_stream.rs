//! A generic token stream: a lexed token list walked with `next`, `peek`,
//! `current` and `expect`, with a source span per token for error reports.

use crate::lexer::Error;
use vstd::prelude::*;

verus! {

/// Source position of a token: line number, character offset and length.
#[derive(Debug, Clone, Copy, PartialEq, Eq, Structural)]
pub struct Span {
    pub line: usize,
    pub index: usize,
    pub len: usize,
}

/// What a token type offers the stream: kind equality that ignores
/// payloads, and an exact copy.
pub trait TokenKind: Sized {
    /// Whether two tokens belong to the same variant, payloads ignored.
    spec fn kind_eq_spec(&self, other: &Self) -> bool;

    /// Decides `kind_eq_spec`.
    fn eq_type(&self, other: &Self) -> (r: bool)
        ensures
            r == self.kind_eq_spec(other),
    ;

    /// An exact copy of the token.
    fn dup(&self) -> (r: Self)
        ensures
            r == *self,
    ;
}

/// A lexed token list with a cursor.
pub struct TokenStream<T> {
    pub tokens: Vec<T>,
    pub spans: Vec<Span>,
    pub pos: usize,
}

impl<T: TokenKind> TokenStream<T> {
    /// Well-formedness: one span per token, cursor inside the list or one
    /// past its end.
    pub open spec fn wf(&self) -> bool {
        self.spans@.len() == self.tokens@.len() && self.pos <= self.tokens@.len()
    }

    /// A stream at the start of the given token list.
    pub fn new(tokens: Vec<T>, spans: Vec<Span>) -> (r: Self)
        requires
            spans@.len() == tokens@.len(),
        ensures
            r.wf(),
            r.tokens@ == tokens@,
            r.spans@ == spans@,
            r.pos == 0,
    {
        TokenStream { tokens, spans, pos: 0 }
    }

    /// Consumes and returns the next token, or `None` at the end.
    pub fn next(&mut self) -> (r: Option<T>)
        requires
            old(self).wf(),
        ensures
            final(self).wf(),
            final(self).tokens@ == old(self).tokens@,
            final(self).spans@ == old(self).spans@,
            if old(self).pos < old(self).tokens@.len() {
                r == Some(old(self).tokens@[old(self).pos as int]) && final(self).pos == old(
                    self,
                ).pos + 1
            } else {
                r is None && final(self).pos == old(self).pos
            },
    {
        if self.pos < self.tokens.len() {
            let t = self.tokens[self.pos].dup();
            self.pos = self.pos + 1;
            Some(t)
        } else {
            None
        }
    }

    /// Returns the next token without consuming it.
    pub fn peek(&self) -> (r: Option<T>)
        requires
            self.wf(),
        ensures
            if self.pos < self.tokens@.len() {
                r == Some(self.tokens@[self.pos as int])
            } else {
                r is None
            },
    {
        if self.pos < self.tokens.len() {
            Some(self.tokens[self.pos].dup())
        } else {
            None
        }
    }

    /// Returns the token most recently consumed by `next`.
    pub fn current(&self) -> (r: Option<T>)
        requires
            self.wf(),
        ensures
            if 0 < self.pos {
                r == Some(self.tokens@[self.pos - 1])
            } else {
                r is None
            },
    {
        if 0 < self.pos {
            Some(self.tokens[self.pos - 1].dup())
        } else {
            None
        }
    }

    /// Whether the next token is of the same kind as `kind`.
    pub fn next_is(&self, kind: &T) -> (r: bool)
        requires
            self.wf(),
        ensures
            r == (self.pos < self.tokens@.len() && self.tokens@[self.pos as int].kind_eq_spec(
                kind,
            )),
    {
        if self.pos < self.tokens.len() {
            self.tokens[self.pos].eq_type(kind)
        } else {
            false
        }
    }

    /// Consumes the next token when it is of the same kind as `kind`;
    /// fails, leaving the cursor in place, when it differs or the stream
    /// has ended.
    pub fn expect(&mut self, kind: &T) -> (r: Result<T, Error>)
        requires
            old(self).wf(),
        ensures
            final(self).wf(),
            final(self).tokens@ == old(self).tokens@,
            final(self).spans@ == old(self).spans@,
            match r {
                Ok(t) => old(self).pos < old(self).tokens@.len() && t == old(self).tokens@[old(
                    self,
                ).pos as int] && t.kind_eq_spec(kind) && final(self).pos == old(self).pos + 1,
                Err(_) => final(self).pos == old(self).pos && !(old(self).pos < old(
                    self,
                ).tokens@.len() && old(self).tokens@[old(self).pos as int].kind_eq_spec(kind)),
            },
    {
        if self.pos < self.tokens.len() {
            let t = self.tokens[self.pos].dup();
            if t.eq_type(kind) {
                self.pos = self.pos + 1;
                Ok(t)
            } else {
                let span = self.spans[self.pos];
                Err(Error::at_span(span, "unexpected token"))
            }
        } else {
            Err(Error::eof("unexpected end of file"))
        }
    }


    /// Consumes the next token when it is of the same kind as any entry of
    /// `kinds`; fails, leaving the cursor in place, when none matches or
    /// the stream has ended.
    #[verifier::loop_isolation(false)]
    pub fn expect_multi(&mut self, kinds: &Vec<T>) -> (r: Result<T, Error>)
        requires
            old(self).wf(),
        ensures
            final(self).wf(),
            final(self).tokens@ == old(self).tokens@,
            final(self).spans@ == old(self).spans@,
            match r {
                Ok(t) => old(self).pos < old(self).tokens@.len() && t == old(self).tokens@[old(
                    self,
                ).pos as int] && (exists|k: int|
                    0 <= k < kinds@.len() && t.kind_eq_spec(&kinds@[k])) && final(self).pos == old(
                    self,
                ).pos + 1,
                Err(_) => final(self).pos == old(self).pos && !(old(self).pos < old(
                    self,
                ).tokens@.len() && (exists|k: int|
                    0 <= k < kinds@.len() && old(self).tokens@[old(
                        self,
                    ).pos as int].kind_eq_spec(&kinds@[k]))),
            },
    {
        let n_toks = self.tokens.len();
        if self.pos < n_toks {
            let t = self.tokens[self.pos].dup();
            let mut j: usize = 0;
            while j < kinds.len()
                invariant
                    j <= kinds@.len(),
                    self == old(self),
                    self.pos < n_toks,
                    n_toks == self.tokens@.len(),
                    t == self.tokens@[self.pos as int],
                    forall|k: int| 0 <= k < j ==> !t.kind_eq_spec(&kinds@[k]),
                decreases kinds@.len() - j,
            {
                if t.eq_type(&kinds[j]) {
                    self.pos = self.pos + 1;
                    return Ok(t);
                }
                j = j + 1;
            }
            let span = self.spans[self.pos];
            Err(Error::at_span(span, "unexpected token"))
        } else {
            Err(Error::eof("unexpected end of file"))
        }
    }

    /// An error report at the span of the most recently consumed token.
    pub fn error(&self, msg: &str) -> (r: Error)
        requires
            self.wf(),
    {
        if 0 < self.pos {
            Error::at_span(self.spans[self.pos - 1], msg)
        } else if self.spans.len() > 0 {
            Error::at_span(self.spans[0], msg)
        } else {
            Error::eof(msg)
        }
    }
}

} // verus!
