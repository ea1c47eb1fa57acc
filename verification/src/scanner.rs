//! A cursor over the token sequence with resettable lookahead.
//!
//! The scanner keeps two indices into the same backing sequence: a
//! committed cursor (`pos`) and a lookahead cursor (`look`) that may run
//! ahead of it. [`Scanner::peek`] advances only the lookahead cursor, so
//! the parser can look several tokens ahead; [`Scanner::reset_peek`]
//! rewinds the lookahead to the committed position, and consuming a token
//! with [`Scanner::pop`] or [`Scanner::take`] collapses the lookahead back
//! to the committed cursor.

use vstd::prelude::*;
use vstd::string::StringExecFns;

use crate::error::CompilerStage;
use crate::error::ErrModel;
use crate::error::SyntaxError;
use crate::token::Token;
use crate::token::TokenModel;
use crate::token::kind_eq;
use crate::token::same_kind;

verus! {

/// The mathematical model of a [`Scanner`]: the token models and the two
/// cursors.
pub ghost struct ScannerModel {
    pub tokens: Seq<TokenModel>,
    pub pos: int,
    pub look: int,
}

/// A cursor over a token sequence supporting single-step consumption,
/// exact-match consumption, and multi-token lookahead with explicit reset.
pub struct Scanner {
    tokens: Vec<Token>,
    pos: usize,
    look: usize,
}

impl View for Scanner {
    type V = ScannerModel;

    closed spec fn view(&self) -> ScannerModel {
        ScannerModel {
            tokens: self.tokens.deep_view(),
            pos: self.pos as int,
            look: self.look as int,
        }
    }
}

impl Scanner {
    /// The committed cursor never runs past the lookahead cursor, and the
    /// lookahead cursor never runs past the end of the tokens.
    pub open spec fn wf(&self) -> bool {
        0 <= self@.pos <= self@.look <= self@.tokens.len()
    }

    /// A fresh scanner over the given tokens, both cursors at the start.
    pub fn new(tokens: Vec<Token>) -> (s: Scanner)
        ensures
            s.wf(),
            s@ == (ScannerModel { tokens: tokens.deep_view(), pos: 0, look: 0 }),
    {
        Scanner { tokens, pos: 0, look: 0 }
    }

    /// Returns the token at the lookahead cursor and advances that cursor,
    /// without moving the committed cursor; `None` at end of input.
    pub fn peek(&mut self) -> (r: Option<Token>)
        requires
            old(self).wf(),
        ensures
            final(self).wf(),
            final(self)@.tokens == old(self)@.tokens,
            final(self)@.pos == old(self)@.pos,
            match r {
                Some(t) => old(self)@.look < old(self)@.tokens.len() && t@ == old(
                    self,
                )@.tokens[old(self)@.look] && final(self)@.look == old(self)@.look + 1,
                None => old(self)@.look >= old(self)@.tokens.len() && final(self)@.look == old(
                    self,
                )@.look,
            },
    {
        if self.look < self.tokens.len() {
            let t = self.tokens[self.look].clone();
            self.look = self.look + 1;
            Some(t)
        } else {
            None
        }
    }

    /// Rewinds the lookahead cursor to the committed cursor, discarding
    /// any uncommitted lookahead.
    pub fn reset_peek(&mut self)
        requires
            old(self).wf(),
        ensures
            final(self).wf(),
            final(self)@.tokens == old(self)@.tokens,
            final(self)@.pos == old(self)@.pos,
            final(self)@.look == final(self)@.pos,
    {
        self.look = self.pos;
    }

    /// Consumes and returns the token at the committed cursor, resetting
    /// the lookahead; fails with a parse error carrying `error_message`
    /// when the input is exhausted.
    pub fn pop(&mut self, error_message: &str) -> (r: Result<Token, SyntaxError>)
        requires
            old(self).wf(),
        ensures
            final(self).wf(),
            final(self)@.tokens == old(self)@.tokens,
            final(self)@.look == final(self)@.pos,
            match r {
                Ok(t) => old(self)@.pos < old(self)@.tokens.len() && t@ == old(
                    self,
                )@.tokens[old(self)@.pos] && final(self)@.pos == old(self)@.pos + 1,
                Err(e) => old(self)@.pos >= old(self)@.tokens.len() && final(self)@.pos == old(
                    self,
                )@.pos && e@ == (ErrModel {
                    stage: CompilerStage::Parser,
                    message: error_message@,
                }),
            },
    {
        if self.pos < self.tokens.len() {
            let t = self.tokens[self.pos].clone();
            self.pos = self.pos + 1;
            self.look = self.pos;
            Ok(t)
        } else {
            self.look = self.pos;
            Err(SyntaxError::new_parse_error(String::from_str(error_message)))
        }
    }

    /// Consumes one token and succeeds exactly when it has the same
    /// variant as `token_type` (payloads are not compared); fails with a
    /// parse error carrying `error_message` otherwise, or when the input
    /// is exhausted.
    pub fn take(&mut self, token_type: Token, error_message: &str) -> (r: Result<
        (),
        SyntaxError,
    >)
        requires
            old(self).wf(),
        ensures
            final(self).wf(),
            final(self)@.tokens == old(self)@.tokens,
            final(self)@.look == final(self)@.pos,
            match r {
                Ok(_) => old(self)@.pos < old(self)@.tokens.len() && same_kind(
                    old(self)@.tokens[old(self)@.pos],
                    token_type@,
                ) && final(self)@.pos == old(self)@.pos + 1,
                Err(e) => e@ == (ErrModel {
                    stage: CompilerStage::Parser,
                    message: error_message@,
                }) && (if old(self)@.pos < old(self)@.tokens.len() {
                    !same_kind(old(self)@.tokens[old(self)@.pos], token_type@)
                        && final(self)@.pos == old(self)@.pos + 1
                } else {
                    final(self)@.pos == old(self)@.pos
                }),
            },
    {
        match self.pop(error_message) {
            Ok(t) => {
                if kind_eq(&t, &token_type) {
                    Ok(())
                } else {
                    Err(SyntaxError::new_parse_error(String::from_str(error_message)))
                }
            },
            Err(e) => Err(e),
        }
    }
}

} // verus!
