//! The infix operators of terms.

use crate::ast::{BinOp, BinOpM};
use crate::state::{group_steps, Parser, PS};
use vstd::prelude::*;

verus! {

broadcast use {group_steps, crate::tokens::group_lexer, crate::ast::group_models};

/// The levels of infix operators, the loosest first.
#[derive(Debug, Clone, Copy, PartialEq, Eq, Structural)]
pub enum Level {
    Mset,
    Nat,
    Xor,
    Mult,
    Exp,
    /// The declared associative-commutative symbol of this index.
    Ac(usize),
}

/// The operator of a level, if one comes next.
#[verifier::opaque]
pub open spec fn operator(s: PS, lv: Level) -> (Option<BinOpM>, PS) {
    match lv {
        Level::Mset => {
            let w = s.ws();
            if w.sees("++"@) {
                (Some(BinOpM::Union), w.bump().bump().ws())
            } else if w.peek() == Some('+') && !w.sees("+>"@) {
                (Some(BinOpM::Union), w.bump().ws())
            } else {
                (None, w)
            }
        },
        Level::Nat => {
            let (ok, s1) = s.punct("%+"@);
            if ok {
                (Some(BinOpM::NatPlus), s1)
            } else {
                (None, s1)
            }
        },
        Level::Xor => {
            let (word, s1) = s.kw("XOR"@);
            let (sign, s2) = s1.punct("⊕"@);
            if word {
                (Some(BinOpM::Xor), s1)
            } else if sign {
                (Some(BinOpM::Xor), s2)
            } else {
                (None, s2)
            }
        },
        Level::Mult => {
            let w = s.ws();
            if w.peek() == Some('*') && w.peek_at(1) != Some('}') {
                (Some(BinOpM::Mult), w.bump().ws())
            } else {
                (None, w)
            }
        },
        Level::Exp => {
            let (ok, s1) = s.punct("^"@);
            if ok {
                (Some(BinOpM::Exp), s1)
            } else {
                (None, s1)
            }
        },
        Level::Ac(k) => {
            let f = s.sig.ac_fun_syms[k as int];
            let (ok, s1) = s.kw(f);
            if ok {
                (Some(BinOpM::AcFct(f)), s1)
            } else {
                (None, s1)
            }
        },
    }
}

/// An operator takes at least one character.
pub broadcast proof fn lemma_operator(s: PS, lv: Level)
    ensures
        #![trigger operator(s, lv)]
        operator(s, lv).1 == s.to(operator(s, lv).1.at),
        s.at <= operator(s, lv).1.at,
        s.at <= s.src.len() ==> operator(s, lv).1.at <= s.src.len(),
        operator(s, lv).0 is Some ==> s.at < operator(s, lv).1.at <= s.src.len(),
{
    reveal(operator);
}

impl Parser {
    /// The operator of a level, if one comes next.
    pub fn infix_operator(&mut self, lv: Level) -> (r: Option<BinOp>)
        requires
            old(self).wf(),
            lv matches Level::Ac(k) ==> k < old(self)@.sig.ac_fun_syms.len(),
        ensures
            final(self).wf(),
            (r.deep_view(), final(self)@) == operator(old(self)@, lv),
            old(self)@.past(final(self)@),
    {
        proof {
            reveal(operator);
            reveal_strlit("++");
        }
        match lv {
            Level::Mset => {
                self.skip_ws();
                if self.sees("++") {
                    self.bump();
                    self.bump();
                    self.skip_ws();
                    Some(BinOp::Union)
                } else if self.peek() == Some('+') && !self.sees("+>") {
                    self.bump();
                    self.skip_ws();
                    Some(BinOp::Union)
                } else {
                    None
                }
            },
            Level::Nat => {
                if self.try_punct("%+") {
                    Some(BinOp::NatPlus)
                } else {
                    None
                }
            },
            Level::Xor => {
                if self.try_kw("XOR") || self.try_punct("⊕") {
                    Some(BinOp::Xor)
                } else {
                    None
                }
            },
            Level::Mult => {
                self.skip_ws();
                if self.peek() == Some('*') && self.peek2() != Some('}') {
                    self.bump();
                    self.skip_ws();
                    Some(BinOp::Mult)
                } else {
                    None
                }
            },
            Level::Exp => {
                if self.try_punct("^") {
                    Some(BinOp::Exp)
                } else {
                    None
                }
            },
            Level::Ac(k) => {
                let f = self.sig.ac_fun_syms[k].clone();
                if self.try_kw(&f) {
                    Some(BinOp::AcFct(f))
                } else {
                    None
                }
            },
        }
    }
}

} // verus!
