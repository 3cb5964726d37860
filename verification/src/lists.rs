//! Lists of names and of variables.

use crate::ast::{VarM, VarSpec};
use crate::basics::labels2;
use crate::error::{outcome, ParseError};
use crate::model::{no_items, put};
use crate::state::{group_steps, step, Parser, Step, PS};
use crate::terms::list_end;
use crate::text::quote;
use crate::vars::variable;
use vstd::prelude::*;

verus! {

broadcast use {group_steps, crate::tokens::group_lexer};

/// The names of a list that ends with `close`, behind `acc`.
pub open spec fn more_names(s: PS, acc: Seq<Seq<char>>, close: Seq<char>) -> Step<Seq<Seq<char>>>
    decreases s.rem(),
{
    match s.ident() {
        (Err(e), s1) => (Err(e), s1),
        (Ok(n), s1) => {
            let (more, s2) = s1.punct(","@);
            if more && !s2.at_punct(close) {
                more_names(s2, acc.push(n), close)
            } else {
                list_end(s2, acc.push(n), close)
            }
        },
    }
}

/// A list of names that ends with `close`, behind the opening token.
#[verifier::opaque]
pub open spec fn name_list(s: PS, close: Seq<char>) -> Step<Seq<Seq<char>>> {
    let (empty, s1) = s.punct(close);
    if empty {
        (Ok(Seq::empty()), s1)
    } else {
        more_names(s1, Seq::empty(), close)
    }
}

/// The variables of a list that ends with `close`, behind `acc`.
pub open spec fn more_vars(s: PS, acc: Seq<VarM>, close: Seq<char>) -> Step<Seq<VarM>>
    decreases s.rem(),
{
    match step(s, variable(s)) {
        (Err(e), s1) => (Err(e), s1),
        (Ok(v), s1) => {
            let (more, s2) = s1.punct(","@);
            if more && !s2.at_punct(close) {
                more_vars(s2, acc.push(v), close)
            } else {
                list_end(s2, acc.push(v), close)
            }
        },
    }
}

/// A list of variables that ends with `close`, behind the opening token.
#[verifier::opaque]
pub open spec fn var_list(s: PS, close: Seq<char>) -> Step<Seq<VarM>> {
    let (empty, s1) = s.punct(close);
    if empty {
        (Ok(Seq::empty()), s1)
    } else {
        more_vars(s1, Seq::empty(), close)
    }
}

impl Parser {
    /// A list of names that ends with `close`.
    pub fn sep_end_names(&mut self, close: &str) -> (r: Result<Vec<String>, ParseError>)
        requires
            old(self).wf(),
        ensures
            final(self).wf(),
            (outcome(r), final(self)@) == name_list(old(self)@, close@),
            old(self)@.past(final(self)@),
    {
        proof {
            reveal(name_list);
        }
        let mut v = no_items::<String>();
        if self.try_punct(close) {
            return Ok(v);
        }
        loop
            invariant
                self.wf(),
                old(self)@.past(self@),
                more_names(self@, v.deep_view(), close@) == name_list(old(self)@, close@),
            decreases self@.rem(),
        {
            let n = self.ident()?;
            put(&mut v, n);
            let more = self.try_punct(",");
            if !more || self.peek_punct(close) {
                if self.try_punct(close) {
                    return Ok(v);
                }
                return Err(self.err_expect_after_term(labels2("\",\"", &quote(close))));
            }
        }
    }

    /// A list of variables that ends with `close`.
    pub fn sep_end_vars(&mut self, close: &str) -> (r: Result<Vec<VarSpec>, ParseError>)
        requires
            old(self).wf(),
        ensures
            final(self).wf(),
            (outcome(r), final(self)@) == var_list(old(self)@, close@),
            old(self)@.fwd(final(self)@),
    {
        proof {
            reveal(var_list);
        }
        let mut v = no_items::<VarSpec>();
        if self.try_punct(close) {
            return Ok(v);
        }
        loop
            invariant
                self.wf(),
                old(self)@.fwd(self@),
                more_vars(self@, v.deep_view(), close@) == var_list(old(self)@, close@),
            decreases self@.rem(),
        {
            let x = self.var_spec()?;
            put(&mut v, x);
            let more = self.try_punct(",");
            if !more || self.peek_punct(close) {
                if self.try_punct(close) {
                    return Ok(v);
                }
                return Err(self.err_expect_after_term(labels2("\",\"", &quote(close))));
            }
        }
    }
}

} // verus!
