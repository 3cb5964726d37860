//! The attributes of rules.

use crate::ast::{RuleAttr, RuleAttrM};
use crate::lexer::{position_of, Pos};
use crate::basics::{labels1, labels2, labels3};
use crate::error::{outcome, Message, MessageM, ParseError};
use crate::model::{no_items, one_item, put, put_all};
use crate::state::{group_steps, Parser, Step, PS};
use crate::text::{ascii_hex, is_hex_digit, string_of};
use crate::tokens::foreign_at;
use vstd::prelude::*;

verus! {

broadcast use {group_steps, crate::tokens::group_lexer};

/// End of the run of hexadecimal digits at `i`.
pub open spec fn hex_end(src: Seq<char>, i: int) -> int
    decreases src.len() - i,
{
    if 0 <= i < src.len() && ascii_hex(src[i]) {
        hex_end(src, i + 1)
    } else {
        i
    }
}

pub broadcast proof fn lemma_hex_end(src: Seq<char>, i: int)
    ensures
        i <= #[trigger] hex_end(src, i),
        i <= src.len() ==> hex_end(src, i) <= src.len(),
    decreases src.len() - i,
{
    if 0 <= i < src.len() && ascii_hex(src[i]) {
        lemma_hex_end(src, i + 1);
    }
}

/// What a colour could have started with.
pub open spec fn color_labels(quote: bool, hash: bool) -> Seq<Seq<char>> {
    if hash {
        seq!["hexadecimal digit"@]
    } else if quote {
        seq!["\"#\""@, "hexadecimal digit"@]
    } else {
        seq!["\"'\""@, "\"#\""@, "hexadecimal digit"@]
    }
}

/// The colour `code` that was read up to `s`: it has six digits.
#[verifier::opaque]
pub open spec fn color_of(s: PS, code: Seq<char>, quote: bool) -> Step<Seq<char>> {
    let w = s.ws();
    if code.len() != 6 {
        let m = MessageM::Message(
            "Color code \""@ + code + "\" could not be parsed to RGB"@,
        );
        (
            Err(
                w.error(
                    if !quote && w.at == s.at {
                        seq![
                            MessageM::SysUnExpect(w.token()),
                            MessageM::Expect("hexadecimal digit"@),
                            m,
                        ]
                    } else {
                        seq![MessageM::SysUnExpect(w.token()), m]
                    },
                ),
            ),
            w,
        )
    } else {
        (Ok(code), w)
    }
}

/// A colour: hexadecimal digits with a hash before them or not, quoted or not.
#[verifier::opaque]
pub open spec fn color(s: PS) -> Step<Seq<char>> {
    let (quote, s1) = s.ws().eat("'"@);
    let (hash, s2) = s1.eat("#"@);
    let e = hex_end(s.src, s2.at);
    let code = s.src.subrange(s2.at, e);
    let s3 = s2.to(e);
    if code.len() == 0 {
        s3.fail_expect(color_labels(quote, hash))
    } else if quote {
        let (close, s4) = s3.eat("'"@);
        if close {
            color_of(s4, code, true)
        } else {
            s3.fail_expect(seq!["hexadecimal digit"@, "\"'\""@])
        }
    } else {
        color_of(s3, code, false)
    }
}

/// A string between double or single quotes.
#[verifier::opaque]
pub open spec fn quoted_value(s: PS) -> Step<Seq<char>> {
    let w = s.ws();
    match w.literal() {
        (Some(x), s1) => (Ok(x), s1),
        (None, _) => match w.quoted() {
            (Some(x), s1) => (Ok(x), s1),
            (None, _) => (Err(w.err("expected quoted string"@)), w),
        },
    }
}

/// The bracket that closes what `c` opens.
pub open spec fn closing(c: char) -> Option<char> {
    if c == '"' {
        Some('"')
    } else if c == '\'' {
        Some('\'')
    } else if c == '(' {
        Some(')')
    } else if c == '[' {
        Some(']')
    } else if c == '{' {
        Some('}')
    } else if c == '|' {
        Some('|')
    } else if c == '<' {
        Some('>')
    } else {
        None
    }
}

/// The first position from `i` on that holds one of two characters.
pub open spec fn first_of(src: Seq<char>, i: int, l: char, r: char) -> int
    decreases src.len() - i,
{
    if 0 <= i < src.len() && src[i] != l && src[i] != r {
        first_of(src, i + 1, l, r)
    } else {
        i
    }
}

pub proof fn lemma_first_of(src: Seq<char>, i: int, l: char, r: char)
    ensures
        i <= first_of(src, i, l, r),
        i <= src.len() ==> first_of(src, i, l, r) <= src.len(),
    decreases src.len() - i,
{
    if 0 <= i < src.len() && src[i] != l && src[i] != r {
        lemma_first_of(src, i + 1, l, r);
    }
}

/// The text between brackets that do not nest, behind the opening one.
#[verifier::opaque]
pub open spec fn between(s: PS, l: char, r: char) -> Step<Seq<char>> {
    let e = first_of(s.src, s.at, l, r);
    let s1 = s.to(e);
    if s1.peek() == Some(r) {
        (Ok(s.src.subrange(s.at, e)), s1.bump().ws())
    } else {
        (Err(s1.err("unterminated bracketed value"@)), s1)
    }
}

/// A text between brackets, or an identifier.
#[verifier::opaque]
pub open spec fn bracketed_value(s: PS) -> Step<Seq<char>> {
    let w = s.ws();
    match w.peek() {
        Some(c) => match closing(c) {
            Some(r) => between(w.bump(), c, r),
            None => w.ident(),
        },
        None => w.ident(),
    }
}

/// The attribute of another tool, if one comes next.
#[verifier::opaque]
pub open spec fn foreign_attr(s: PS) -> Step<Option<Seq<RuleAttrM>>> {
    match foreign_at(s.src, s.at) {
        Some((name, e)) => {
            let (eq, s1) = s.to(e).punct("="@);
            if eq {
                match bracketed_value(s1) {
                    (Err(e), s2) => (Err(e), s2),
                    (Ok(v), s2) => (Ok(Some(seq![RuleAttrM::External(name, Some(v))])), s2),
                }
            } else {
                (Ok(Some(seq![RuleAttrM::External(name, None)])), s1)
            }
        },
        None => (Ok(None), s),
    }
}

/// The attributes that one entry of the list stands for, if one comes next:
/// the entry `process` stands for none.
#[verifier::opaque]
pub open spec fn rule_attr(s: PS) -> Step<Option<Seq<RuleAttrM>>> {
    let w = s.ws();
    let (colour, c1) = w.kw("colour"@);
    let (color, c2) = w.kw("color"@);
    let (process, s2) = w.kw("process"@);
    let (no_check, s3) = w.kw("no_derivcheck"@);
    let (role, s4) = w.kw("role"@);
    let (sapic, s5) = w.kw("issapicrule"@);
    if colour || color {
        match (if colour { c1 } else { c2 }).need("="@) {
            (Err(e), t) => (Err(e), t),
            (Ok(_), t) => match self::color(t) {
                (Err(e), u) => (Err(e), u),
                (Ok(c), u) => (Ok(Some(seq![RuleAttrM::Color(c)])), u),
            },
        }
    } else if process {
        match s2.need("="@) {
            (Err(e), t) => (Err(e), t),
            (Ok(_), t) => match bracketed_value(t) {
                (Err(e), u) => (Err(e), u),
                (Ok(_), u) => (Ok(Some(Seq::empty())), u),
            },
        }
    } else if no_check {
        (Ok(Some(seq![RuleAttrM::NoDerivCheck])), s3)
    } else if role {
        match s4.need("="@) {
            (Err(e), t) => (Err(e), t),
            (Ok(_), t) => match quoted_value(t) {
                (Err(e), u) => (Err(e), u),
                (Ok(r), u) => (Ok(Some(seq![RuleAttrM::Role(r)])), u),
            },
        }
    } else if sapic {
        (Ok(Some(seq![RuleAttrM::IsSapicRule])), s5)
    } else {
        foreign_attr(w)
    }
}

/// The rest of the list behind `acc`.
pub open spec fn more_rule_attrs(s: PS, acc: Seq<RuleAttrM>) -> Step<Seq<RuleAttrM>>
    decreases s.rem(),
{
    match rule_attr(s) {
        (Err(e), s1) => (Err(e), s1),
        (Ok(None), s1) => rule_attrs_end(s1, acc),
        (Ok(Some(v)), s1) => {
            let (more, s2) = s1.punct(","@);
            if more && s.past(s1) {
                more_rule_attrs(s2, acc + v)
            } else {
                rule_attrs_end(s2, acc + v)
            }
        },
    }
}

pub open spec fn rule_attrs_end(s: PS, all: Seq<RuleAttrM>) -> Step<Seq<RuleAttrM>> {
    match s.need("]"@) {
        (Ok(_), s1) => (Ok(all), s1),
        (Err(e), s1) => (Err(e), s1),
    }
}

/// The attributes of a rule.
#[verifier::opaque]
pub open spec fn rule_attrs(s: PS) -> Step<Seq<RuleAttrM>> {
    let (open, s1) = s.punct("["@);
    if open {
        more_rule_attrs(s1, Seq::empty())
    } else {
        (Ok(Seq::empty()), s1)
    }
}

fn close_of(c: char) -> (r: Option<char>)
    ensures
        r == closing(c),
{
    if c == '"' {
        Some('"')
    } else if c == '\'' {
        Some('\'')
    } else if c == '(' {
        Some(')')
    } else if c == '[' {
        Some(']')
    } else if c == '{' {
        Some('}')
    } else if c == '|' {
        Some('|')
    } else if c == '<' {
        Some('>')
    } else {
        None
    }
}

impl Parser {
    /// The text from `from` up to here.
    pub fn text_from(&self, from: Pos) -> (r: String)
        requires
            self.wf(),
            position_of(self@.src, from),
            from.at <= self@.at,
        ensures
            r@ == self@.src.subrange(from.at as int, self@.at),
    {
        string_of(&self.lx.src, from.at, self.lx.pos.at)
    }

    fn check_color(&mut self, code: String, quote: bool) -> (r: Result<String, ParseError>)
        requires
            old(self).wf(),
        ensures
            final(self).wf(),
            (outcome(r), final(self)@) == color_of(old(self)@, code@, quote),
            old(self)@.past(final(self)@),
    {
        proof {
            reveal(color_of);
        }
        let before = self.save();
        self.skip_ws();
        let n: usize = crate::text::chars_of(&code).len();
        if n == 6 {
            return Ok(code);
        }
        let pending = !quote && self.save().at == before.at;
        let mut v = one_item(Message::SysUnExpect(self.unexpected_token()));
        if pending {
            put(&mut v, Message::Expect("hexadecimal digit".to_string()));
        }
        let mut m = "Color code \"".to_string();
        m.push_str(&code);
        m.push_str("\" could not be parsed to RGB");
        let ghost text = m@;
        put(&mut v, Message::Message(m));
        assert(pending ==> v.deep_view() =~= seq![
            MessageM::SysUnExpect(self@.token()),
            MessageM::Expect("hexadecimal digit"@),
            MessageM::Message(text),
        ]);
        assert(!pending ==> v.deep_view() =~= seq![
            MessageM::SysUnExpect(self@.token()),
            MessageM::Message(text),
        ]);
        Err(self.error_here(v))
    }

    fn color_attr_value(&mut self) -> (r: Result<String, ParseError>)
        requires
            old(self).wf(),
        ensures
            final(self).wf(),
            (outcome(r), final(self)@) == color(old(self)@),
            old(self)@.past(final(self)@),
    {
        proof {
            reveal(color);
        }
        self.skip_ws();
        let quote = self.eat_str("'");
        let hash = self.eat_str("#");
        let start = self.save();
        let ghost e = hex_end(self@.src, self@.at);
        loop
            invariant_except_break
                self.wf(),
                old(self)@.past(self@),
                start.at <= self@.at,
                position_of(self@.src, start),
                hex_end(self@.src, self@.at) == e,
            ensures
                self.wf(),
                old(self)@.past(self@),
                start.at <= self@.at,
                position_of(self@.src, start),
                self@.at == e,
            decreases self@.rem(),
        {
            match self.peek() {
                Some(c) => {
                    if !is_hex_digit(c) {
                        break;
                    }
                    self.bump();
                },
                None => {
                    break;
                },
            }
        }
        let code = self.text_from(start);
        if self.save().at == start.at {
            let labels = if hash {
                labels1("hexadecimal digit")
            } else if quote {
                labels2("\"#\"", "hexadecimal digit")
            } else {
                labels3("\"'\"", "\"#\"", "hexadecimal digit")
            };
            return Err(self.err_expect(labels));
        }
        if quote && !self.eat_str("'") {
            return Err(self.err_expect(labels2("hexadecimal digit", "\"'\"")));
        }
        self.check_color(code, quote)
    }

    /// A string between double or single quotes.
    pub fn string_literal_or_squoted(&mut self) -> (r: Result<String, ParseError>)
        requires
            old(self).wf(),
        ensures
            final(self).wf(),
            (outcome(r), final(self)@) == quoted_value(old(self)@),
            old(self)@.past(final(self)@),
    {
        proof {
            reveal(quoted_value);
        }
        self.skip_ws();
        match self.literal() {
            Some(x) => {
                return Ok(x);
            },
            None => {},
        }
        match self.single_quoted() {
            Some(x) => Ok(x),
            None => Err(self.err("expected quoted string")),
        }
    }

    fn read_between(&mut self, l: char, r: char) -> (res: Result<String, ParseError>)
        requires
            old(self).wf(),
        ensures
            final(self).wf(),
            (outcome(res), final(self)@) == between(old(self)@, l, r),
            old(self)@.past(final(self)@),
    {
        proof {
            reveal(between);
            lemma_first_of(self@.src, self@.at, l, r);
        }
        let start = self.save();
        let ghost e = first_of(self@.src, self@.at, l, r);
        loop
            invariant_except_break
                self.wf(),
                old(self)@.past(self@),
                start.at == old(self)@.at,
                position_of(self@.src, start),
                first_of(self@.src, self@.at, l, r) == e,
            ensures
                self.wf(),
                old(self)@.past(self@),
                start.at == old(self)@.at,
                position_of(self@.src, start),
                self@.at == e,
            decreases self@.rem(),
        {
            match self.peek() {
                Some(c) => {
                    if c == l || c == r {
                        break;
                    }
                    self.bump();
                },
                None => {
                    break;
                },
            }
        }
        let text = self.text_from(start);
        if self.peek() == Some(r) {
            self.bump();
            self.skip_ws();
            Ok(text)
        } else {
            Err(self.err("unterminated bracketed value"))
        }
    }

    /// A text between brackets, or an identifier.
    pub fn read_balanced_token(&mut self) -> (r: Result<String, ParseError>)
        requires
            old(self).wf(),
        ensures
            final(self).wf(),
            (outcome(r), final(self)@) == bracketed_value(old(self)@),
            old(self)@.past(final(self)@),
    {
        proof {
            reveal(bracketed_value);
        }
        self.skip_ws();
        match self.peek() {
            Some(c) => match close_of(c) {
                Some(r) => {
                    self.bump();
                    self.read_between(c, r)
                },
                None => self.ident(),
            },
            None => self.ident(),
        }
    }

    fn foreign_attribute(&mut self) -> (r: Result<Option<Vec<RuleAttr>>, ParseError>)
        requires
            old(self).wf(),
        ensures
            final(self).wf(),
            (outcome(r), final(self)@) == foreign_attr(old(self)@),
            old(self)@.past(final(self)@),
    {
        proof {
            reveal(foreign_attr);
        }
        match self.lx.ext_identifier() {
            Some(name) => {
                let val = if self.try_punct("=") {
                    Some(self.read_balanced_token()?)
                } else {
                    None
                };
                Ok(Some(one_item(RuleAttr::External(name, val))))
            },
            None => Ok(None),
        }
    }

    #[verifier::spinoff_prover]
    fn rule_attribute(&mut self) -> (r: Result<Option<Vec<RuleAttr>>, ParseError>)
        requires
            old(self).wf(),
        ensures
            final(self).wf(),
            (outcome(r), final(self)@) == rule_attr(old(self)@),
            old(self)@.past(final(self)@),
    {
        proof {
            reveal(rule_attr);
        }
        self.skip_ws();
        if self.try_kw("colour") || self.try_kw("color") {
            self.require_punct("=")?;
            let c = self.color_attr_value()?;
            return Ok(Some(one_item(RuleAttr::Color(c))));
        }
        if self.try_kw("process") {
            self.require_punct("=")?;
            self.read_balanced_token()?;
            return Ok(Some(no_items::<RuleAttr>()));
        }
        if self.try_kw("no_derivcheck") {
            return Ok(Some(one_item(RuleAttr::NoDerivCheck)));
        }
        if self.try_kw("role") {
            self.require_punct("=")?;
            let s = self.string_literal_or_squoted()?;
            return Ok(Some(one_item(RuleAttr::Role(s))));
        }
        if self.try_kw("issapicrule") {
            return Ok(Some(one_item(RuleAttr::IsSapicRule)));
        }
        self.foreign_attribute()
    }

    /// The attributes of a rule.
    pub fn rule_attributes(&mut self) -> (r: Result<Vec<RuleAttr>, ParseError>)
        requires
            old(self).wf(),
        ensures
            final(self).wf(),
            (outcome(r), final(self)@) == rule_attrs(old(self)@),
            old(self)@.past(final(self)@),
    {
        proof {
            reveal(rule_attrs);
        }
        let mut attrs = no_items::<RuleAttr>();
        if !self.try_punct("[") {
            return Ok(attrs);
        }
        loop
            invariant
                self.wf(),
                old(self)@.past(self@),
                more_rule_attrs(self@, attrs.deep_view()) == rule_attrs(old(self)@),
            decreases self@.rem(),
        {
            match self.rule_attribute()? {
                Some(v) => {
                    put_all(&mut attrs, v);
                    if !self.try_punct(",") {
                        self.require_punct("]")?;
                        return Ok(attrs);
                    }
                },
                None => {
                    self.require_punct("]")?;
                    return Ok(attrs);
                },
            }
        }
    }
}

} // verus!
