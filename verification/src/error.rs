//! Parse errors and how they read.

use crate::model::{no_items, put};
use crate::text::{ascii_digit, chars_of, decimal, is_digit, join_first, joined, to_decimal};
use vstd::prelude::*;

verus! {

/// One message of a parse error.
#[derive(Debug, Clone)]
pub enum Message {
    /// The token found where the grammar could not go on; empty at the end of the input.
    SysUnExpect(String),
    /// Something the grammar itself calls unexpected.
    UnExpect(String),
    /// What would have been accepted.
    Expect(String),
    /// A plain message.
    Message(String),
}

/// The model of a [`Message`].
pub enum MessageM {
    SysUnExpect(Seq<char>),
    UnExpect(Seq<char>),
    Expect(Seq<char>),
    Message(Seq<char>),
}

impl MessageM {
    /// The group the message is shown in: the four kinds in the order of their declaration.
    pub open spec fn rank(self) -> int {
        match self {
            MessageM::SysUnExpect(_) => 0,
            MessageM::UnExpect(_) => 1,
            MessageM::Expect(_) => 2,
            MessageM::Message(_) => 3,
        }
    }

    pub open spec fn text(self) -> Seq<char> {
        match self {
            MessageM::SysUnExpect(s) => s,
            MessageM::UnExpect(s) => s,
            MessageM::Expect(s) => s,
            MessageM::Message(s) => s,
        }
    }
}

impl DeepView for Message {
    type V = MessageM;

    open spec fn deep_view(&self) -> MessageM {
        match *self {
            Message::SysUnExpect(s) => MessageM::SysUnExpect(s@),
            Message::UnExpect(s) => MessageM::UnExpect(s@),
            Message::Expect(s) => MessageM::Expect(s@),
            Message::Message(s) => MessageM::Message(s@),
        }
    }
}

impl Message {
    fn rank(&self) -> (r: u8)
        ensures
            r == self.deep_view().rank(),
    {
        match self {
            Message::SysUnExpect(_) => 0,
            Message::UnExpect(_) => 1,
            Message::Expect(_) => 2,
            Message::Message(_) => 3,
        }
    }

    fn string(&self) -> (s: &String)
        ensures
            s@ == self.deep_view().text(),
    {
        match self {
            Message::SysUnExpect(s) => s,
            Message::UnExpect(s) => s,
            Message::Expect(s) => s,
            Message::Message(s) => s,
        }
    }
}

/// A failure that is no parse error: an exception with the place it was raised at.
#[derive(Debug, Clone)]
pub struct GhcError {
    pub message: String,
    /// `<file>:<line>:<column> in <package>:<module>`.
    pub call_site: String,
}

/// The model of a [`GhcError`].
pub struct GhcErrorM {
    pub message: Seq<char>,
    pub call_site: Seq<char>,
}

impl DeepView for GhcError {
    type V = GhcErrorM;

    open spec fn deep_view(&self) -> GhcErrorM {
        GhcErrorM { message: self.message@, call_site: self.call_site@ }
    }
}

impl GhcError {
    /// The message, then the call stack of one frame.
    pub fn display_exception(&self) -> (r: String)
        ensures
            r@ == self.message@ + "\nCallStack (from HasCallStack):\n  error, called at "@
                + self.call_site@,
    {
        let mut r = self.message.clone();
        r.push_str("\nCallStack (from HasCallStack):\n  error, called at ");
        r.push_str(&self.call_site);
        r
    }

    /// The message alone.
    pub fn render(&self) -> (r: String)
        ensures
            r@ == self.message@,
    {
        self.message.clone()
    }
}

/// A position and the messages that were collected there.
#[derive(Debug, Clone)]
pub struct ParseError {
    /// Line, from 1.
    pub line: u32,
    /// Column in characters, from 1.
    pub col: u32,
    /// Bytes before the position.
    pub offset: usize,
    /// The name shown in the header; none is shown when it is empty.
    pub source: String,
    /// In the order in which they were collected.
    pub messages: Vec<Message>,
    /// Set when an exception ended the parse. It is then all that is shown.
    pub ghc_error: Option<GhcError>,
}

/// The model of a [`ParseError`].
pub struct ErrorM {
    pub line: int,
    pub col: int,
    pub offset: int,
    pub source: Seq<char>,
    pub messages: Seq<MessageM>,
    pub ghc: Option<GhcErrorM>,
}

impl DeepView for ParseError {
    type V = ErrorM;

    open spec fn deep_view(&self) -> ErrorM {
        ErrorM {
            line: self.line as int,
            col: self.col as int,
            offset: self.offset as int,
            source: self.source@,
            messages: self.messages.deep_view(),
            ghc: self.ghc_error.deep_view(),
        }
    }
}

/// The texts of the messages of one rank, in their order.
pub open spec fn texts_of(msgs: Seq<MessageM>, rank: int) -> Seq<Seq<char>>
    decreases msgs.len(),
{
    if msgs.len() == 0 {
        Seq::empty()
    } else {
        let before = texts_of(msgs.drop_last(), rank);
        if msgs.last().rank() == rank {
            before.push(msgs.last().text())
        } else {
            before
        }
    }
}

/// The non-empty items, each at its first occurrence.
pub open spec fn cleaned(items: Seq<Seq<char>>) -> Seq<Seq<char>>
    decreases items.len(),
{
    if items.len() == 0 {
        Seq::empty()
    } else {
        let before = cleaned(items.drop_last());
        if items.last().len() == 0 || before.contains(items.last()) {
            before
        } else {
            before.push(items.last())
        }
    }
}

/// `a, b or c`.
pub open spec fn commas_or(items: Seq<Seq<char>>) -> Seq<char> {
    if items.len() == 0 {
        Seq::empty()
    } else if items.len() == 1 {
        items[0]
    } else {
        joined(items.drop_last(), ", "@) + " or "@ + items.last()
    }
}

/// The items as one enumeration, behind the word `pre` where there is one.
pub open spec fn enumeration(pre: Seq<char>, items: Seq<Seq<char>>) -> Seq<char> {
    let c = cleaned(items);
    if c.len() == 0 {
        Seq::empty()
    } else if pre.len() == 0 {
        commas_or(c)
    } else {
        pre + " "@ + commas_or(c)
    }
}

/// The line on the token that was found: left out when the grammar has said
/// itself what was unexpected.
pub open spec fn found_line(sys: Seq<Seq<char>>, un: Seq<Seq<char>>) -> Seq<char> {
    if un.len() != 0 || sys.len() == 0 {
        Seq::empty()
    } else if sys[0].len() == 0 {
        "unexpected end of input"@
    } else {
        "unexpected "@ + sys[0]
    }
}

/// The four lines of a body, before empty ones and repetitions are dropped.
pub open spec fn body_lines(msgs: Seq<MessageM>) -> Seq<Seq<char>> {
    seq![
        found_line(texts_of(msgs, 0), texts_of(msgs, 1)),
        enumeration("unexpected"@, texts_of(msgs, 1)),
        enumeration("expecting"@, texts_of(msgs, 2)),
        enumeration(Seq::empty(), texts_of(msgs, 3)),
    ]
}

/// Each line behind a line break.
pub open spec fn broken_lines(lines: Seq<Seq<char>>) -> Seq<char>
    decreases lines.len(),
{
    if lines.len() == 0 {
        Seq::empty()
    } else {
        broken_lines(lines.drop_last()) + "\n"@ + lines.last()
    }
}

/// What follows the position.
pub open spec fn body_text(msgs: Seq<MessageM>) -> Seq<char> {
    if msgs.len() == 0 {
        "unknown parse error"@
    } else {
        broken_lines(cleaned(body_lines(msgs)))
    }
}

/// `(line L, column C)`.
pub open spec fn place_text(line: int, col: int) -> Seq<char> {
    "(line "@ + decimal(line as nat) + ", column "@ + decimal(col as nat) + ")"@
}

impl ErrorM {
    /// The whole text of the error.
    pub open spec fn shown(self) -> Seq<char> {
        match self.ghc {
            Some(g) => g.message,
            None => if self.source.len() == 0 {
                place_text(self.line, self.col) + ":"@ + body_text(self.messages)
            } else {
                "\""@ + self.source + "\" "@ + place_text(self.line, self.col) + ":"@ + body_text(
                    self.messages,
                )
            },
        }
    }
}

/// The texts of the messages of one rank.
fn strings(msgs: &Vec<Message>, rank: u8) -> (out: Vec<String>)
    ensures
        out.deep_view() == texts_of(msgs.deep_view(), rank as int),
{
    let mut out = no_items::<String>();
    let mut i: usize = 0;
    let ghost all = msgs.deep_view();
    while i < msgs.len()
        invariant
            i <= msgs@.len(),
            all == msgs.deep_view(),
            out.deep_view() == texts_of(all.take(i as int), rank as int),
        decreases msgs@.len() - i,
    {
        assert(all.take(i + 1).drop_last() =~= all.take(i as int));
        assert(all.take(i + 1).last() == msgs@[i as int].deep_view());
        if msgs[i].rank() == rank {
            put(&mut out, msgs[i].string().clone());
        }
        i = i + 1;
    }
    assert(all.take(all.len() as int) =~= all);
    out
}

/// The non-empty items, each at its first occurrence.
fn clean_dedup(items: &Vec<String>) -> (out: Vec<String>)
    ensures
        out.deep_view() == cleaned(items.deep_view()),
{
    let mut out = no_items::<String>();
    let mut i: usize = 0;
    let ghost all = items.deep_view();
    while i < items.len()
        invariant
            i <= items@.len(),
            all == items.deep_view(),
            out.deep_view() == cleaned(all.take(i as int)),
        decreases items@.len() - i,
    {
        assert(all.take(i + 1).drop_last() =~= all.take(i as int));
        assert(all.take(i + 1).last() == items@[i as int]@);
        if !items[i].as_str().is_empty() && !crate::text::has_text(&out, &items[i]) {
            put(&mut out, items[i].clone());
        }
        i = i + 1;
    }
    assert(all.take(all.len() as int) =~= all);
    out
}

/// `a, b or c`.
fn commas_or_text(items: &Vec<String>) -> (r: String)
    ensures
        r@ == commas_or(items.deep_view()),
{
    let n: usize = items.len();
    if n == 0 {
        String::new()
    } else if n == 1 {
        items[0].clone()
    } else {
        let mut r = join_first(items, n - 1, ", ");
        assert(items.deep_view().take(n - 1) =~= items.deep_view().drop_last());
        r.push_str(" or ");
        r.push_str(&items[n - 1]);
        r
    }
}

/// The items as one enumeration, behind the word `pre` where there is one.
fn show_many(pre: &str, msgs: &Vec<String>) -> (r: String)
    ensures
        r@ == enumeration(pre@, msgs.deep_view()),
{
    let items = clean_dedup(msgs);
    if items.len() == 0 {
        return String::new();
    }
    let co = commas_or_text(&items);
    if pre.is_empty() {
        co
    } else {
        let mut r = pre.to_string();
        r.push_str(" ");
        r.push_str(&co);
        r
    }
}

impl ParseError {
    /// The same error under the name of the file it comes from.
    pub fn with_source(self, name: &str) -> (r: ParseError)
        ensures
            r.deep_view() == (ErrorM { source: name@, ..self.deep_view() }),
    {
        ParseError { source: name.to_string(), ..self }
    }

    /// What follows the position.
    pub fn show_error_messages(&self) -> (r: String)
        ensures
            r@ == body_text(self.messages.deep_view()),
    {
        if self.messages.len() == 0 {
            return "unknown parse error".to_string();
        }
        let sys = strings(&self.messages, 0);
        let un = strings(&self.messages, 1);
        let exp = strings(&self.messages, 2);
        let raw = strings(&self.messages, 3);
        let found = if un.len() != 0 || sys.len() == 0 {
            String::new()
        } else if sys[0].as_str().is_empty() {
            "unexpected end of input".to_string()
        } else {
            let mut f = "unexpected ".to_string();
            f.push_str(&sys[0]);
            f
        };
        let mut lines = no_items::<String>();
        put(&mut lines, found);
        put(&mut lines, show_many("unexpected", &un));
        put(&mut lines, show_many("expecting", &exp));
        let empty = String::new();
        put(&mut lines, show_many(&empty, &raw));
        assert(lines.deep_view() =~= body_lines(self.messages.deep_view()));
        let parts = clean_dedup(&lines);
        let ghost all = parts.deep_view();
        let mut r = String::new();
        let mut i: usize = 0;
        assert(r@ =~= broken_lines(all.take(0)));
        while i < parts.len()
            invariant
                i <= parts@.len(),
                all == parts.deep_view(),
                r@ == broken_lines(all.take(i as int)),
            decreases parts@.len() - i,
        {
            assert(all.take(i + 1).drop_last() =~= all.take(i as int));
            assert(all.take(i + 1).last() == parts@[i as int]@);
            r.push_str("\n");
            r.push_str(&parts[i]);
            i = i + 1;
        }
        assert(all.take(all.len() as int) =~= all);
        r
    }

    /// The whole text of the error.
    pub fn render(&self) -> (r: String)
        ensures
            r@ == self.deep_view().shown(),
    {
        match &self.ghc_error {
            Some(g) => {
                return g.render();
            },
            None => {},
        }
        let mut place = "(line ".to_string();
        place.push_str(&to_decimal(self.line as u64));
        place.push_str(", column ");
        place.push_str(&to_decimal(self.col as u64));
        place.push_str(")");
        if self.source.as_str().is_empty() {
            place.push_str(":");
            place.push_str(&self.show_error_messages());
            place
        } else {
            let mut r = "\"".to_string();
            r.push_str(&self.source);
            r.push_str("\" ");
            r.push_str(&place);
            r.push_str(":");
            r.push_str(&self.show_error_messages());
            r
        }
    }
}

/// The result of a parsing step with its error modelled.
pub open spec fn outcome<T: DeepView>(r: Result<T, ParseError>) -> Result<T::V, ErrorM> {
    match r {
        Ok(t) => Ok(t.deep_view()),
        Err(e) => Err(e.deep_view()),
    }
}

/// The escape of one character inside a double-quoted string.
pub open spec fn escaped(c: char) -> Seq<char> {
    if c == '"' {
        seq!['\\', '"']
    } else if c == '\\' {
        seq!['\\', '\\']
    } else if c == '\n' {
        seq!['\\', 'n']
    } else if c == '\t' {
        seq!['\\', 't']
    } else if c == '\r' {
        seq!['\\', 'r']
    } else if c == '\u{0B}' {
        seq!['\\', 'v']
    } else if c == '\u{0C}' {
        seq!['\\', 'f']
    } else if c == '\u{07}' {
        seq!['\\', 'a']
    } else if c == '\u{08}' {
        seq!['\\', 'b']
    } else if ' ' <= c <= '~' {
        seq![c]
    } else {
        seq!['\\'] + decimal(c as nat)
    }
}

/// Whether the escape of `c` is a number.
pub open spec fn numeric_escape(c: char) -> bool {
    &&& !(' ' <= c <= '~')
    &&& c != '\n' && c != '\t' && c != '\r'
    &&& c != '\u{0B}' && c != '\u{0C}' && c != '\u{07}' && c != '\u{08}'
}

/// The escape of the character at `i`, with the separator that keeps a digit
/// behind a number from reading as part of it.
pub open spec fn escaped_at(s: Seq<char>, i: int) -> Seq<char> {
    if numeric_escape(s[i]) && i + 1 < s.len() && ascii_digit(s[i + 1]) {
        escaped(s[i]) + seq!['\\', '&']
    } else {
        escaped(s[i])
    }
}

/// The escapes of the first `n` characters.
pub open spec fn escaped_prefix(s: Seq<char>, n: int) -> Seq<char>
    decreases n,
{
    if n <= 0 {
        Seq::empty()
    } else {
        escaped_prefix(s, n - 1) + escaped_at(s, n - 1)
    }
}

/// `s` as a string literal.
pub open spec fn literal_text(s: Seq<char>) -> Seq<char> {
    seq!['"'] + escaped_prefix(s, s.len() as int) + seq!['"']
}

/// Writes the escape of `c` and says whether it is a number.
fn show_lit_char(c: char, out: &mut String) -> (numeric: bool)
    ensures
        final(out)@ == old(out)@ + escaped(c),
        numeric == numeric_escape(c),
{
    if c == '"' {
        out.push('\\');
        out.push('"');
    } else if c == '\\' {
        out.push('\\');
        out.push('\\');
    } else if c == '\n' {
        out.push('\\');
        out.push('n');
    } else if c == '\t' {
        out.push('\\');
        out.push('t');
    } else if c == '\r' {
        out.push('\\');
        out.push('r');
    } else if c == '\u{0B}' {
        out.push('\\');
        out.push('v');
    } else if c == '\u{0C}' {
        out.push('\\');
        out.push('f');
    } else if c == '\u{07}' {
        out.push('\\');
        out.push('a');
    } else if c == '\u{08}' {
        out.push('\\');
        out.push('b');
    } else if ' ' <= c && c <= '~' {
        out.push(c);
    } else {
        out.push('\\');
        out.push_str(&to_decimal(c as u64));
        assert(out@ =~= old(out)@ + escaped(c));
        return true;
    }
    assert(out@ =~= old(out)@ + escaped(c));
    false
}

/// `s` as a string literal: in double quotes, with every character outside the
/// printable ASCII range escaped.
pub fn show_lit_string(s: &str) -> (r: String)
    ensures
        r@ == literal_text(s@),
{
    let v = chars_of(s);
    let mut out = String::new();
    out.push('"');
    let mut i: usize = 0;
    assert(out@ =~= seq!['"'] + escaped_prefix(s@, 0));
    while i < v.len()
        invariant
            i <= v@.len(),
            v@ == s@,
            out@ == seq!['"'] + escaped_prefix(s@, i as int),
        decreases v@.len() - i,
    {
        let numeric = show_lit_char(v[i], &mut out);
        if numeric && i + 1 < v.len() && is_digit(v[i + 1]) {
            out.push('\\');
            out.push('&');
        }
        i = i + 1;
        assert(out@ =~= seq!['"'] + escaped_prefix(s@, i as int));
    }
    out.push('"');
    assert(out@ =~= literal_text(s@));
    out
}

/// The literal of a single character.
pub fn show_char_token(c: char) -> (r: String)
    ensures
        r@ == literal_text(seq![c]),
{
    let mut s = String::new();
    s.push(c);
    assert(s@ =~= seq![c]);
    show_lit_string(&s)
}

/// A list of names as `["a","b"]`.
pub open spec fn name_list(items: Seq<Seq<char>>) -> Seq<char> {
    "["@ + joined(Seq::new(items.len(), |i: int| crate::text::quoted(items[i])), ","@) + "]"@
}

pub fn show_string_list(items: &Vec<String>) -> (r: String)
    ensures
        r@ == name_list(items.deep_view()),
{
    let mut q = no_items::<String>();
    let mut i: usize = 0;
    let ghost want = Seq::new(
        items.deep_view().len(),
        |i: int| crate::text::quoted(items.deep_view()[i]),
    );
    while i < items.len()
        invariant
            i <= items@.len(),
            want == Seq::new(
                items.deep_view().len(),
                |i: int| crate::text::quoted(items.deep_view()[i]),
            ),
            q.deep_view() == want.take(i as int),
        decreases items@.len() - i,
    {
        put(&mut q, crate::text::quote(&items[i]));
        i = i + 1;
        assert(q.deep_view() =~= want.take(i as int));
    }
    assert(want.take(want.len() as int) =~= want);
    let mut r = "[".to_string();
    r.push_str(&crate::text::join(&q, ","));
    r.push_str("]");
    r
}

} // verus!
