//! What errors say.

use crate::error::{
    body_text, broken_lines, cleaned, commas_or, enumeration, found_line, texts_of, ErrorM,
    MessageM,
};
use crate::state::PS;
use crate::text::{decimal, joined};
use crate::tokens::{col_at, line_at, offset_at};
use vstd::prelude::*;

verus! {

/// An error is placed where it was raised: its line and its column count from
/// one, and its offset counts the bytes before it.
pub proof fn law_errors_are_placed(s: PS, ms: Seq<MessageM>)
    ensures
        s.error(ms).line == line_at(s.src, s.at),
        s.error(ms).col == col_at(s.src, s.at),
        s.error(ms).offset == offset_at(s.src, s.at),
        s.error(ms).messages == ms,
        s.error(ms).source.len() == 0,
        s.error(ms).ghc is None,
        line_at(s.src, 0) == 1,
        col_at(s.src, 0) == 1,
        offset_at(s.src, 0) == 0,
{
    reveal(PS::error);
}

/// A line break starts a line, and any other character a column; a character
/// takes one byte where it is ASCII.
pub proof fn law_lines_and_columns(src: Seq<char>, i: int)
    requires
        0 <= i < src.len(),
    ensures
        src[i] == '\n' ==> line_at(src, i + 1) == line_at(src, i) + 1 && col_at(src, i + 1) == 1,
        src[i] != '\n' ==> line_at(src, i + 1) == line_at(src, i) && col_at(src, i + 1) == col_at(
            src,
            i,
        ) + 1,
        src[i] <= '\u{7F}' ==> offset_at(src, i + 1) == offset_at(src, i) + 1,
        offset_at(src, i) < offset_at(src, i + 1) <= offset_at(src, i) + 4,
{
}

/// The messages of a kind are picked in their order.
pub proof fn law_messages_of_a_kind(ms: Seq<MessageM>, m: MessageM, kind: int)
    ensures
        m.rank() == kind ==> texts_of(ms.push(m), kind) == texts_of(ms, kind).push(m.text()),
        m.rank() != kind ==> texts_of(ms.push(m), kind) == texts_of(ms, kind),
        texts_of(Seq::empty(), kind).len() == 0,
{
    assert(ms.push(m).drop_last() =~= ms);
}

/// What is enumerated stands there once, without what is empty, and in the
/// order of its first occurrences.
pub proof fn law_enumerated_once(items: Seq<Seq<char>>)
    ensures
        cleaned(items).no_duplicates(),
        forall|x: Seq<char>| #[trigger]
            cleaned(items).contains(x) <==> items.contains(x) && x.len() > 0,
    decreases items.len(),
{
    if items.len() > 0 {
        let before = items.drop_last();
        law_enumerated_once(before);
        let c = cleaned(before);
        let x = items.last();
        assert forall|y: Seq<char>| #[trigger] cleaned(items).contains(y) <==> items.contains(y)
            && y.len() > 0 by {
            if items.contains(y) {
                let k = choose|k: int| 0 <= k < items.len() && items[k] == y;
                if k < before.len() {
                    assert(before[k] == y);
                    assert(before.contains(y));
                }
            }
            if before.contains(y) {
                let k = choose|k: int| 0 <= k < before.len() && before[k] == y;
                assert(items[k] == y);
            }
            assert(items[items.len() - 1] == x);
            if !(x.len() == 0 || c.contains(x)) {
                let d = c.push(x);
                assert(d[c.len() as int] == x);
                if c.contains(y) {
                    let k = choose|k: int| 0 <= k < c.len() && c[k] == y;
                    assert(d[k] == y);
                }
                if d.contains(y) {
                    let k = choose|k: int| 0 <= k < d.len() && d[k] == y;
                    if k < c.len() {
                        assert(c[k] == y);
                    }
                }
            }
        }
    }
}

/// Several things are listed with commas, and "or" before the last.
pub proof fn law_lists_with_or(a: Seq<char>, b: Seq<char>, c: Seq<char>)
    ensures
        commas_or(seq![a]) == a,
        commas_or(seq![a, b]) == a + " or "@ + b,
        commas_or(seq![a, b, c]) == a + ", "@ + b + " or "@ + c,
{
    assert(seq![a, b].drop_last() =~= seq![a]);
    assert(seq![a, b, c].drop_last() =~= seq![a, b]);
    assert(joined(seq![a], ", "@) == a);
    assert(joined(seq![a, b], ", "@) == a + ", "@ + b);
}

/// What was found is told where nothing else is said to be unexpected; at the
/// end of the input there is no token to tell.
pub proof fn law_what_was_found(sys: Seq<Seq<char>>, un: Seq<Seq<char>>)
    ensures
        un.len() > 0 || sys.len() == 0 ==> found_line(sys, un).len() == 0,
        un.len() == 0 && sys.len() > 0 && sys[0].len() > 0 ==> found_line(sys, un)
            == "unexpected "@ + sys[0],
        un.len() == 0 && sys.len() > 0 && sys[0].len() == 0 ==> found_line(sys, un)
            == "unexpected end of input"@,
{
}

/// An error is shown by its file, its place and its messages; an exception by
/// its message alone.
pub proof fn law_shown_errors(e: ErrorM)
    ensures
        e.ghc matches Some(g) ==> e.shown() == g.message,
        e.ghc is None && e.source.len() == 0 ==> e.shown() == "(line "@ + decimal(e.line as nat)
            + ", column "@ + decimal(e.col as nat) + ")"@ + ":"@ + body_text(e.messages),
        e.ghc is None && e.source.len() > 0 ==> e.shown() == "\""@ + e.source + "\" "@ + ("(line "@
            + decimal(e.line as nat) + ", column "@ + decimal(e.col as nat) + ")"@) + ":"@
            + body_text(e.messages),
        e.messages.len() == 0 ==> body_text(e.messages) == "unknown parse error"@,
{
}

/// The lines of an error: what was found, what was unexpected, what was
/// expected, and what else is said, in this order.
pub proof fn law_lines_of_errors(ms: Seq<MessageM>)
    requires
        ms.len() > 0,
    ensures
        body_text(ms) == broken_lines(
            cleaned(
                seq![
                    found_line(texts_of(ms, 0), texts_of(ms, 1)),
                    enumeration("unexpected"@, texts_of(ms, 1)),
                    enumeration("expecting"@, texts_of(ms, 2)),
                    enumeration(Seq::empty(), texts_of(ms, 3)),
                ],
            ),
        ),
{
}

} // verus!
