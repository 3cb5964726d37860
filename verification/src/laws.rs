//! What holds of the language as a whole.

use crate::actions::merged;
use crate::ast::{FlagM, ItemM};
use crate::basics::initial;
use crate::comments::uncommented;
use crate::error::{escaped, escaped_at, escaped_prefix, literal_text, numeric_escape, ErrorM};
use crate::flags::holds;
use crate::items::{behind_directive, directive, flagged};
use crate::order::{
    law_names_are_an_ordered_set, law_symbols_are_an_ordered_set, lemma_pair_syms, names_sorted,
    orderly, syms_sorted,
};
use crate::parser::{
    begun, closing, cut, ordered_names, ordered_syms, read, read_from, seeded, settled, start,
    start_in,
};
use crate::places::lemma_skips;
use crate::signature::{FunSymM, MaudeSigM};
use crate::state::{PS, group_steps, SourceFileM};
use crate::text::{ascii_digit, decimal, ident_char, white_space};
use crate::theory::{
    behind_endif, branch_end, canonicals, condition_here, conditional, cycle_text, file_at,
    files_ok, fragment, included, included_path, included_staged, items, lemma_room, resumed,
    theory, with_input,
};
use crate::tokens::{number_value, reserved, run_end, word_at, ws_end};
use vstd::prelude::*;

pub mod atoms;
pub mod declarations;
pub mod errors;
pub mod facts;
pub mod flags;
pub mod formulas;
pub mod lemmas;
pub mod models;
pub mod options;
pub mod paths;
pub mod processes;
pub mod proofs;
pub mod readings;
pub mod reports;
pub mod rules;
pub mod symbols;
pub mod tactics;
pub mod terms;
pub mod texts;
pub mod theories;
pub mod tokens;
pub mod variables;

verus! {

broadcast use {group_steps, crate::tokens::group_lexer};

/// A text without a slash has no comments: nothing is taken out of it.
pub proof fn law_plain_text_is_kept(cs: Seq<char>)
    requires
        !cs.contains('/'),
    ensures
        uncommented(cs, 0) == cs,
{
    lemma_plain_text(cs, 0);
    assert(cs.subrange(0, cs.len() as int) =~= cs);
}

proof fn lemma_plain_text(cs: Seq<char>, i: int)
    requires
        0 <= i <= cs.len(),
        !cs.contains('/'),
    ensures
        uncommented(cs, i) == cs.subrange(i, cs.len() as int),
    decreases cs.len() - i,
{
    if i < cs.len() {
        assert(cs.contains(cs[i]));
        if i + 1 < cs.len() {
            assert(cs.contains(cs[i + 1]));
        }
        lemma_plain_text(cs, i + 1);
        assert(seq![cs[i]] + cs.subrange(i + 1, cs.len() as int) =~= cs.subrange(
            i,
            cs.len() as int,
        ));
    } else {
        assert(cs.subrange(i, i) =~= Seq::empty());
    }
}

/// A number that is written out reads as itself, and is written without
/// leading zeros.
pub proof fn law_numbers_read_as_written(n: nat)
    ensures
        number_value(decimal(n), 0, decimal(n).len() as int) == n,
        decimal(n).len() > 0,
        decimal(n)[0] == '0' ==> n == 0,
        forall|i: int| 0 <= i < decimal(n).len() ==> '0' <= #[trigger] decimal(n)[i] <= '9',
    decreases n,
{
    let d = decimal(n);
    if n < 10 {
        reveal_with_fuel(number_value, 2);
    } else {
        let u = decimal(n / 10);
        law_numbers_read_as_written(n / 10);
        assert(d.drop_last() =~= u);
        lemma_number_prefix(d, u, u.len() as int);
        assert(d[0] == u[0]);
    }
}

proof fn lemma_number_prefix(d: Seq<char>, u: Seq<char>, to: int)
    requires
        to <= u.len() <= d.len(),
        forall|i: int| 0 <= i < u.len() ==> d[i] == u[i],
    ensures
        number_value(d, 0, to) == number_value(u, 0, to),
    decreases to,
{
    if to > 0 {
        lemma_number_prefix(d, u, to - 1);
    }
}

/// A text that is shown as a literal is in printable ASCII.
pub proof fn law_literals_are_printable(s: Seq<char>)
    ensures
        forall|i: int|
            0 <= i < literal_text(s).len() ==> ' ' <= #[trigger] literal_text(s)[i] <= '~',
{
    lemma_escapes_printable(s, s.len() as int);
}

proof fn lemma_escapes_printable(s: Seq<char>, n: int)
    requires
        n <= s.len(),
    ensures
        forall|i: int|
            0 <= i < escaped_prefix(s, n).len() ==> ' ' <= #[trigger] escaped_prefix(s, n)[i]
                <= '~',
    decreases n,
{
    if n > 0 {
        lemma_escapes_printable(s, n - 1);
        law_numbers_read_as_written(s[n - 1] as nat);
        let e = escaped_at(s, n - 1);
        assert forall|i: int| 0 <= i < e.len() implies ' ' <= #[trigger] e[i] <= '~' by {
            let d = decimal(s[n - 1] as nat);
            if 0 < i <= d.len() {
                assert('0' <= d[i - 1] <= '9');
            }
        }
        let before = escaped_prefix(s, n - 1);
        assert forall|i: int| 0 <= i < escaped_prefix(s, n).len() implies ' '
            <= #[trigger] escaped_prefix(s, n)[i] <= '~' by {
            if i < before.len() {
                assert(escaped_prefix(s, n)[i] == before[i]);
            } else {
                assert(escaped_prefix(s, n)[i] == e[i - before.len()]);
            }
        }
    }
}

/// The escapes of the characters from `i` on.
pub open spec fn escapes_from(s: Seq<char>, i: int) -> Seq<char>
    decreases s.len() - i,
{
    if i < 0 || i >= s.len() {
        Seq::empty()
    } else {
        escaped_at(s, i) + escapes_from(s, i + 1)
    }
}

proof fn lemma_escapes_split(s: Seq<char>, n: int)
    requires
        0 <= n <= s.len(),
    ensures
        escaped_prefix(s, n) + escapes_from(s, n) == escaped_prefix(s, s.len() as int),
    decreases s.len() - n,
{
    if n < s.len() {
        lemma_escapes_split(s, n + 1);
        assert(escaped_prefix(s, n) + escapes_from(s, n) =~= escaped_prefix(s, n + 1)
            + escapes_from(s, n + 1));
    } else {
        assert(escaped_prefix(s, n) + escapes_from(s, n) =~= escaped_prefix(s, n));
    }
}

/// Whether the character stands for itself in a literal.
pub open spec fn plain(c: char) -> bool {
    ' ' <= c <= '~' && c != '"' && c != '\\'
}

/// How the escapes from `i` on start.
proof fn lemma_escapes_start(s: Seq<char>, i: int)
    requires
        0 <= i < s.len(),
    ensures
        escapes_from(s, i).len() > 0,
        plain(s[i]) ==> escapes_from(s, i)[0] == s[i],
        !plain(s[i]) ==> escapes_from(s, i)[0] == '\\' && escapes_from(s, i).len() > 1
            && escapes_from(s, i)[1] == escaped(s[i])[1] && escapes_from(s, i)[1] != '&',
        numeric_escape(s[i]) ==> ascii_digit(escaped(s[i])[1]),
{
    law_numbers_read_as_written(s[i] as nat);
    let d = decimal(s[i] as nat);
    assert('0' <= d[0] <= '9');
}

/// What follows a number in the escapes: the separator, or no digit.
proof fn lemma_behind_number(s: Seq<char>, i: int)
    requires
        0 <= i < s.len(),
        numeric_escape(s[i]),
    ensures
        ({
            let sep: Seq<char> = if i + 1 < s.len() && ascii_digit(s[i + 1]) {
                seq!['\\', '&']
            } else {
                Seq::empty()
            };
            let rest = sep + escapes_from(s, i + 1);
            &&& escapes_from(s, i) == seq!['\\'] + decimal(s[i] as nat) + rest
            &&& rest.len() > 0 ==> !ascii_digit(rest[0])
            &&& sep.len() > 0 ==> rest[0] == '\\' && rest[1] == '&'
            &&& sep.len() == 0 && rest.len() > 1 && rest[0] == '\\' ==> rest[1] != '&'
        }),
{
    let sep: Seq<char> = if i + 1 < s.len() && ascii_digit(s[i + 1]) {
        seq!['\\', '&']
    } else {
        Seq::empty()
    };
    assert(escapes_from(s, i) =~= seq!['\\'] + decimal(s[i] as nat) + (sep + escapes_from(
        s,
        i + 1,
    )));
    if i + 1 < s.len() {
        lemma_escapes_start(s, i + 1);
    }
}

proof fn lemma_code_points(m: char, n: char)
    requires
        m as nat == n as nat,
    ensures
        m == n,
{
    assert(m as nat == m as int);
    assert(n as nat == n as int);
}

proof fn lemma_same_number(a: Seq<char>, i: int, b: Seq<char>, j: int)
    requires
        0 <= i < a.len(),
        0 <= j < b.len(),
        numeric_escape(a[i]),
        numeric_escape(b[j]),
        escapes_from(a, i) == escapes_from(b, j),
    ensures
        a[i] == b[j],
        escapes_from(a, i + 1) == escapes_from(b, j + 1),
{
    lemma_behind_number(a, i);
    lemma_behind_number(b, j);
    law_numbers_read_as_written(a[i] as nat);
    law_numbers_read_as_written(b[j] as nat);
    let d = decimal(a[i] as nat);
    let e = decimal(b[j] as nat);
    let w = escapes_from(a, i);
    let p: Seq<char> = if i + 1 < a.len() && ascii_digit(a[i + 1]) {
        seq!['\\', '&']
    } else {
        Seq::empty()
    };
    let q: Seq<char> = if j + 1 < b.len() && ascii_digit(b[j + 1]) {
        seq!['\\', '&']
    } else {
        Seq::empty()
    };
    let x = p + escapes_from(a, i + 1);
    let y = q + escapes_from(b, j + 1);
    assert(w.len() == 1 + d.len() + x.len());
    assert(w.len() == 1 + e.len() + y.len());
    if d.len() < e.len() {
        assert(w[1int + d.len()] == e[d.len() as int]);
        assert(w[1int + d.len()] == x[0]);
        assert('0' <= e[d.len() as int] <= '9');
    }
    if e.len() < d.len() {
        assert(w[1int + e.len()] == d[e.len() as int]);
        assert(w[1int + e.len()] == y[0]);
        assert('0' <= d[e.len() as int] <= '9');
    }
    assert(d =~= w.subrange(1, 1int + d.len()));
    assert(e =~= w.subrange(1, 1int + e.len()));
    assert(d == e);
    let (m, n): (char, char) = (a[i], b[j]);
    lemma_code_points(m, n);
    assert(x =~= w.subrange(1int + d.len(), w.len() as int));
    assert(y =~= w.subrange(1int + e.len(), w.len() as int));
    assert(escapes_from(a, i + 1) =~= x.subrange(p.len() as int, x.len() as int));
    assert(escapes_from(b, j + 1) =~= y.subrange(q.len() as int, y.len() as int));
}

proof fn lemma_same_escapes(a: Seq<char>, i: int, b: Seq<char>, j: int)
    requires
        0 <= i <= a.len(),
        0 <= j <= b.len(),
        escapes_from(a, i) == escapes_from(b, j),
    ensures
        a.subrange(i, a.len() as int) == b.subrange(j, b.len() as int),
    decreases a.len() - i,
{
    let w = escapes_from(a, i);
    if i < a.len() {
        lemma_escapes_start(a, i);
    }
    if j < b.len() {
        lemma_escapes_start(b, j);
    }
    if i == a.len() || j == b.len() {
        assert(a.subrange(i, a.len() as int) =~= b.subrange(j, b.len() as int));
    } else {
        if plain(a[i]) || plain(b[j]) {
            assert(a[i] == b[j]);
            assert(escapes_from(a, i + 1) =~= w.subrange(1, w.len() as int));
            assert(escapes_from(b, j + 1) =~= w.subrange(1, w.len() as int));
        } else if numeric_escape(a[i]) {
            lemma_same_number(a, i, b, j);
        } else {
            assert(w[1] == escaped(a[i])[1] && w[1] == escaped(b[j])[1]);
            assert(a[i] == b[j]);
            assert(escapes_from(a, i + 1) =~= w.subrange(2, w.len() as int));
            assert(escapes_from(b, j + 1) =~= w.subrange(2, w.len() as int));
        }
        lemma_same_escapes(a, i + 1, b, j + 1);
        assert(a.subrange(i, a.len() as int) =~= seq![a[i]] + a.subrange(i + 1, a.len() as int));
        assert(b.subrange(j, b.len() as int) =~= seq![b[j]] + b.subrange(j + 1, b.len() as int));
    }
}

/// A text is shown as a literal in double quotes, and no two texts as the same
/// literal.
pub proof fn law_literals_tell_texts_apart(a: Seq<char>, b: Seq<char>)
    ensures
        literal_text(a).len() >= 2,
        literal_text(a)[0] == '"',
        literal_text(a).last() == '"',
        literal_text(a) == literal_text(b) ==> a == b,
{
    if literal_text(a) == literal_text(b) {
        let w = literal_text(a);
        lemma_escapes_split(a, 0);
        lemma_escapes_split(b, 0);
        assert(escapes_from(a, 0) =~= w.subrange(1, w.len() - 1));
        assert(escapes_from(b, 0) =~= w.subrange(1, w.len() - 1));
        lemma_same_escapes(a, 0, b, 0);
        assert(a.subrange(0, a.len() as int) =~= a);
        assert(b.subrange(0, b.len() as int) =~= b);
    }
}

/// An identifier is a word of the text that is not reserved: it starts with a
/// letter or a digit, and goes on with letters, digits and underscores.
pub proof fn law_identifiers(s: PS)
    requires
        0 <= s.at <= s.src.len(),
    ensures
        s.ident().0 matches Ok(w) ==> {
            &&& w.len() > 0
            &&& !reserved(w)
            &&& forall|i: int| 0 <= i < w.len() ==> ident_char(#[trigger] w[i])
            &&& ws_end(s.src, s.at) + w.len() <= s.src.len()
            &&& w == s.src.subrange(ws_end(s.src, s.at), ws_end(s.src, s.at) + w.len())
        },
{
    reveal(PS::ident);
    reveal(PS::name);
    if let Some((b, e)) = word_at(s.src, s.at) {
        lemma_run(s.src, b + 1);
        let w = s.src.subrange(b, e);
        assert forall|i: int| 0 <= i < w.len() implies ident_char(#[trigger] w[i]) by {
            assert(w[i] == s.src[b + i]);
        }
    }
}

proof fn lemma_run(src: Seq<char>, i: int)
    requires
        0 <= i <= src.len(),
    ensures
        i <= run_end(src, i) <= src.len(),
        forall|j: int| i <= j < run_end(src, i) ==> ident_char(#[trigger] src[j]),
    decreases src.len() - i,
{
    if i < src.len() && ident_char(src[i]) {
        lemma_run(src, i + 1);
    }
}

/// Of two alternatives that failed, the error that came further on is shown;
/// errors at one place are shown together, the messages of the first in front.
pub proof fn law_the_furthest_error_is_shown(a: ErrorM, b: ErrorM)
    requires
        b.ghc is None,
    ensures
        merged(a, b).offset == (if a.offset < b.offset {
            b.offset
        } else {
            a.offset
        }),
        a.offset == b.offset ==> merged(a, b).messages == a.messages + b.messages,
{
}

/// Whether what follows position `e` neither goes on with the word that ends
/// there nor joins it by a dash.
pub open spec fn word_ends(src: Seq<char>, e: int) -> bool {
    let n = ws_end(src, e);
    &&& e < src.len() ==> !ident_char(src[e])
    &&& 0 <= n < src.len() ==> src[n] != '-'
}

/// Where the word `end` comes next, the items end, and so does the theory:
/// whatever follows the word, what has been read is the same.
pub proof fn law_the_items_stop_at_end(s: PS, rest: Seq<char>, acc: Seq<ItemM>)
    requires
        0 <= s.at <= s.src.len(),
        s.src == s.src.take(s.at) + "end"@ + rest,
        word_ends(s.src, s.at + 3),
    ensures
        items(s, acc) == (Ok::<Seq<ItemM>, ErrorM>(acc), s),
        s.kw("end"@) == (true, s.to(ws_end(s.src, s.at + 3))),
{
    reveal_strlit("end");
    reveal(PS::kw);
    reveal(white_space);
    let w = s.src.subrange(s.at, s.at + 3);
    assert(w =~= "end"@);
    assert(s.src[s.at] == 'e');
    assert(ws_end(s.src, s.at) == s.at);
}

proof fn lemma_read_ok_on(s: PS, suffix: Seq<char>, k: int)
    requires
        0 <= k,
        suffix.len() > 0 ==> !ident_char(suffix[0]) && suffix[0] != '-',
        read_from(s, k).0 is Ok,
    ensures
        read_from(PS { src: s.src + suffix, ..s }, k) == read_from(s, k),
    decreases s.src.len() + 1 - k,
{
    let t = PS { src: s.src + suffix, ..s };
    if k <= s.src.len() {
        assert(t.src.take(k) =~= s.src.take(k));
        assert(cut(t, k) == cut(s, k));
        if 3 <= k {
            assert(t.src.subrange(k - 3, k) =~= s.src.subrange(k - 3, k));
        }
        assert(closing(t.src, k) == closing(s.src, k));
        if !(closing(s.src, k) && settled(theory(cut(s, k)))) {
            lemma_read_ok_on(s, suffix, k + 1);
        }
    }
}

/// What follows the closing `end` of a theory is ignored, whatever it is: the
/// theory that is read from a text is read from that text with anything behind
/// it that does not go on with the word `end`.
pub proof fn law_text_behind_end_is_ignored(
    src: Seq<char>,
    suffix: Seq<char>,
    flags: Seq<Seq<char>>,
    is_diff: bool,
    root: Option<Seq<char>>,
    base_dir: Option<Seq<char>>,
    files: Seq<SourceFileM>,
)
    requires
        suffix.len() > 0 ==> !ident_char(suffix[0]) && suffix[0] != '-',
        read(begun(src, flags, is_diff, root, base_dir, files)).0 is Ok,
    ensures
        read(begun(src + suffix, flags, is_diff, root, base_dir, files)) == read(
            begun(src, flags, is_diff, root, base_dir, files),
        ),
{
    let s = begun(src, flags, is_diff, root, base_dir, files);
    lemma_read_ok_on(s, suffix, 0);
    assert(begun(src + suffix, flags, is_diff, root, base_dir, files) == (PS {
        src: src + suffix,
        ..s
    }));
}

/// A flag holds once it is defined, and so do the flags before it.
pub proof fn law_defined_flags_hold(s: PS, flag: Seq<char>, other: Seq<char>)
    ensures
        holds(FlagM::Atom(flag), flagged(s, flag).st.flags),
        holds(FlagM::Atom(other), s.st.flags) ==> holds(
            FlagM::Atom(other),
            flagged(s, flag).st.flags,
        ),
{
    let flags = s.st.flags.push(flag);
    assert(flags[s.st.flags.len() as int] == flag);
    if s.st.flags.contains(other) {
        let k = choose|k: int| 0 <= k < s.st.flags.len() && s.st.flags[k] == other;
        assert(flags[k] == other);
    }
}

proof fn lemma_branch_end(s: PS, depth: int)
    requires
        0 <= s.at <= s.src.len(),
    ensures
        s.past(branch_end(s, depth).1),
    decreases s.rem(),
{
    let w = s.ws();
    match directive(w) {
        None => if w.peek() is Some {
            lemma_branch_end(w.bump(), depth);
        },
        Some(d) => {
            let s1 = behind_directive(w);
            if d == "ifdef"@ {
                lemma_branch_end(s1, depth + 1);
            } else if d == "endif"@ {
                if depth != 0 {
                    lemma_branch_end(s1, depth - 1);
                }
            } else if !(d == "else"@ && depth == 0) {
                lemma_branch_end(s1, depth);
            }
        },
    }
}

/// A dead branch leaves no trace. Where the condition does not hold and there
/// is no `#else`, there are no items and only the position changes; with an
/// `#else` the items are those of that branch, read in the state before the
/// condition. Where the condition holds, the items are those in front of the
/// `#else`, and behind it only the position changes, up to the `#endif` that
/// closes the condition.
pub proof fn law_a_dead_branch_leaves_no_trace(s: PS, cond: FlagM, s2: PS)
    requires
        0 <= s.at,
        condition_here(behind_directive(s).ws()) == (Ok::<FlagM, ErrorM>(cond), s2),
        s.past(s2),
        s.at < s2.at,
        behind_directive(s).ws().fwd(s2),
    ensures
        !holds(cond, s.st.flags) ==> s.past(branch_end(s2, 0).1),
        !holds(cond, s.st.flags) && branch_end(s2, 0).0 is Endif ==> conditional(s) == (
            Ok::<Seq<ItemM>, ErrorM>(Seq::empty()),
            branch_end(s2, 0).1,
        ),
        !holds(cond, s.st.flags) && branch_end(s2, 0).0 is Else ==> (conditional(s).0 matches Ok(
            v,
        ) ==> v == items(branch_end(s2, 0).1, Seq::empty()).0->Ok_0),
        holds(cond, s.st.flags) ==> (items(s2, Seq::empty()) matches (Ok(v), s3) ==> s3.punct(
            "#else"@,
        ) matches (true, s4) ==> conditional(s) == (
            Ok::<Seq<ItemM>, ErrorM>(v),
            s4.to(behind_endif(s4, 0).at),
        )),
{
    lemma_branch_end(s2, 0);
    lemma_skips(items(s2, Seq::empty()).1.punct("#else"@).1, 0);
}

/// A theory that lies in no directory is read like a plain text, with the
/// same files at hand.
pub proof fn law_a_theory_without_a_place(
    src: Seq<char>,
    flags: Seq<Seq<char>>,
    is_diff: bool,
    files: Seq<SourceFileM>,
)
    ensures
        start_in(src, flags, is_diff, None, files) == start(src, flags, is_diff, files),
{
}

/// The functions that a theory starts with stand in order, none of them twice.
pub proof fn law_a_theory_starts_orderly(src: Seq<char>, flags: Seq<Seq<char>>, is_diff: bool)
    ensures
        orderly(initial(src, flags, is_diff).sig),
{
    reveal(orderly);
    lemma_pair_syms();
}

proof fn lemma_ordered_syms(syms: Seq<FunSymM>, n: int)
    ensures
        syms_sorted(ordered_syms(syms, n)),
    decreases n,
{
    if n > 0 {
        lemma_ordered_syms(syms, n - 1);
        law_symbols_are_an_ordered_set(ordered_syms(syms, n - 1), syms[n - 1]);
    }
}

proof fn lemma_ordered_names(names: Seq<Seq<char>>, n: int)
    ensures
        names_sorted(ordered_names(names, n)),
    decreases n,
{
    if n > 0 {
        lemma_ordered_names(names, n - 1);
        law_names_are_an_ordered_set(ordered_names(names, n - 1), names[n - 1]);
    }
}

/// The functions of a signature that a parser takes over stand in order, none
/// of them twice.
pub proof fn law_a_seeded_parser_is_orderly(s: PS, sig: MaudeSigM)
    ensures
        orderly(seeded(s, sig).sig),
{
    reveal(orderly);
    lemma_ordered_syms(sig.st_fun_syms, sig.st_fun_syms.len() as int);
    lemma_ordered_names(sig.st_ac_fun_syms, sig.st_ac_fun_syms.len() as int);
}

proof fn lemma_file_at(files: Seq<SourceFileM>, path: Seq<char>, i: int)
    requires
        0 <= i,
    ensures
        file_at(files, path, i) matches Some(f) ==> canonicals(files).contains(f.canonical),
    decreases files.len() - i,
{
    if i < files.len() {
        lemma_file_at(files, path, i + 1);
        assert(canonicals(files)[i] == files[i].canonical);
    }
}

/// An `#include` is refused as a cycle exactly where the file it names is open:
/// the chain of open files is then shown. A file that is not open is read,
/// whether it was read before or not.
pub proof fn law_includes_are_refused_in_cycles_only(s: PS, raw: Seq<char>, s1: PS, f: SourceFileM)
    requires
        files_ok(s.st),
        behind_directive(s).ws().need_literal() == (Ok::<Seq<char>, ErrorM>(raw), s1),
        s1.st == s.st,
        file_at(s.st.files, included_path(s1.place.base_dir, raw), 0) == Some(f),
        f.content is Ok,
    ensures
        ({
            let path = included_path(s1.place.base_dir, raw);
            let staged = included_staged(s1.place.staged_file, raw);
            let s2 = with_input(s1, path, staged);
            let inner = items(
                fragment(s2, f.content->Ok_0, path, staged, f.canonical),
                Seq::empty(),
            );
            if s.st.include_stack.contains(f.canonical) {
                included(s) == (
                    Err::<Seq<ItemM>, ErrorM>(
                        s2.err(cycle_text(s.st.include_stack, f.canonical)),
                    ),
                    s2,
                )
            } else {
                &&& included(s).1 == resumed(s2, inner.1)
                &&& inner.0 is Err ==> included(s).0 == inner.0
                &&& inner.0 is Ok && inner.1.ws().eof() ==> included(s).0 == inner.0
            }
        }),
{
    lemma_file_at(s.st.files, included_path(s1.place.base_dir, raw), 0);
    if !s.st.include_stack.contains(f.canonical) {
        lemma_room(s.st, f.canonical);
    }
}

} // verus!
