//! Text without its comments.

use crate::text::{chars_of, string_of};
use crate::tokens::{lemma_line_end, line_end, two};
use vstd::prelude::*;

verus! {

/// The position behind the block comment that goes on at `i`, and behind the
/// newline right after it.
pub open spec fn comment_end(cs: Seq<char>, i: int) -> int
    decreases cs.len() - i,
{
    if i < 0 || i >= cs.len() {
        cs.len() as int
    } else if two(cs, i, '*', '/') {
        if i + 2 < cs.len() && cs[i + 2] == '\n' {
            i + 3
        } else {
            i + 2
        }
    } else {
        comment_end(cs, i + 1)
    }
}

pub proof fn lemma_comment_end(cs: Seq<char>, i: int)
    requires
        0 <= i <= cs.len(),
    ensures
        i <= comment_end(cs, i) <= cs.len(),
    decreases cs.len() - i,
{
    if i < cs.len() && !two(cs, i, '*', '/') {
        lemma_comment_end(cs, i + 1);
    }
}

/// The text from `i` on without its comments. A comment takes the newline
/// before it along; a line comment leaves the one behind it.
pub open spec fn uncommented(cs: Seq<char>, i: int) -> Seq<char>
    decreases cs.len() - i,
{
    proof {
        if 0 <= i < cs.len() {
            lemma_line_end(cs, i + 3);
            lemma_line_end(cs, i + 2);
            if i + 3 <= cs.len() {
                lemma_comment_end(cs, i + 3);
            }
            if i + 2 <= cs.len() {
                lemma_comment_end(cs, i + 2);
            }
        }
    }
    if i < 0 || i >= cs.len() {
        Seq::empty()
    } else if cs[i] == '\n' && two(cs, i + 1, '/', '/') {
        uncommented(cs, line_end(cs, i + 3))
    } else if two(cs, i, '/', '/') {
        uncommented(cs, line_end(cs, i + 2))
    } else if cs[i] == '\n' && two(cs, i + 1, '/', '*') {
        uncommented(cs, comment_end(cs, i + 3))
    } else if two(cs, i, '/', '*') {
        uncommented(cs, comment_end(cs, i + 2))
    } else {
        seq![cs[i]] + uncommented(cs, i + 1)
    }
}

fn is_two(cs: &Vec<char>, i: usize, a: char, b: char) -> (r: bool)
    ensures
        r == two(cs@, i as int, a, b),
{
    i < cs.len() && cs.len() - i > 1 && cs[i] == a && cs[i + 1] == b
}

fn skip_line(cs: &Vec<char>, from: usize) -> (r: usize)
    requires
        from <= cs@.len(),
    ensures
        r == line_end(cs@, from as int),
        from <= r <= cs@.len(),
{
    let mut i: usize = from;
    while i < cs.len() && cs[i] != '\n'
        invariant
            from <= i <= cs@.len(),
            line_end(cs@, i as int) == line_end(cs@, from as int),
        decreases cs@.len() - i,
    {
        i = i + 1;
    }
    i
}

fn remove_comment_block(cs: &Vec<char>, from: usize) -> (r: usize)
    requires
        from <= cs@.len(),
    ensures
        r == comment_end(cs@, from as int),
        from <= r <= cs@.len(),
{
    let mut i: usize = from;
    while i < cs.len()
        invariant
            from <= i <= cs@.len(),
            comment_end(cs@, i as int) == comment_end(cs@, from as int),
        decreases cs@.len() - i,
    {
        if is_two(cs, i, '*', '/') {
            if cs.len() - i > 2 && cs[i + 2] == '\n' {
                return i + 3;
            }
            return i + 2;
        }
        i = i + 1;
    }
    i
}

/// `s` without its comments.
pub fn remove_comments(s: &str) -> (r: String)
    ensures
        r@ == uncommented(s@, 0),
{
    let cs = chars_of(s);
    assert(cs@.subrange(0, cs@.len() as int) =~= s@);
    uncomment(&cs, 0, cs.len())
}

/// The text from `from` to `to` without its comments.
pub fn uncomment(src: &Vec<char>, from: usize, to: usize) -> (r: String)
    requires
        from <= to <= src@.len(),
    ensures
        r@ == uncommented(src@.subrange(from as int, to as int), 0),
{
    let text = string_of(src, from, to);
    let cs = chars_of(&text);
    let mut out = String::new();
    let mut i: usize = 0;
    while i < cs.len()
        invariant
            i <= cs@.len(),
            out@ + uncommented(cs@, i as int) == uncommented(cs@, 0),
        decreases cs@.len() - i,
    {
        let after_newline = cs[i] == '\n';
        if after_newline && is_two(&cs, i + 1, '/', '/') {
            i = skip_line(&cs, i + 3);
        } else if is_two(&cs, i, '/', '/') {
            i = skip_line(&cs, i + 2);
        } else if after_newline && is_two(&cs, i + 1, '/', '*') {
            i = remove_comment_block(&cs, i + 3);
        } else if is_two(&cs, i, '/', '*') {
            i = remove_comment_block(&cs, i + 2);
        } else {
            let ghost before = out@;
            out.push(cs[i]);
            assert(before + uncommented(cs@, i as int) =~= out@ + uncommented(cs@, i + 1));
            i = i + 1;
        }
    }
    assert(out@ + uncommented(cs@, i as int) =~= out@);
    out
}

} // verus!
