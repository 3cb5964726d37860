//! Paths, written with `/` between their parts.

use crate::text::{chars_of, string_of};
use vstd::prelude::*;

verus! {

/// Whether a path starts at the root.
pub open spec fn absolute(p: Seq<char>) -> bool {
    p.len() > 0 && p[0] == '/'
}

/// The path `p` seen from the directory `dir`.
pub open spec fn path_in(dir: Seq<char>, p: Seq<char>) -> Seq<char> {
    if absolute(p) {
        p
    } else if dir.len() > 0 && dir.last() != '/' {
        dir.push('/') + p
    } else {
        dir + p
    }
}

/// Characters before the first part that can be left out: the root, or the
/// dot of a path that starts with `./`.
pub open spec fn lead(p: Seq<char>) -> int {
    if absolute(p) {
        1
    } else if p.len() > 0 && p[0] == '.' && (p.len() == 1 || p[1] == '/') {
        1
    } else {
        0
    }
}

/// Where the last part of `p[lead..e]` starts.
pub open spec fn part_start(p: Seq<char>, lead: int, e: int) -> int
    decreases e - lead,
{
    if e <= lead {
        lead
    } else if p[e - 1] == '/' {
        e
    } else {
        part_start(p, lead, e - 1)
    }
}

/// Where the path ends that is left of `p[..e]` without its last part.
pub open spec fn part_cut(p: Seq<char>, lead: int, e: int) -> int {
    let b = part_start(p, lead, e);
    if b > lead {
        b - 1
    } else {
        lead
    }
}

/// Whether the last part of `p[lead..e]` is empty or a dot, and so names nothing.
pub open spec fn idle_part(p: Seq<char>, lead: int, e: int) -> bool {
    let b = part_start(p, lead, e);
    b == e || (b + 1 == e && p[b] == '.')
}

/// Where `p[..e]` ends without the parts at its end that name nothing.
pub open spec fn busy_end(p: Seq<char>, lead: int, e: int) -> int
    decreases e - lead,
{
    if e > lead && idle_part(p, lead, e) {
        proof {
            lemma_part_start(p, lead, e);
        }
        busy_end(p, lead, part_cut(p, lead, e))
    } else {
        e
    }
}

pub proof fn lemma_part_start(p: Seq<char>, lead: int, e: int)
    requires
        lead <= e,
    ensures
        lead <= part_start(p, lead, e) <= e,
        e > lead ==> lead <= part_cut(p, lead, e) < e,
    decreases e - lead,
{
    if e > lead && p[e - 1] != '/' {
        lemma_part_start(p, lead, e - 1);
    }
}

/// The path without its last part; none for the root and the empty path.
pub open spec fn parent_of(p: Seq<char>) -> Option<Seq<char>> {
    let l = lead(p);
    let e = busy_end(p, l, p.len() as int);
    if e > l {
        Some(p.take(busy_end(p, l, part_cut(p, l, e))))
    } else if l == 1 && p[0] == '.' {
        Some(Seq::empty())
    } else {
        None
    }
}

/// The last part of the path; none where that is the root or a dot or two.
pub open spec fn file_name_of(p: Seq<char>) -> Option<Seq<char>> {
    let l = lead(p);
    let e = busy_end(p, l, p.len() as int);
    let part = p.subrange(part_start(p, l, e), e);
    if e > l && part != ".."@ {
        Some(part)
    } else {
        None
    }
}

pub fn is_absolute(p: &Vec<char>) -> (r: bool)
    ensures
        r == absolute(p@),
{
    p.len() > 0 && p[0] == '/'
}

/// Whether the path starts at the root.
pub fn path_is_absolute(p: &str) -> (r: bool)
    ensures
        r == absolute(p@),
{
    is_absolute(&chars_of(p))
}

/// The path `p` seen from the directory `dir`.
pub fn join_path(dir: &str, p: &str) -> (r: String)
    ensures
        r@ == path_in(dir@, p@),
{
    if path_is_absolute(p) {
        return p.to_string();
    }
    let d = chars_of(dir);
    let mut r = dir.to_string();
    if d.len() > 0 && d[d.len() - 1] != '/' {
        r.push('/');
    }
    r.push_str(p);
    r
}

fn path_lead(p: &Vec<char>) -> (n: usize)
    ensures
        n == lead(p@),
        n <= p@.len(),
{
    if is_absolute(p) || (p.len() > 0 && p[0] == '.' && (p.len() == 1 || p[1] == '/')) {
        1
    } else {
        0
    }
}

fn last_part(p: &Vec<char>, lead: usize, e: usize) -> (b: usize)
    requires
        lead <= e <= p@.len(),
    ensures
        b == part_start(p@, lead as int, e as int),
        lead <= b <= e,
{
    let mut b: usize = e;
    while b > lead && p[b - 1] != '/'
        invariant
            lead <= b <= e <= p@.len(),
            part_start(p@, lead as int, b as int) == part_start(p@, lead as int, e as int),
        decreases b,
    {
        b = b - 1;
    }
    b
}

fn cut_part(p: &Vec<char>, lead: usize, e: usize) -> (c: usize)
    requires
        lead < e <= p@.len(),
    ensures
        c == part_cut(p@, lead as int, e as int),
        lead <= c < e,
{
    let b = last_part(p, lead, e);
    if b > lead {
        b - 1
    } else {
        lead
    }
}

fn path_end(p: &Vec<char>, lead: usize, from: usize) -> (e: usize)
    requires
        lead <= from <= p@.len(),
    ensures
        e == busy_end(p@, lead as int, from as int),
        lead <= e <= from,
{
    let mut e: usize = from;
    loop
        invariant
            lead <= e <= from <= p@.len(),
            busy_end(p@, lead as int, e as int) == busy_end(p@, lead as int, from as int),
        decreases e,
    {
        if e == lead {
            return e;
        }
        let b = last_part(p, lead, e);
        if !(b == e || (b + 1 == e && p[b] == '.')) {
            return e;
        }
        e = cut_part(p, lead, e);
    }
}

/// The path without its last part.
pub fn parent_path(path: &str) -> (r: Option<String>)
    ensures
        r.deep_view() == parent_of(path@),
{
    let p = chars_of(path);
    let l = path_lead(&p);
    let e = path_end(&p, l, p.len());
    if e > l {
        let c = cut_part(&p, l, e);
        let n = path_end(&p, l, c);
        assert(p@.subrange(0, n as int) =~= p@.take(n as int));
        Some(string_of(&p, 0, n))
    } else if l == 1 && p[0] == '.' {
        let s = String::new();
        assert(s@ =~= Seq::empty());
        Some(s)
    } else {
        None
    }
}

/// The last part of the path.
pub fn path_file_name(path: &str) -> (r: Option<String>)
    ensures
        r.deep_view() == file_name_of(path@),
{
    let p = chars_of(path);
    let l = path_lead(&p);
    let e = path_end(&p, l, p.len());
    let b = last_part(&p, l, e);
    if e > l {
        let part = string_of(&p, b, e);
        if !crate::text::same(&part, "..") {
            return Some(part);
        }
    }
    None
}

} // verus!
