//! What paths name.

use crate::paths::{
    busy_end, file_name_of, idle_part, lead, parent_of, part_cut, part_start, path_in,
};
use crate::theory::{included_path, included_staged};
use vstd::prelude::*;

verus! {

/// A path that starts with a slash names the same file everywhere; any other is
/// taken from the directory, with one slash between the two.
pub proof fn law_paths_in_directories(dir: Seq<char>, p: Seq<char>)
    ensures
        p.len() > 0 && p[0] == '/' ==> path_in(dir, p) == p,
        (p.len() == 0 || p[0] != '/') && dir.len() > 0 && dir.last() != '/' ==> path_in(dir, p)
            == dir + seq!['/'] + p,
        (p.len() == 0 || p[0] != '/') && dir.len() > 0 && dir.last() == '/' ==> path_in(dir, p)
            == dir + p,
        (p.len() == 0 || p[0] != '/') && dir.len() == 0 ==> path_in(dir, p) == p,
{
    assert(dir.push('/') =~= dir + seq!['/']);
    if dir.len() == 0 {
        assert(dir + p =~= p);
    }
}

/// An included file is taken from the directory of the file that includes it.
pub proof fn law_included_files(dir: Seq<char>, raw: Seq<char>)
    ensures
        included_path(Some(dir), raw) == path_in(dir, raw),
        included_path(None, raw) == raw,
        included_staged(None, raw) is None,
        raw.len() > 0 && raw[0] == '/' ==> included_staged(Some(dir), raw) is None,
{
}

proof fn lemma_part(p: Seq<char>, l: int, b: int, e: int)
    requires
        l <= b <= e <= p.len(),
        0 <= l,
        b > l ==> p[b - 1] == '/',
        forall|i: int| b <= i < e ==> #[trigger] p[i] != '/',
    ensures
        part_start(p, l, e) == b,
    decreases e - b,
{
    if e > b {
        lemma_part(p, l, b, e - 1);
    }
}

/// The name of a file behind a slash is the last part of its path, and its
/// directory is what stands before the slash.
pub proof fn law_names_and_directories(dir: Seq<char>, name: Seq<char>)
    requires
        dir.len() > 1,
        dir[0] != '.',
        dir.last() != '/',
        dir.last() != '.',
        name.len() > 0,
        name != "."@,
        name != ".."@,
        forall|i: int| 0 <= i < name.len() ==> #[trigger] name[i] != '/',
    ensures
        file_name_of(dir + seq!['/'] + name) == Some(name),
        parent_of(dir + seq!['/'] + name) == Some(dir),
{
    let p = dir + seq!['/'] + name;
    let l = lead(p);
    let b = dir.len() as int + 1;
    let e = p.len() as int;
    assert(p[0] == dir[0]);
    assert(p[b - 1] == '/');
    assert forall|i: int| b <= i < e implies #[trigger] p[i] != '/' by {
        assert(p[i] == name[i - b]);
    }
    lemma_part(p, l, b, e);
    assert(p.subrange(b, e) =~= name);
    if name.len() == 1 && p[b] == '.' {
        reveal_strlit(".");
        assert(name[0] == p[b]);
        assert(name =~= "."@);
    }
    assert(!idle_part(p, l, e));
    assert(busy_end(p, l, e) == e);
    assert(part_cut(p, l, e) == b - 1);
    let c = dir.len() as int;
    assert(p[c - 1] == dir.last());
    lemma_busy(p, l, c);
    assert(p.take(c) =~= dir);
}

proof fn lemma_busy(p: Seq<char>, l: int, e: int)
    requires
        0 <= l < e <= p.len(),
        p[e - 1] != '/',
        p[e - 1] != '.',
    ensures
        busy_end(p, l, e) == e,
{
    lemma_start(p, l, e - 1);
}

proof fn lemma_start(p: Seq<char>, l: int, e: int)
    requires
        0 <= l <= e <= p.len(),
    ensures
        l <= part_start(p, l, e) <= e,
    decreases e - l,
{
    if e > l && p[e - 1] != '/' {
        lemma_start(p, l, e - 1);
    }
}

} // verus!
