//! Text primitives: how strings are taken apart, put together and compared.
//!
//! Every string is modelled by its sequence of characters.

use vstd::prelude::*;

verus! {

/// `String::push` appends one character.
pub assume_specification[ String::push ](s: &mut String, c: char)
    ensures
        final(s)@ == old(s)@.push(c),
;

/// `String::push_str` appends a whole string.
pub assume_specification[ String::push_str ](s: &mut String, t: &str)
    ensures
        final(s)@ == old(s)@ + t@,
;

/// Equality of string slices is equality of their characters.
pub assume_specification[ <str as PartialEq>::eq ](a: &str, b: &str) -> (r: bool)
    ensures
        r == (a@ == b@),
;

/// Whether the two strings hold the same characters.
pub fn same(a: &str, b: &str) -> (r: bool)
    ensures
        r == (a@ == b@),
{
    *a == *b
}

/// Whether a character beyond ASCII has the Unicode `Alphabetic` property.
pub uninterp spec fn wide_letter(c: char) -> bool;

/// Whether a character beyond ASCII has the Unicode `Alphabetic` property or
/// is numeric.
pub uninterp spec fn wide_alphanumeric(c: char) -> bool;

/// A letter of ASCII.
pub open spec fn ascii_letter(c: char) -> bool {
    'a' <= c <= 'z' || 'A' <= c <= 'Z'
}

/// Whether a character has the Unicode `Alphabetic` property.
#[verifier::opaque]
pub open spec fn alphabetic(c: char) -> bool {
    if c <= '\u{7F}' {
        ascii_letter(c)
    } else {
        wide_letter(c)
    }
}

/// Whether a character has the Unicode `Alphabetic` property or is numeric.
#[verifier::opaque]
pub open spec fn alphanumeric(c: char) -> bool {
    if c <= '\u{7F}' {
        ascii_letter(c) || ascii_digit(c)
    } else {
        wide_alphanumeric(c)
    }
}

/// Whether a character has the Unicode `White_Space` property.
#[verifier::opaque]
pub open spec fn white_space(c: char) -> bool {
    ||| '\u{9}' <= c <= '\u{D}'
    ||| c == ' ' || c == '\u{85}' || c == '\u{A0}' || c == '\u{1680}'
    ||| '\u{2000}' <= c <= '\u{200A}'
    ||| c == '\u{2028}' || c == '\u{2029}' || c == '\u{202F}' || c == '\u{205F}'
    ||| c == '\u{3000}'
}

/// `char::is_alphabetic`: in ASCII the letters; beyond it the answer depends
/// on the character alone.
pub assume_specification[ char::is_alphabetic ](c: char) -> (r: bool)
    ensures
        r == (if c <= '\u{7F}' {
            ascii_letter(c)
        } else {
            wide_letter(c)
        }),
;

/// `char::is_alphanumeric`: in ASCII the letters and the digits; beyond it the
/// answer depends on the character alone.
pub assume_specification[ char::is_alphanumeric ](c: char) -> (r: bool)
    ensures
        r == (if c <= '\u{7F}' {
            ascii_letter(c) || ascii_digit(c)
        } else {
            wide_alphanumeric(c)
        }),
;

/// `char::is_whitespace`: the characters with the Unicode property.
pub assume_specification[ char::is_whitespace ](c: char) -> (r: bool)
    ensures
        r == white_space(c),
;

/// Whether `c` is a letter.
pub fn is_letter(c: char) -> (r: bool)
    ensures
        r == alphabetic(c),
{
    proof {
        reveal(alphabetic);
    }
    c.is_alphabetic()
}

/// Whether `c` is a letter or numeric.
pub fn is_word_char(c: char) -> (r: bool)
    ensures
        r == alphanumeric(c),
{
    proof {
        reveal(alphanumeric);
    }
    c.is_alphanumeric()
}

/// A character an identifier continues with.
pub open spec fn ident_char(c: char) -> bool {
    alphanumeric(c) || c == '_'
}

/// Whether `c` may stand inside an identifier.
pub fn is_ident_char(c: char) -> (r: bool)
    ensures
        r == ident_char(c),
{
    is_word_char(c) || c == '_'
}

pub open spec fn ascii_digit(c: char) -> bool {
    '0' <= c <= '9'
}

pub fn is_digit(c: char) -> (r: bool)
    ensures
        r == ascii_digit(c),
{
    '0' <= c && c <= '9'
}

pub open spec fn ascii_upper(c: char) -> bool {
    'A' <= c <= 'Z'
}

pub open spec fn ascii_lower(c: char) -> bool {
    'a' <= c <= 'z'
}

pub open spec fn ascii_alpha(c: char) -> bool {
    ascii_upper(c) || ascii_lower(c)
}

pub fn is_upper(c: char) -> (r: bool)
    ensures
        r == ascii_upper(c),
{
    'A' <= c && c <= 'Z'
}

pub fn is_ascii_alpha(c: char) -> (r: bool)
    ensures
        r == ascii_alpha(c),
{
    ('A' <= c && c <= 'Z') || ('a' <= c && c <= 'z')
}

pub open spec fn ascii_hex(c: char) -> bool {
    ascii_digit(c) || 'A' <= c <= 'F' || 'a' <= c <= 'f'
}

pub fn is_hex_digit(c: char) -> (r: bool)
    ensures
        r == ascii_hex(c),
{
    ('0' <= c && c <= '9') || ('A' <= c && c <= 'F') || ('a' <= c && c <= 'f')
}

/// The characters of `s`, one by one.
pub fn chars_of(s: &str) -> (v: Vec<char>)
    ensures
        v@ == s@,
{
    let mut v: Vec<char> = Vec::new();
    for c in it: s.chars()
        invariant
            v@ == it.seq().take(it.index() as int),
            it.seq() == s@,
    {
        v.push(c);
    }
    assert(s@.take(s@.len() as int) =~= s@);
    v
}

/// The string made of `v[from..to]`.
pub fn string_of(v: &Vec<char>, from: usize, to: usize) -> (s: String)
    requires
        from <= to <= v@.len(),
    ensures
        s@ == v@.subrange(from as int, to as int),
{
    let mut s = String::new();
    let mut i: usize = from;
    while i < to
        invariant
            from <= i <= to <= v@.len(),
            s@ == v@.subrange(from as int, i as int),
        decreases to - i,
    {
        s.push(v[i]);
        i = i + 1;
        assert(s@ =~= v@.subrange(from as int, i as int));
    }
    s
}

/// The decimal digit that stands for `d`.
pub open spec fn digit_char(d: int) -> char {
    (48 + d) as char
}

/// Decimal notation without leading zeros.
pub open spec fn decimal(n: nat) -> Seq<char>
    decreases n,
{
    if n < 10 {
        seq![digit_char(n as int)]
    } else {
        decimal(n / 10).push(digit_char((n % 10) as int))
    }
}

fn digit(d: u64) -> (c: char)
    requires
        d < 10,
    ensures
        c == digit_char(d as int),
{
    (48u8 + (d as u8)) as char
}

/// The number in decimal notation.
pub fn to_decimal(n: u64) -> (s: String)
    ensures
        s@ == decimal(n as nat),
    decreases n,
{
    if n < 10 {
        let mut s = String::new();
        s.push(digit(n));
        assert(s@ =~= seq![digit_char(n as int)]);
        s
    } else {
        let mut s = to_decimal(n / 10);
        s.push(digit(n % 10));
        s
    }
}

/// `s` between double quotes.
pub open spec fn quoted(s: Seq<char>) -> Seq<char> {
    seq!['"'] + s + seq!['"']
}

pub fn quote(s: &str) -> (r: String)
    ensures
        r@ == quoted(s@),
{
    let mut r = String::new();
    r.push('"');
    assert(r@ =~= seq!['"']);
    r.push_str(s);
    r.push('"');
    assert(r@ =~= quoted(s@));
    r
}

/// The items one after the other, with `sep` between neighbours.
pub open spec fn joined(items: Seq<Seq<char>>, sep: Seq<char>) -> Seq<char>
    decreases items.len(),
{
    if items.len() == 0 {
        Seq::empty()
    } else if items.len() == 1 {
        items[0]
    } else {
        joined(items.drop_last(), sep) + sep + items.last()
    }
}

/// The first `n` of `items`, with `sep` between neighbours.
pub fn join_first(items: &Vec<String>, n: usize, sep: &str) -> (r: String)
    requires
        n <= items@.len(),
    ensures
        r@ == joined(items.deep_view().take(n as int), sep@),
{
    let mut r = String::new();
    let mut i: usize = 0;
    let ghost all = items.deep_view();
    assert(r@ =~= joined(all.take(0), sep@));
    while i < n
        invariant
            i <= n <= items@.len(),
            all == items.deep_view(),
            r@ == joined(all.take(i as int), sep@),
        decreases n - i,
    {
        if i > 0 {
            r.push_str(sep);
        }
        r.push_str(&items[i]);
        assert(all.take(i + 1).drop_last() =~= all.take(i as int));
        assert(all.take(i + 1).last() == items@[i as int]@);
        assert(i == 0 ==> r@ =~= items@[0]@);
        i = i + 1;
    }
    r
}

pub fn join(items: &Vec<String>, sep: &str) -> (r: String)
    ensures
        r@ == joined(items.deep_view(), sep@),
{
    assert(items.deep_view().take(items@.len() as int) =~= items.deep_view());
    join_first(items, items.len(), sep)
}

/// Whether `name` is one of `items`.
pub fn has_text(items: &Vec<String>, name: &str) -> (r: bool)
    ensures
        r == items.deep_view().contains(name@),
{
    let mut i: usize = 0;
    while i < items.len()
        invariant
            i <= items@.len(),
            forall|j: int| 0 <= j < i ==> items.deep_view()[j] != name@,
        decreases items@.len() - i,
    {
        if same(&items[i], name) {
            assert(items.deep_view()[i as int] == name@);
            return true;
        }
        i = i + 1;
    }
    false
}

/// First index at or after `i` where `s` holds no white space, or the length.
pub open spec fn skip_space(s: Seq<char>, i: int) -> int
    decreases s.len() - i,
{
    if 0 <= i < s.len() && white_space(s[i]) {
        skip_space(s, i + 1)
    } else {
        i
    }
}

/// Last index at or before `i` that no white space precedes, but not below `from`.
pub open spec fn drop_space(s: Seq<char>, from: int, i: int) -> int
    decreases i,
{
    if from < i && 0 < i <= s.len() && white_space(s[i - 1]) {
        drop_space(s, from, i - 1)
    } else {
        i
    }
}

/// `s` without the white space at its two ends.
pub open spec fn trimmed(s: Seq<char>) -> Seq<char> {
    let a = skip_space(s, 0);
    s.subrange(a, drop_space(s, a, s.len() as int))
}

/// `v` without the white space at its two ends.
pub fn trim_chars(v: &Vec<char>) -> (r: String)
    ensures
        r@ == trimmed(v@),
{
    let mut a: usize = 0;
    while a < v.len() && v[a].is_whitespace()
        invariant
            a <= v@.len(),
            skip_space(v@, 0) == skip_space(v@, a as int),
        decreases v@.len() - a,
    {
        a = a + 1;
    }
    let mut b: usize = v.len();
    while a < b && v[b - 1].is_whitespace()
        invariant
            a <= b <= v@.len(),
            drop_space(v@, a as int, v@.len() as int) == drop_space(v@, a as int, b as int),
        decreases b,
    {
        b = b - 1;
    }
    string_of(v, a, b)
}

/// Order of names: by code point, position by position; a prefix comes first.
pub open spec fn name_lt(a: Seq<char>, b: Seq<char>) -> bool
    decreases b.len(),
{
    if b.len() == 0 {
        false
    } else if a.len() == 0 {
        true
    } else if a[0] != b[0] {
        (a[0] as int) < (b[0] as int)
    } else {
        name_lt(a.subrange(1, a.len() as int), b.subrange(1, b.len() as int))
    }
}

/// Whether `a` comes before `b`.
pub fn name_less(a: &str, b: &str) -> (r: bool)
    ensures
        r == name_lt(a@, b@),
{
    let x = chars_of(a);
    let y = chars_of(b);
    let mut i: usize = 0;
    assert(x@.subrange(0, x@.len() as int) =~= x@);
    assert(y@.subrange(0, y@.len() as int) =~= y@);
    loop
        invariant
            i <= x@.len(),
            i <= y@.len(),
            name_lt(a@, b@) == name_lt(
                x@.subrange(i as int, x@.len() as int),
                y@.subrange(i as int, y@.len() as int),
            ),
        decreases y@.len() - i,
    {
        let ghost xs = x@.subrange(i as int, x@.len() as int);
        let ghost ys = y@.subrange(i as int, y@.len() as int);
        if i >= y.len() {
            return false;
        }
        if i >= x.len() {
            return true;
        }
        if x[i] != y[i] {
            return x[i] < y[i];
        }
        assert(xs.subrange(1, xs.len() as int) =~= x@.subrange(i + 1, x@.len() as int));
        assert(ys.subrange(1, ys.len() as int) =~= y@.subrange(i + 1, y@.len() as int));
        i = i + 1;
    }
}

/// ASCII letters in upper case, all other characters unchanged.
pub open spec fn upper_char(c: char) -> char {
    if ascii_lower(c) {
        (c as int - 32) as char
    } else {
        c
    }
}

pub open spec fn upper_text(s: Seq<char>) -> Seq<char> {
    Seq::new(s.len(), |i: int| upper_char(s[i]))
}

/// `s` with its ASCII letters in upper case.
pub fn to_upper(s: &str) -> (r: String)
    ensures
        r@ == upper_text(s@),
{
    let v = chars_of(s);
    let mut r = String::new();
    let mut i: usize = 0;
    while i < v.len()
        invariant
            i <= v@.len(),
            v@ == s@,
            r@ == upper_text(s@).take(i as int),
        decreases v@.len() - i,
    {
        let c = v[i];
        if 'a' <= c && c <= 'z' {
            r.push(((c as u8) - 32u8) as char);
        } else {
            r.push(c);
        }
        i = i + 1;
        assert(r@ =~= upper_text(s@).take(i as int));
    }
    assert(upper_text(s@).take(s@.len() as int) =~= upper_text(s@));
    r
}

/// The number of bytes of a character in UTF-8.
pub open spec fn utf8_len(c: char) -> int {
    if (c as int) < 0x80 {
        1
    } else if (c as int) < 0x800 {
        2
    } else if (c as int) < 0x10000 {
        3
    } else {
        4
    }
}

pub fn utf8_width(c: char) -> (n: usize)
    ensures
        n == utf8_len(c),
{
    let u: u32 = c as u32;
    if u < 0x80 {
        1
    } else if u < 0x800 {
        2
    } else if u < 0x10000 {
        3
    } else {
        4
    }
}

/// The number of bytes of `s` in UTF-8.
pub open spec fn utf8_size(s: Seq<char>) -> int
    decreases s.len(),
{
    if s.len() == 0 {
        0
    } else {
        utf8_size(s.drop_last()) + utf8_len(s.last())
    }
}

} // verus!
