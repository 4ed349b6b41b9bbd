//! String helpers shared across the crate.
//!
//! Exec code here works over `Vec<char>` so that every transformation has an
//! exact contract over `Seq<char>`. Conversion between `String` and
//! `Vec<char>` is verified except for the single `push_char` primitive,
//! which std does not expose to the verifier.

use vstd::prelude::*;

verus! {

/// Append one character to a string.
///
/// Relies on `String::push`: appends the character to the end of the string.
#[verifier::external_body]
pub fn push_char(s: &mut String, c: char)
    ensures
        final(s)@ == old(s)@.push(c),
{
    s.push(c);
}

/// The characters of a string, as a vector.
pub fn chars_of(s: &str) -> (r: Vec<char>)
    ensures
        r@ == s@,
{
    let n = s.unicode_len();
    let mut r: Vec<char> = Vec::new();
    let mut i: usize = 0;
    while i < n
        invariant
            n == s@.len(),
            i <= n,
            r@ == s@.subrange(0, i as int),
        decreases n - i,
    {
        r.push(s.get_char(i));
        assert(r@ == s@.subrange(0, i + 1 as int));
        i += 1;
    }
    assert(s@.subrange(0, n as int) == s@);
    r
}

/// Build a string from a vector of characters.
pub fn string_of(v: &Vec<char>) -> (r: String)
    ensures
        r@ == v@,
{
    let n = v.len();
    let mut r = String::new();
    let mut i: usize = 0;
    while i < n
        invariant
            n == v@.len(),
            i <= n,
            r@ == v@.subrange(0, i as int),
        decreases n - i,
    {
        push_char(&mut r, v[i]);
        assert(r@ == v@.subrange(0, i + 1 as int));
        i += 1;
    }
    assert(v@.subrange(0, n as int) == v@);
    r
}

/// Append every character of `v` to the string `s`.
pub fn append_chars(s: &mut String, v: &Vec<char>)
    ensures
        final(s)@ == old(s)@ + v@,
{
    let n = v.len();
    let mut i: usize = 0;
    while i < n
        invariant
            n == v@.len(),
            i <= n,
            s@ == old(s)@ + v@.subrange(0, i as int),
        decreases n - i,
    {
        push_char(s, v[i]);
        assert(s@ == old(s)@ + v@.subrange(0, i + 1 as int));
        i += 1;
    }
    assert(old(s)@ + v@.subrange(0, n as int) == old(s)@ + v@);
}

/// Whether two strings hold the same characters.
pub fn str_eq(a: &str, b: &str) -> (r: bool)
    ensures
        r == (a@ == b@),
{
    let sa = a.to_owned();
    let sb = b.to_owned();
    sa == sb
}

/// Whether a character is an ASCII uppercase letter.
pub open spec fn spec_is_upper(c: char) -> bool {
    65 <= c as u32 <= 90
}

/// Whether a character is an ASCII lowercase letter.
pub open spec fn spec_is_lower(c: char) -> bool {
    97 <= c as u32 <= 122
}

/// Whether a character is an ASCII digit.
pub open spec fn spec_is_digit(c: char) -> bool {
    48 <= c as u32 <= 57
}

/// The ASCII lowercase counterpart of a character; other characters pass
/// through unchanged.
pub open spec fn spec_lower(c: char) -> char {
    if spec_is_upper(c) {
        (((c as u32) + 32) as u8) as char
    } else {
        c
    }
}

/// Whether a character is an ASCII uppercase letter.
pub fn is_upper(c: char) -> (r: bool)
    ensures
        r == spec_is_upper(c),
{
    let u = c as u32;
    65 <= u && u <= 90
}

/// Whether a character is an ASCII lowercase letter.
pub fn is_lower(c: char) -> (r: bool)
    ensures
        r == spec_is_lower(c),
{
    let u = c as u32;
    97 <= u && u <= 122
}

/// Whether a character is an ASCII digit.
pub fn is_digit(c: char) -> (r: bool)
    ensures
        r == spec_is_digit(c),
{
    let u = c as u32;
    48 <= u && u <= 57
}

/// The ASCII lowercase counterpart of a character.
pub fn lower(c: char) -> (r: char)
    ensures
        r == spec_lower(c),
{
    let u = c as u32;
    if 65 <= u && u <= 90 {
        ((u + 32) as u8) as char
    } else {
        c
    }
}

/// The ASCII-lowercased form of a character sequence.
pub open spec fn spec_lower_seq(s: Seq<char>) -> Seq<char> {
    s.map_values(|c: char| spec_lower(c))
}

/// Lowercase every ASCII uppercase letter of a character vector.
pub fn lower_chars(v: &Vec<char>) -> (r: Vec<char>)
    ensures
        r@ == spec_lower_seq(v@),
{
    let n = v.len();
    let mut r: Vec<char> = Vec::new();
    let mut i: usize = 0;
    while i < n
        invariant
            n == v@.len(),
            i <= n,
            r@ == spec_lower_seq(v@.subrange(0, i as int)),
        decreases n - i,
    {
        r.push(lower(v[i]));
        assert(spec_lower_seq(v@.subrange(0, i + 1 as int)) =~= r@);
        i += 1;
    }
    assert(v@.subrange(0, n as int) == v@);
    r
}

/// The first index at or after `from` where `c` occurs, if any.
pub fn find_char(v: &Vec<char>, from: usize, c: char) -> (r: Option<usize>)
    requires
        from <= v@.len(),
    ensures
        match r {
            Some(i) => from <= i < v@.len() && v@[i as int] == c && forall|j: int|
                from <= j < i ==> v@[j] != c,
            None => forall|j: int| from <= j < v@.len() ==> v@[j] != c,
        },
{
    let n = v.len();
    let mut i: usize = from;
    while i < n
        invariant
            n == v@.len(),
            from <= i <= n,
            forall|j: int| from <= j < i ==> v@[j] != c,
        decreases n - i,
    {
        if v[i] == c {
            return Some(i);
        }
        i += 1;
    }
    None
}

/// The characters of `v` from `i` (inclusive) to `j` (exclusive).
pub fn subrange_chars(v: &Vec<char>, i: usize, j: usize) -> (r: Vec<char>)
    requires
        i <= j <= v@.len(),
    ensures
        r@ == v@.subrange(i as int, j as int),
{
    let mut r: Vec<char> = Vec::new();
    let mut k: usize = i;
    while k < j
        invariant
            i <= k <= j <= v@.len(),
            r@ == v@.subrange(i as int, k as int),
        decreases j - k,
    {
        r.push(v[k]);
        assert(r@ == v@.subrange(i as int, k + 1 as int));
        k += 1;
    }
    r
}

/// Whether `p` is a prefix of `v`.
pub fn starts_with_chars(v: &Vec<char>, p: &Vec<char>) -> (r: bool)
    ensures
        r == (p@.len() <= v@.len() && v@.subrange(0, p@.len() as int) == p@),
{
    let np = p.len();
    if np > v.len() {
        return false;
    }
    let mut i: usize = 0;
    while i < np
        invariant
            np == p@.len() <= v@.len(),
            i <= np,
            forall|j: int| 0 <= j < i ==> v@[j] == p@[j],
        decreases np - i,
    {
        if v[i] != p[i] {
            assert(v@.subrange(0, np as int) != p@) by {
                assert(v@.subrange(0, np as int)[i as int] != p@[i as int]);
            }
            return false;
        }
        i += 1;
    }
    assert(v@.subrange(0, np as int) =~= p@);
    true
}

/// Splitting a character sequence on a separator, as `str::split` does: the
/// empty sequence yields one empty part, and each separator ends a part.
pub open spec fn split_chars(s: Seq<char>, sep: char) -> Seq<Seq<char>>
    decreases s.len(),
{
    if s.len() == 0 {
        seq![Seq::<char>::empty()]
    } else if s[0] == sep {
        seq![Seq::<char>::empty()] + split_chars(s.skip(1), sep)
    } else {
        let rest = split_chars(s.skip(1), sep);
        seq![seq![s[0]] + rest[0]] + rest.skip(1)
    }
}

/// A split always yields at least one part.
pub proof fn lemma_split_nonempty(s: Seq<char>, sep: char)
    ensures
        split_chars(s, sep).len() >= 1,
    decreases s.len(),
{
    if s.len() == 0 {
    } else if s[0] == sep {
    } else {
        lemma_split_nonempty(s.skip(1), sep);
    }
}

/// Splitting a sequence without the separator yields that one part.
pub proof fn lemma_split_no_sep(s: Seq<char>, sep: char)
    requires
        forall|i: int| 0 <= i < s.len() ==> s[i] != sep,
    ensures
        split_chars(s, sep) == seq![s],
    decreases s.len(),
{
    if s.len() == 0 {
        assert(split_chars(s, sep) =~~= seq![s]);
    } else {
        lemma_split_no_sep(s.skip(1), sep);
        assert(split_chars(s, sep) =~~= seq![s]);
    }
}

/// Splitting a sequence that starts with a separator-free part followed by a
/// separator prepends that part to the split of the remainder.
pub proof fn lemma_split_glue(a: Seq<char>, rest: Seq<char>, sep: char)
    requires
        forall|i: int| 0 <= i < a.len() ==> a[i] != sep,
    ensures
        split_chars(a + seq![sep] + rest, sep) == seq![a] + split_chars(rest, sep),
    decreases a.len(),
{
    if a.len() == 0 {
        assert((a + seq![sep] + rest).skip(1) =~= rest);
        assert(split_chars(a + seq![sep] + rest, sep) =~~= seq![a] + split_chars(rest, sep));
    } else {
        lemma_split_glue(a.skip(1), rest, sep);
        lemma_split_nonempty(rest, sep);
        assert((a + seq![sep] + rest).skip(1) =~= a.skip(1) + seq![sep] + rest);
        assert(split_chars(a + seq![sep] + rest, sep) =~~= seq![a] + split_chars(rest, sep));
    }
}

/// A sequence that holds the separator splits into at least two parts.
pub proof fn lemma_split_has_sep(s: Seq<char>, sep: char)
    requires
        exists|i: int| 0 <= i < s.len() && s[i] == sep,
    ensures
        split_chars(s, sep).len() >= 2,
    decreases s.len(),
{
    if s[0] == sep {
        lemma_split_nonempty(s.skip(1), sep);
    } else {
        let i = choose|i: int| 0 <= i < s.len() && s[i] == sep;
        assert(s.skip(1)[i - 1] == sep);
        lemma_split_has_sep(s.skip(1), sep);
    }
}

/// Split a character vector on a separator.
pub fn split_char_vec(v: &Vec<char>, sep: char) -> (r: Vec<Vec<char>>)
    ensures
        r.deep_view() == split_chars(v@, sep),
{
    let r = split_from(v, 0, sep);
    assert(v@.skip(0) =~= v@);
    r
}

fn split_from(v: &Vec<char>, start: usize, sep: char) -> (r: Vec<Vec<char>>)
    requires
        start <= v@.len(),
    ensures
        r.deep_view() == split_chars(v@.skip(start as int), sep),
        r@.len() >= 1,
    decreases v@.len() - start,
{
    proof {
        lemma_split_nonempty(v@.skip(start as int), sep);
    }
    if start == v.len() {
        let mut r: Vec<Vec<char>> = Vec::new();
        r.push(Vec::new());
        assert(r.deep_view() =~~= split_chars(v@.skip(start as int), sep));
        r
    } else if v[start] == sep {
        let mut rest = split_from(v, start + 1, sep);
        rest.insert(0, Vec::new());
        proof {
            assert(v@.skip(start as int).skip(1) =~= v@.skip(start + 1 as int));
            assert(rest.deep_view() =~~= split_chars(v@.skip(start as int), sep));
        }
        rest
    } else {
        let mut rest = split_from(v, start + 1, sep);
        let mut first = rest.remove(0);
        first.insert(0, v[start]);
        rest.insert(0, first);
        proof {
            assert(v@.skip(start as int).skip(1) =~= v@.skip(start + 1 as int));
            assert(v@.skip(start as int)[0] == v@[start as int]);
            assert(rest.deep_view() =~~= split_chars(v@.skip(start as int), sep));
        }
        rest
    }
}

} // verus!
