//! Character-level helpers for matching the names that scripts use.

use vstd::prelude::*;

verus! {

/// ASCII lower-casing of one character; other characters are unchanged.
pub open spec fn ascii_lower(c: char) -> char {
    if 'A' <= c && c <= 'Z' {
        ((c as int) + 32) as char
    } else {
        c
    }
}

/// ASCII lower-casing of a whole character sequence.
pub open spec fn ascii_lower_seq(s: Seq<char>) -> Seq<char> {
    s.map_values(|c: char| ascii_lower(c))
}

/// Lower-cases one character the ASCII way.
pub fn to_ascii_lower(c: char) -> (r: char)
    ensures
        r == ascii_lower(c),
{
    if 'A' <= c && c <= 'Z' {
        let b: u32 = c as u32;
        let lowered: u32 = b + 32;
        assert(lowered < 0xD800);
        char_from_u32_ascii(lowered)
    } else {
        c
    }
}

/// Turns an ASCII code point into its character.
fn char_from_u32_ascii(b: u32) -> (r: char)
    requires
        b < 128,
    ensures
        r as int == b as int,
{
    let byte: u8 = b as u8;
    byte as char
}

/// Whether two strings hold the same characters.
pub fn str_eq(s: &str, t: &str) -> (b: bool)
    ensures
        b == (s@ == t@),
{
    let n = s.unicode_len();
    let m = t.unicode_len();
    if n != m {
        return false;
    }
    let mut i: usize = 0;
    while i < n
        invariant
            n == s@.len(),
            m == t@.len(),
            n == m,
            i <= n,
            forall|j: int| 0 <= j < i ==> s@[j] == t@[j],
        decreases n - i,
    {
        if s.get_char(i) != t.get_char(i) {
            return false;
        }
        i = i + 1;
    }
    assert(s@ =~= t@);
    true
}

/// Whether `s`, lower-cased the ASCII way, holds the same characters as `t`.
pub fn str_eq_ignore_ascii_case(s: &str, t: &str) -> (b: bool)
    ensures
        b == (ascii_lower_seq(s@) == t@),
{
    let n = s.unicode_len();
    let m = t.unicode_len();
    if n != m {
        assert(ascii_lower_seq(s@).len() != t@.len());
        return false;
    }
    let mut i: usize = 0;
    while i < n
        invariant
            n == s@.len(),
            m == t@.len(),
            n == m,
            i <= n,
            forall|j: int| 0 <= j < i ==> ascii_lower(s@[j]) == t@[j],
        decreases n - i,
    {
        if to_ascii_lower(s.get_char(i)) != t.get_char(i) {
            assert(ascii_lower_seq(s@)[i as int] != t@[i as int]);
            return false;
        }
        i = i + 1;
    }
    assert(ascii_lower_seq(s@) =~= t@);
    true
}

} // verus!
