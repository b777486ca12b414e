//! Line dash patterns, and the text by which scripts name them.

use crate::text::str_eq;
use vstd::prelude::*;

verus! {

/// Whether `c` has the Unicode `White_Space` property.
pub open spec fn is_unicode_white_space(c: char) -> bool {
    ||| ('\u{9}' <= c && c <= '\u{d}')
    ||| c == ' '
    ||| c == '\u{85}'
    ||| c == '\u{a0}'
    ||| c == '\u{1680}'
    ||| ('\u{2000}' <= c && c <= '\u{200a}')
    ||| c == '\u{2028}'
    ||| c == '\u{2029}'
    ||| c == '\u{202f}'
    ||| c == '\u{205f}'
    ||| c == '\u{3000}'
}

/// `r` is `s` without its leading and trailing white space.
pub open spec fn is_trim_of(r: Seq<char>, s: Seq<char>) -> bool {
    exists|a: int, b: int|
        #![trigger s.subrange(a, b)]
        0 <= a <= b <= s.len() && r == s.subrange(a, b) && (forall|i: int| 0 <= i < a ==> is_unicode_white_space(s[i])) && (forall|i: int| b <= i < s.len() ==> is_unicode_white_space(s[i])) && (r.len() > 0 ==> !is_unicode_white_space(r[0]) && !is_unicode_white_space(r[r.len() - 1]))
}

/// Calls `str::trim`; claims that it removes the leading and trailing characters that have
/// the Unicode `White_Space` property, as its documentation says.
#[verifier::external_body]
pub(crate) fn trim_white_space(s: &str) -> (r: &str)
    ensures
        is_trim_of(r@, s@),
{
    s.trim()
}

/// Whether `c` is an ASCII decimal digit.
pub open spec fn is_digit(c: char) -> bool {
    '0' <= c && c <= '9'
}

/// Value of a sequence of decimal digits.
pub open spec fn digits_value(s: Seq<char>) -> int
    decreases s.len(),
{
    if s.len() == 0 {
        0
    } else {
        digits_value(s.drop_last()) * 10 + (s.last() as int - '0' as int)
    }
}

/// Every character of `s` is a decimal digit.
pub open spec fn all_digits(s: Seq<char>) -> bool {
    forall|i: int| 0 <= i < s.len() ==> is_digit(#[trigger] s[i])
}

/// What `i64::from_str` reads from `s`: an optional `+` or `-` followed by one or more
/// decimal digits, whose value fits in an `i64`.
pub open spec fn parse_i64_spec(s: Seq<char>) -> Option<int> {
    let neg = s.len() > 0 && s[0] == '-';
    let ds = if s.len() > 0 && (s[0] == '-' || s[0] == '+') { s.skip(1) } else { s };
    if ds.len() == 0 || !all_digits(ds) {
        None
    } else {
        let v = if neg { -digits_value(ds) } else { digits_value(ds) };
        if i64::MIN <= v <= i64::MAX { Some(v) } else { None }
    }
}

proof fn lemma_digits_value_prefix(s: Seq<char>, i: int)
    requires
        all_digits(s),
        0 <= i <= s.len(),
    ensures
        digits_value(s) >= digits_value(s.take(i)) >= 0,
    decreases s.len(),
{
    if i < s.len() {
        assert(s.drop_last().take(i) =~= s.take(i));
        assert(is_digit(s[s.len() - 1]));
        lemma_digits_value_prefix(s.drop_last(), i);
        assert(digits_value(s.drop_last()) >= 0);
    } else {
        assert(s.take(i) =~= s);
        if s.len() > 0 {
            lemma_digits_value_prefix(s.drop_last(), s.len() - 1);
            assert(s.drop_last().take(s.len() - 1) =~= s.drop_last());
            assert(is_digit(s[s.len() - 1]));
        }
    }
}

/// Reads an `i64` written in decimal, with an optional sign, as `i64::from_str` does.
pub fn parse_i64(s: &str) -> (r: Option<i64>)
    ensures
        r is Some == parse_i64_spec(s@) is Some,
        r matches Some(v) ==> parse_i64_spec(s@) == Some(v as int),
{
    let n = s.unicode_len();
    let mut start: usize = 0;
    let mut neg = false;
    if n > 0 {
        let c = s.get_char(0);
        if c == '-' {
            neg = true;
            start = 1;
        } else if c == '+' {
            start = 1;
        }
    }
    let ghost ds = if s@.len() > 0 && (s@[0] == '-' || s@[0] == '+') { s@.skip(1) } else { s@ };
    assert(ds =~= s@.skip(start as int));
    if start == n {
        return None;
    }
    let limit: i128 = 0x8000_0000_0000_0000;
    let mut acc: i128 = 0;
    let mut i: usize = start;
    while i < n
        invariant
            n == s@.len(),
            start <= i <= n,
            ds == s@.skip(start as int),
            ds == (if s@.len() > 0 && (s@[0] == '-' || s@[0] == '+') { s@.skip(1) } else { s@ }),
            ds.len() == n - start,
            0 <= acc <= limit,
            limit == 0x8000_0000_0000_0000,
            all_digits(ds.take(i - start)),
            acc == digits_value(ds.take(i - start)),
        decreases n - i,
    {
        let c = s.get_char(i);
        if c < '0' || c > '9' {
            proof {
                assert(ds[i - start] == c);
                assert(!is_digit(ds[i - start]));
                assert(!all_digits(ds));
            }
            return None;
        }
        let digit: u32 = (c as u32) - ('0' as u32);
        let next: i128 = acc * 10 + digit as i128;
        proof {
            assert(ds.take(i - start + 1).drop_last() =~= ds.take(i - start));
            assert(ds.take(i - start + 1).last() == c);
        }
        if next > limit {
            proof {
                let j: int = i - start + 1;
                assert(ds.take(j).last() == c);
                assert(digits_value(ds.take(j)) == acc * 10 + (c as int - '0' as int));
                assert(digits_value(ds.take(j)) == next);
                if all_digits(ds) {
                    lemma_digits_value_prefix(ds, j);
                    assert(digits_value(ds) > limit);
                }
            }
            return None;
        }
        acc = next;
        i = i + 1;
    }
    proof {
        assert(ds.take(n - start) =~= ds);
    }
    if neg {
        let v: i128 = -acc;
        Some(v as i64)
    } else if acc <= 0x7fff_ffff_ffff_ffff {
        Some(acc as i64)
    } else {
        None
    }
}

/// Pattern to use with the line.
///
/// Default pattern is a solid line.
#[derive(Clone, Copy, Debug, PartialEq, Eq, Structural)]
pub struct PdfLineDashPattern {
    /// Offset at which the dashing pattern starts.
    pub offset: i64,
    pub dash_1: Option<i64>,
    pub gap_1: Option<i64>,
    pub dash_2: Option<i64>,
    pub gap_2: Option<i64>,
    pub dash_3: Option<i64>,
    pub gap_3: Option<i64>,
}

/// Reason for which text does not name a dash pattern.
#[derive(Clone, Copy, Debug, PartialEq, Eq, Structural)]
pub enum DashPatternError {
    /// The text is neither `solid`, `dashed` nor `dashed:` followed by a length.
    UnknownFormat,
    /// The length after `dashed:` is not an `i64`.
    InvalidLength,
}

/// The pattern with no dashes: a solid line.
pub open spec fn solid_pattern() -> PdfLineDashPattern {
    PdfLineDashPattern { offset: 0, dash_1: None, gap_1: None, dash_2: None, gap_2: None, dash_3: None, gap_3: None }
}

/// The pattern of dashes of length `length`, each followed by a gap of the same length.
pub open spec fn dashed_pattern(length: i64) -> PdfLineDashPattern {
    PdfLineDashPattern { dash_1: Some(length), ..solid_pattern() }
}

impl Default for PdfLineDashPattern {
    fn default() -> (r: Self)
        ensures
            r == solid_pattern(),
    {
        Self::solid()
    }
}

impl PdfLineDashPattern {
    pub const DEFAULT_DASH_LENGTH: i64 = 5;

    /// Creates a new solid pattern.
    pub fn solid() -> (r: Self)
        ensures
            r == solid_pattern(),
    {
        PdfLineDashPattern { offset: 0, dash_1: None, gap_1: None, dash_2: None, gap_2: None, dash_3: None, gap_3: None }
    }

    /// Creates a new dashed pattern where length of each dash is the same `length`.
    pub fn dashed(length: i64) -> (r: Self)
        ensures
            r == dashed_pattern(length),
    {
        PdfLineDashPattern { dash_1: Some(length), ..Self::solid() }
    }

    /// Reads a pattern from `solid`, `dashed` (dashes of the default length) or
    /// `dashed:LENGTH`, where the length may be surrounded by white space.
    pub fn from_name(s: &str) -> (r: Result<Self, DashPatternError>)
        ensures
            s@ == "solid"@ ==> r == Ok::<Self, DashPatternError>(solid_pattern()),
            s@ == "dashed"@ ==> r == Ok::<Self, DashPatternError>(dashed_pattern(5)),
            s@ != "solid"@ && s@ != "dashed"@ && (s@.len() < 7 || s@.take(7) != "dashed:"@) ==> r == Err::<Self, DashPatternError>(DashPatternError::UnknownFormat),
            s@ != "solid"@ && s@ != "dashed"@ && s@.len() >= 7 && s@.take(7) == "dashed:"@ ==> (r is Ok <==> exists|t: Seq<char>| is_trim_of(t, s@.skip(7)) && parse_i64_spec(t) is Some),
            r matches Ok(p) ==> (s@ == "solid"@ && p == solid_pattern()) || (s@ == "dashed"@ && p == dashed_pattern(5)) || (exists|t: Seq<char>| #[trigger] is_trim_of(t, s@.skip(7)) && parse_i64_spec(t) == Some(p.dash_1->0 as int) && p == dashed_pattern(p.dash_1->0)),
            r matches Err(e) ==> (e == DashPatternError::InvalidLength <==> s@ != "solid"@ && s@ != "dashed"@ && s@.len() >= 7 && s@.take(7) == "dashed:"@),
    {
        proof {
            reveal_strlit("solid");
            reveal_strlit("dashed");
            reveal_strlit("dashed:");
        }
        if str_eq(s, "solid") {
            return Ok(Self::solid());
        }
        if str_eq(s, "dashed") {
            return Ok(Self::dashed(Self::DEFAULT_DASH_LENGTH));
        }
        let n = s.unicode_len();
        if n >= 7 {
            let prefix = s.substring_char(0, 7);
            if str_eq(prefix, "dashed:") {
                let rest = s.substring_char(7, n);
                let trimmed = trim_white_space(rest);
                proof {
                    assert(rest@ =~= s@.skip(7));
                    assert(prefix@ =~= s@.take(7));
                }
                match parse_i64(trimmed) {
                    Some(length) => {
                        return Ok(Self::dashed(length));
                    },
                    None => {
                        proof {
                            assert forall|t: Seq<char>| is_trim_of(t, s@.skip(7)) implies parse_i64_spec(t) is None by {
                                lemma_trim_unique(t, trimmed@, s@.skip(7));
                            }
                        }
                        return Err(DashPatternError::InvalidLength);
                    },
                }
            }
            proof {
                assert(prefix@ =~= s@.take(7));
            }
        }
        Err(DashPatternError::UnknownFormat)
    }
}

/// A sequence has a single trimmed form.
proof fn lemma_trim_unique(t1: Seq<char>, t2: Seq<char>, s: Seq<char>)
    requires
        is_trim_of(t1, s),
        is_trim_of(t2, s),
    ensures
        t1 == t2,
{
    let (a1, b1) = choose|a: int, b: int| #![trigger s.subrange(a, b)] 0 <= a <= b <= s.len() && t1 == s.subrange(a, b) && (forall|i: int| 0 <= i < a ==> is_unicode_white_space(s[i])) && (forall|i: int| b <= i < s.len() ==> is_unicode_white_space(s[i])) && (t1.len() > 0 ==> !is_unicode_white_space(t1[0]) && !is_unicode_white_space(t1[t1.len() - 1]));
    let (a2, b2) = choose|a: int, b: int| #![trigger s.subrange(a, b)] 0 <= a <= b <= s.len() && t2 == s.subrange(a, b) && (forall|i: int| 0 <= i < a ==> is_unicode_white_space(s[i])) && (forall|i: int| b <= i < s.len() ==> is_unicode_white_space(s[i])) && (t2.len() > 0 ==> !is_unicode_white_space(t2[0]) && !is_unicode_white_space(t2[t2.len() - 1]));
    if t1.len() > 0 && t2.len() > 0 {
        if a1 < a2 {
            assert(s[a1] == t1[0]);
        } else if a2 < a1 {
            assert(s[a2] == t2[0]);
        }
        if b1 < b2 {
            assert(s[b2 - 1] == t2[t2.len() - 1]);
        } else if b2 < b1 {
            assert(s[b1 - 1] == t1[t1.len() - 1]);
        }
        assert(t1 =~= t2);
    } else if t1.len() > 0 {
        // t2 is empty: every character of s is white space, including t1's first one.
        if a1 < a2 {
            assert(s[a1] == t1[0]);
        } else {
            assert(s[a1] == t1[0]);
            assert(a1 >= b2);
        }
    } else if t2.len() > 0 {
        if a2 < a1 {
            assert(s[a2] == t2[0]);
        } else {
            assert(s[a2] == t2[0]);
            assert(a2 >= b1);
        }
    } else {
        assert(t1 =~= t2);
    }
}

} // verus!
