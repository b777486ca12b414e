//! Page dimensions written as text, such as `1404x1872px`, `4x6in` or `100x150mm`: the
//! text is lowercased, its last two bytes name the units, and the rest holds the width and
//! the height on either side of an `x`.

use crate::pattern::{is_trim_of, trim_white_space};
use crate::text::{ascii_lower, ascii_lower_seq, str_eq};
use vstd::prelude::*;
use vstd::utf8::{
    decode_utf8, encode_utf8, encode_utf8_decode_utf8, encode_utf8_valid_utf8, is_ascii_chars,
    is_ascii_chars_encode_utf8, is_char_boundary, is_char_boundary_iff_not_is_continuation_byte,
    is_char_boundary_start_end_of_seq,
};

verus! {

/// What `str::to_lowercase` gives for `s`.
pub uninterp spec fn lowercase(s: Seq<char>) -> Seq<char>;

/// Calls `str::to_lowercase`; claims that the result is a function of the text, and that
/// ASCII text is lowercased the ASCII way, as Unicode lowercases the ASCII letters.
#[verifier::external_body]
fn to_lowercase(s: &str) -> (r: String)
    ensures
        r@ == lowercase(s@),
        is_ascii_chars(s@) ==> r@ == ascii_lower_seq(s@),
{
    s.to_lowercase()
}

/// Units of a page dimension.
#[derive(Clone, Copy, Debug, PartialEq, Eq, Structural)]
pub enum SizeUnit {
    /// Inches: one is 25.4 millimeters.
    Inches,
    /// Millimeters.
    Millimeters,
    /// Pixels, converted to millimeters through the page's DPI.
    Pixels,
}

/// What the units part of a dimension says.
#[derive(Clone, Copy, Debug, PartialEq, Eq, Structural)]
pub enum UnitsText {
    /// Units that are supported.
    Known(SizeUnit),
    /// No units: the part is blank.
    Missing,
    /// Something that names no supported units.
    Unknown,
}

/// The parts of a dimension text: the width and height texts, trimmed, and the units.
#[derive(Debug)]
pub struct SizeText {
    pub width: String,
    pub height: String,
    pub units: UnitsText,
}

/// Reason for which text cannot be split into the parts of a dimension.
#[derive(Clone, Copy, Debug, PartialEq, Eq, Structural)]
pub enum SizeError {
    /// The text is shorter than two bytes, too short to hold units.
    MissingUnits,
    /// No `x` separates the width from the height.
    MissingSeparator,
}

/// The UTF-8 bytes of the lowercased text.
pub open spec fn lowered_bytes(s: Seq<char>) -> Seq<u8> {
    encode_utf8(lowercase(s))
}

/// Whether the lowercased text can be split two bytes before its end, at a character
/// boundary.
pub open spec fn size_splits(s: Seq<char>) -> bool {
    lowered_bytes(s).len() >= 2 && is_char_boundary(lowered_bytes(s), lowered_bytes(s).len() - 2)
}

/// The lowercased text without its last two bytes.
pub open spec fn size_body(s: Seq<char>) -> Seq<char> {
    decode_utf8(lowered_bytes(s).subrange(0, lowered_bytes(s).len() - 2))
}

/// The last two bytes of the lowercased text.
pub open spec fn size_units(s: Seq<char>) -> Seq<char> {
    decode_utf8(lowered_bytes(s).subrange(lowered_bytes(s).len() - 2, lowered_bytes(s).len() as int))
}

/// The units that the trimmed units text `u` names.
pub open spec fn units_of(u: Seq<char>) -> UnitsText {
    if u == "in"@ {
        UnitsText::Known(SizeUnit::Inches)
    } else if u == "mm"@ {
        UnitsText::Known(SizeUnit::Millimeters)
    } else if u == "px"@ {
        UnitsText::Known(SizeUnit::Pixels)
    } else if u.len() == 0 {
        UnitsText::Missing
    } else {
        UnitsText::Unknown
    }
}

/// ASCII text lowercased the ASCII way is ASCII text.
proof fn lemma_ascii_lower_is_ascii(s: Seq<char>)
    requires
        is_ascii_chars(s),
    ensures
        is_ascii_chars(ascii_lower_seq(s)),
        ascii_lower_seq(s).len() == s.len(),
{
    assert forall|i| 0 <= i < ascii_lower_seq(s).len() implies '\0' <= #[trigger] ascii_lower_seq(s)[i] <= '\u{7f}' by {
        assert('\0' <= s[i] <= '\u{7f}');
    }
}

/// The UTF-8 bytes of ASCII text are its characters: every position is a character
/// boundary, and the bytes on either side of one decode to the characters on that side.
proof fn lemma_ascii_split(l: Seq<char>, k: int)
    requires
        is_ascii_chars(l),
        0 <= k <= l.len(),
    ensures
        encode_utf8(l).len() == l.len(),
        is_char_boundary(encode_utf8(l), k),
        decode_utf8(encode_utf8(l).subrange(0, k)) == l.take(k),
        decode_utf8(encode_utf8(l).subrange(k, l.len() as int)) == l.skip(k),
{
    let b = encode_utf8(l);
    is_ascii_chars_encode_utf8(l);
    encode_utf8_valid_utf8(l);
    if k < l.len() {
        is_char_boundary_iff_not_is_continuation_byte(b, k);
        assert(l[k] as u8 == b[k]);
        assert(('\0' <= l[k] <= '\u{7f}'));
    } else {
        is_char_boundary_start_end_of_seq(b);
    }
    let t = l.take(k);
    let u = l.skip(k);
    assert(is_ascii_chars(t)) by {
        assert forall|i| 0 <= i < t.len() implies '\0' <= #[trigger] t[i] <= '\u{7f}' by {
            assert(t[i] == l[i]);
        }
    }
    assert(is_ascii_chars(u)) by {
        assert forall|i| 0 <= i < u.len() implies '\0' <= #[trigger] u[i] <= '\u{7f}' by {
            assert(u[i] == l[k + i]);
        }
    }
    is_ascii_chars_encode_utf8(t);
    is_ascii_chars_encode_utf8(u);
    assert forall|i| 0 <= i < k implies #[trigger] encode_utf8(t)[i] == b.subrange(0, k)[i] by {
        assert(t[i] as u8 == encode_utf8(t)[i]);
        assert(l[i] as u8 == b[i]);
    }
    assert(encode_utf8(t) =~= b.subrange(0, k));
    assert forall|i| 0 <= i < l.len() - k implies #[trigger] encode_utf8(u)[i] == b.subrange(k, l.len() as int)[i] by {
        assert(u[i] as u8 == encode_utf8(u)[i]);
        assert(l[k + i] as u8 == b[k + i]);
    }
    assert(encode_utf8(u) =~= b.subrange(k, l.len() as int));
    encode_utf8_decode_utf8(t);
    encode_utf8_decode_utf8(u);
}

/// The name of units in dimension texts.
pub open spec fn unit_name(u: SizeUnit) -> Seq<char> {
    match u {
        SizeUnit::Inches => "in"@,
        SizeUnit::Millimeters => "mm"@,
        SizeUnit::Pixels => "px"@,
    }
}

/// `i` is the position of the first `x` of `s`.
pub open spec fn first_x_at(s: Seq<char>, i: int) -> bool {
    0 <= i < s.len() && s[i] == 'x' && forall|j: int| 0 <= j < i ==> s[j] != 'x'
}

/// Splits a dimension text into its width, height and units, as they are read for a page:
/// text shorter than two bytes lacks units; otherwise the text is lowercased, its last two
/// bytes are the units, and the rest is split at its first `x`. `None` where the lowercased
/// text has fewer than two bytes or its last two bytes do not start at a character
/// boundary, so that it cannot be split there.
pub fn split_size(s: &str) -> (r: Option<Result<SizeText, SizeError>>)
    ensures
        encode_utf8(s@).len() < 2 ==> r == Some(Err::<SizeText, SizeError>(SizeError::MissingUnits)),
        encode_utf8(s@).len() >= 2 ==> (r is None <==> !size_splits(s@)),
        encode_utf8(s@).len() >= 2 && size_splits(s@) && (forall|j: int|
            0 <= j < size_body(s@).len() ==> size_body(s@)[j] != 'x') ==> r == Some(
            Err::<SizeText, SizeError>(SizeError::MissingSeparator),
        ),
        encode_utf8(s@).len() >= 2 && size_splits(s@) && (exists|j: int|
            0 <= j < size_body(s@).len() && size_body(s@)[j] == 'x') ==> r is Some && r->0 is Ok,
        is_ascii_chars(s@) ==> lowercase(s@) == ascii_lower_seq(s@),
        is_ascii_chars(s@) && s@.len() >= 2 ==> size_splits(s@) && size_body(s@) == ascii_lower_seq(s@).take(s@.len() - 2)
            && size_units(s@) == ascii_lower_seq(s@).skip(s@.len() - 2),
        r matches Some(Ok(t)) ==> encode_utf8(s@).len() >= 2 && size_splits(s@) && (exists|i: int|
            first_x_at(size_body(s@), i) && is_trim_of(t.width@, size_body(s@).take(i))
                && is_trim_of(t.height@, size_body(s@).skip(i + 1))) && (exists|u: Seq<char>|
            is_trim_of(u, size_units(s@)) && t.units == units_of(u)),
{
    proof {
        reveal_strlit("in");
        reveal_strlit("mm");
        reveal_strlit("px");
    }
    let lower = to_lowercase(s);
    proof {
        if is_ascii_chars(s@) {
            is_ascii_chars_encode_utf8(s@);
            lemma_ascii_lower_is_ascii(s@);
            if s@.len() >= 2 {
                lemma_ascii_split(ascii_lower_seq(s@), s@.len() - 2);
            }
        }
    }
    if s.as_bytes().len() < 2 {
        return Some(Err(SizeError::MissingUnits));
    }
    let l = lower.as_str();
    let n = l.as_bytes().len();
    proof {
        encode_utf8_valid_utf8(l@);
    }
    if n < 2 {
        return None;
    }
    if !l.is_char_boundary(n - 2) {
        return None;
    }
    let (body, units) = l.split_at(n - 2);
    proof {
        encode_utf8_decode_utf8(body@);
        encode_utf8_decode_utf8(units@);
        assert(body@ == size_body(s@));
        assert(units@ == size_units(s@));
    }
    let m = body.unicode_len();
    let mut i: usize = 0;
    while i < m
        invariant
            m == body@.len(),
            i <= m,
            forall|j: int| 0 <= j < i ==> body@[j] != 'x',
        ensures
            i <= m,
            forall|j: int| 0 <= j < i ==> body@[j] != 'x',
            i < m ==> body@[i as int] == 'x',
        decreases m - i,
    {
        if body.get_char(i) == 'x' {
            break;
        }
        i = i + 1;
    }
    if i == m {
        return Some(Err(SizeError::MissingSeparator));
    }
    let width_text = body.substring_char(0, i);
    let height_text = body.substring_char(i + 1, m);
    proof {
        assert(width_text@ =~= body@.take(i as int));
        assert(height_text@ =~= body@.skip(i + 1));
        assert(first_x_at(body@, i as int));
    }
    let width = trim_white_space(width_text).to_string();
    let height = trim_white_space(height_text).to_string();
    let u = trim_white_space(units);
    let kind = if str_eq(u, "in") {
        UnitsText::Known(SizeUnit::Inches)
    } else if str_eq(u, "mm") {
        UnitsText::Known(SizeUnit::Millimeters)
    } else if str_eq(u, "px") {
        UnitsText::Known(SizeUnit::Pixels)
    } else if u.is_empty() {
        UnitsText::Missing
    } else {
        UnitsText::Unknown
    };
    proof {
        assert(kind == units_of(u@));
    }
    Some(Ok(SizeText { width, height, units: kind }))
}

/// Dimensions written in ASCII as a width, an `x`, a height and units (`in`, `mm` or `px`,
/// in any case), with no `x` in the width, split into the lowercased width and height and
/// those units: lowercased, the text before its last two characters has its first `x`
/// right after the width, and its last two characters name the units.
pub proof fn law_size_text_parts(w: Seq<char>, h: Seq<char>, units: Seq<char>, u: SizeUnit)
    requires
        is_ascii_chars(w),
        is_ascii_chars(h),
        forall|i: int| 0 <= i < w.len() ==> ascii_lower(#[trigger] w[i]) != 'x',
        ascii_lower_seq(units) == unit_name(u),
    ensures
        ({
            let s = w + seq!['x'] + h + units;
            let l = ascii_lower_seq(s);
            &&& first_x_at(l.take(s.len() - 2), w.len() as int)
            &&& l.take(s.len() - 2).take(w.len() as int) == ascii_lower_seq(w)
            &&& l.take(s.len() - 2).skip(w.len() as int + 1) == ascii_lower_seq(h)
            &&& l.skip(s.len() - 2) == unit_name(u)
            &&& units_of(unit_name(u)) == UnitsText::Known(u)
            &&& is_trim_of(unit_name(u), unit_name(u))
        }),
{
    reveal_strlit("in");
    reveal_strlit("mm");
    reveal_strlit("px");
    let s = w + seq!['x'] + h + units;
    let l = ascii_lower_seq(s);
    assert(unit_name(u).len() == 2) by {
        match u {
            SizeUnit::Inches => {},
            SizeUnit::Millimeters => {},
            SizeUnit::Pixels => {},
        }
    }
    assert(ascii_lower_seq(units).len() == units.len());
    assert(units.len() == 2);
    let body = l.take(s.len() - 2);
    assert(body.take(w.len() as int) =~= ascii_lower_seq(w));
    assert(body.skip(w.len() as int + 1) =~= ascii_lower_seq(h));
    assert(l.skip(s.len() - 2) =~= ascii_lower_seq(units));
    assert(body[w.len() as int] == 'x');
    assert forall|j: int| 0 <= j < w.len() implies body[j] != 'x' by {
        assert(body[j] == ascii_lower(w[j]));
    }
    let n = unit_name(u);
    assert(n.len() == 2 && n[0] != ' ' && n[1] != ' ');
    assert(n.subrange(0, 2) =~= n);
}


/// Dimension texts name their units `in` for inches, `mm` for millimeters and `px` for
/// pixels, each name naming its own unit only.
pub proof fn law_unit_names()
    ensures
        forall|k: SizeUnit| (#[trigger] unit_name(k) == "in"@) <==> k == SizeUnit::Inches,
        forall|k: SizeUnit| (#[trigger] unit_name(k) == "mm"@) <==> k == SizeUnit::Millimeters,
        forall|k: SizeUnit| (#[trigger] unit_name(k) == "px"@) <==> k == SizeUnit::Pixels,
{
    reveal_strlit("in");
    reveal_strlit("mm");
    reveal_strlit("px");
    assert forall|k: SizeUnit| (#[trigger] unit_name(k) == "in"@) <==> k == SizeUnit::Inches by {
        match k {
            SizeUnit::Inches => {},
            SizeUnit::Millimeters => { assert("mm"@[0] != "in"@[0]); },
            SizeUnit::Pixels => { assert("px"@[0] != "in"@[0]); },
        }
    }
    assert forall|k: SizeUnit| (#[trigger] unit_name(k) == "mm"@) <==> k == SizeUnit::Millimeters by {
        match k {
            SizeUnit::Inches => { assert("in"@[0] != "mm"@[0]); },
            SizeUnit::Millimeters => {},
            SizeUnit::Pixels => { assert("px"@[0] != "mm"@[0]); },
        }
    }
    assert forall|k: SizeUnit| (#[trigger] unit_name(k) == "px"@) <==> k == SizeUnit::Pixels by {
        match k {
            SizeUnit::Inches => { assert("in"@[0] != "px"@[0]); },
            SizeUnit::Millimeters => { assert("mm"@[0] != "px"@[0]); },
            SizeUnit::Pixels => {},
        }
    }
}

} // verus!
