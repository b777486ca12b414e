//! Weekdays of planner dates.

use crate::text::{ascii_lower_seq, str_eq_ignore_ascii_case};
use vstd::prelude::*;

verus! {

/// Weekday associated with a PDF date.
#[derive(Clone, Copy, Debug, PartialEq, Eq, Structural)]
pub enum PdfDateWeekday {
    Mon,
    Tue,
    Wed,
    Thu,
    Fri,
    Sat,
    Sun,
}

/// Error returned when a string names no weekday.
#[derive(Clone, Copy, Debug, PartialEq, Eq, Structural)]
pub struct ParseWeekdayError;

/// The weekday whose number of days from Monday is `i` (0 to 6).
pub open spec fn weekday_from_index(i: int) -> PdfDateWeekday {
    if i == 0 {
        PdfDateWeekday::Mon
    } else if i == 1 {
        PdfDateWeekday::Tue
    } else if i == 2 {
        PdfDateWeekday::Wed
    } else if i == 3 {
        PdfDateWeekday::Thu
    } else if i == 4 {
        PdfDateWeekday::Fri
    } else if i == 5 {
        PdfDateWeekday::Sat
    } else {
        PdfDateWeekday::Sun
    }
}

/// Whether `s` names weekday `w` in its short or long form, ignoring ASCII case.
pub open spec fn names_weekday(s: Seq<char>, w: PdfDateWeekday) -> bool {
    ascii_lower_seq(s) == w.short_name() || ascii_lower_seq(s) == w.long_name()
}

impl PdfDateWeekday {
    /// Number of days from Monday: Monday is 0 and Sunday is 6.
    pub open spec fn index(self) -> int {
        match self {
            PdfDateWeekday::Mon => 0,
            PdfDateWeekday::Tue => 1,
            PdfDateWeekday::Wed => 2,
            PdfDateWeekday::Thu => 3,
            PdfDateWeekday::Fri => 4,
            PdfDateWeekday::Sat => 5,
            PdfDateWeekday::Sun => 6,
        }
    }

    /// Short lower-case name, such as `mon`.
    pub open spec fn short_name(self) -> Seq<char> {
        match self {
            PdfDateWeekday::Mon => "mon"@,
            PdfDateWeekday::Tue => "tue"@,
            PdfDateWeekday::Wed => "wed"@,
            PdfDateWeekday::Thu => "thu"@,
            PdfDateWeekday::Fri => "fri"@,
            PdfDateWeekday::Sat => "sat"@,
            PdfDateWeekday::Sun => "sun"@,
        }
    }

    /// Long lower-case name, such as `monday`.
    pub open spec fn long_name(self) -> Seq<char> {
        match self {
            PdfDateWeekday::Mon => "monday"@,
            PdfDateWeekday::Tue => "tuesday"@,
            PdfDateWeekday::Wed => "wednesday"@,
            PdfDateWeekday::Thu => "thursday"@,
            PdfDateWeekday::Fri => "friday"@,
            PdfDateWeekday::Sat => "saturday"@,
            PdfDateWeekday::Sun => "sunday"@,
        }
    }

    /// The next day of the week (Sunday is followed by Monday).
    pub open spec fn succ_spec(self) -> Self {
        weekday_from_index((self.index() + 1) % 7)
    }

    pub fn monday() -> (r: Self)
        ensures
            r == PdfDateWeekday::Mon,
    {
        PdfDateWeekday::Mon
    }

    pub fn tuesday() -> (r: Self)
        ensures
            r == PdfDateWeekday::Tue,
    {
        PdfDateWeekday::Tue
    }

    pub fn wednesday() -> (r: Self)
        ensures
            r == PdfDateWeekday::Wed,
    {
        PdfDateWeekday::Wed
    }

    pub fn thursday() -> (r: Self)
        ensures
            r == PdfDateWeekday::Thu,
    {
        PdfDateWeekday::Thu
    }

    pub fn friday() -> (r: Self)
        ensures
            r == PdfDateWeekday::Fri,
    {
        PdfDateWeekday::Fri
    }

    pub fn saturday() -> (r: Self)
        ensures
            r == PdfDateWeekday::Sat,
    {
        PdfDateWeekday::Sat
    }

    pub fn sunday() -> (r: Self)
        ensures
            r == PdfDateWeekday::Sun,
    {
        PdfDateWeekday::Sun
    }

    /// The weekday that is `i` days after Monday.
    pub fn from_index(i: u32) -> (r: Self)
        requires
            i < 7,
        ensures
            r == weekday_from_index(i as int),
            r.index() == i,
    {
        if i == 0 {
            PdfDateWeekday::Mon
        } else if i == 1 {
            PdfDateWeekday::Tue
        } else if i == 2 {
            PdfDateWeekday::Wed
        } else if i == 3 {
            PdfDateWeekday::Thu
        } else if i == 4 {
            PdfDateWeekday::Fri
        } else if i == 5 {
            PdfDateWeekday::Sat
        } else {
            PdfDateWeekday::Sun
        }
    }

    /// Returns a static string in the short form for a weekday.
    ///
    /// For example, Sunday would return `sun`.
    pub fn into_short_static_str(self) -> (r: &'static str)
        ensures
            r@ == self.short_name(),
    {
        match self {
            PdfDateWeekday::Mon => "mon",
            PdfDateWeekday::Tue => "tue",
            PdfDateWeekday::Wed => "wed",
            PdfDateWeekday::Thu => "thu",
            PdfDateWeekday::Fri => "fri",
            PdfDateWeekday::Sat => "sat",
            PdfDateWeekday::Sun => "sun",
        }
    }

    /// Returns a static string in the long form for a weekday.
    ///
    /// For example, Sunday would return `sunday`.
    pub fn into_long_static_str(self) -> (r: &'static str)
        ensures
            r@ == self.long_name(),
    {
        match self {
            PdfDateWeekday::Mon => "monday",
            PdfDateWeekday::Tue => "tuesday",
            PdfDateWeekday::Wed => "wednesday",
            PdfDateWeekday::Thu => "thursday",
            PdfDateWeekday::Fri => "friday",
            PdfDateWeekday::Sat => "saturday",
            PdfDateWeekday::Sun => "sunday",
        }
    }

    /// The weekday as text, which is its long name.
    pub fn to_string(&self) -> (r: String)
        ensures
            r@ == self.long_name(),
    {
        String::from_str(self.into_long_static_str())
    }

    /// The next day of the week (Sunday is followed by Monday).
    pub fn succ(self) -> (r: Self)
        ensures
            r.index() == (self.index() + 1) % 7,
            r == self.succ_spec(),
    {
        match self {
            PdfDateWeekday::Mon => PdfDateWeekday::Tue,
            PdfDateWeekday::Tue => PdfDateWeekday::Wed,
            PdfDateWeekday::Wed => PdfDateWeekday::Thu,
            PdfDateWeekday::Thu => PdfDateWeekday::Fri,
            PdfDateWeekday::Fri => PdfDateWeekday::Sat,
            PdfDateWeekday::Sat => PdfDateWeekday::Sun,
            PdfDateWeekday::Sun => PdfDateWeekday::Mon,
        }
    }

    /// The previous day of the week (Monday is preceded by Sunday).
    pub fn pred(self) -> (r: Self)
        ensures
            r.index() == (self.index() + 6) % 7,
    {
        match self {
            PdfDateWeekday::Mon => PdfDateWeekday::Sun,
            PdfDateWeekday::Tue => PdfDateWeekday::Mon,
            PdfDateWeekday::Wed => PdfDateWeekday::Tue,
            PdfDateWeekday::Thu => PdfDateWeekday::Wed,
            PdfDateWeekday::Fri => PdfDateWeekday::Thu,
            PdfDateWeekday::Sat => PdfDateWeekday::Fri,
            PdfDateWeekday::Sun => PdfDateWeekday::Sat,
        }
    }

    /// Days since Monday: Monday is 0 and Sunday is 6.
    pub fn num_days_from_monday(self) -> (r: u32)
        ensures
            r == self.index(),
    {
        match self {
            PdfDateWeekday::Mon => 0,
            PdfDateWeekday::Tue => 1,
            PdfDateWeekday::Wed => 2,
            PdfDateWeekday::Thu => 3,
            PdfDateWeekday::Fri => 4,
            PdfDateWeekday::Sat => 5,
            PdfDateWeekday::Sun => 6,
        }
    }

    /// Days since Sunday: Sunday is 0 and Saturday is 6.
    pub fn num_days_from_sunday(self) -> (r: u32)
        ensures
            r == (self.index() + 1) % 7,
    {
        let i = self.num_days_from_monday();
        (i + 1) % 7
    }

    /// Day number counted from Monday: Monday is 1 and Sunday is 7.
    pub fn number_from_monday(self) -> (r: u32)
        ensures
            r == self.index() + 1,
    {
        self.num_days_from_monday() + 1
    }

    /// Day number counted from Sunday: Sunday is 1 and Saturday is 7.
    pub fn number_from_sunday(self) -> (r: u32)
        ensures
            r == (self.index() + 1) % 7 + 1,
    {
        self.num_days_from_sunday() + 1
    }

    /// Number of days from `other` forward to `self`, between 0 and 6.
    pub fn days_since(self, other: Self) -> (r: u32)
        ensures
            r == (self.index() - other.index()) % 7,
    {
        let lhs = self.num_days_from_monday();
        let rhs = other.num_days_from_monday();
        if lhs < rhs {
            7 + lhs - rhs
        } else {
            lhs - rhs
        }
    }

    /// Parses a weekday from its short (`mon`) or long (`monday`) name, ignoring ASCII case.
    pub fn from_name(s: &str) -> (r: Option<Self>)
        ensures
            r matches Some(w) ==> names_weekday(s@, w),
            r is None ==> forall|w: PdfDateWeekday| !names_weekday(s@, w),
    {
        let mut i: u32 = 0;
        while i < 7
            invariant
                i <= 7,
                forall|j: int| 0 <= j < i ==> !names_weekday(s@, #[trigger] weekday_from_index(j)),
            decreases 7 - i,
        {
            let w = Self::from_index(i);
            if str_eq_ignore_ascii_case(s, w.into_short_static_str())
                || str_eq_ignore_ascii_case(s, w.into_long_static_str()) {
                return Some(w);
            }
            i = i + 1;
        }
        assert forall|w: PdfDateWeekday| !names_weekday(s@, w) by {
            assert(w == weekday_from_index(w.index()));
        }
        None
    }
}

impl core::str::FromStr for PdfDateWeekday {
    type Err = ParseWeekdayError;

    /// Parses short or long form weekday, case-insensitive.
    fn from_str(s: &str) -> (r: Result<Self, Self::Err>)
        ensures
            r matches Ok(w) ==> names_weekday(s@, w),
            r is Err ==> forall|w: PdfDateWeekday| !names_weekday(s@, w),
    {
        match Self::from_name(s) {
            Some(w) => Ok(w),
            None => Err(ParseWeekdayError),
        }
    }
}

/// The weekday that a lower-case name starts like, read from its first two characters.
spec fn weekday_by_prefix(t: Seq<char>) -> PdfDateWeekday {
    if t[0] == 'm' {
        PdfDateWeekday::Mon
    } else if t[0] == 'w' {
        PdfDateWeekday::Wed
    } else if t[0] == 'f' {
        PdfDateWeekday::Fri
    } else if t[0] == 't' && t[1] == 'u' {
        PdfDateWeekday::Tue
    } else if t[0] == 't' {
        PdfDateWeekday::Thu
    } else if t[1] == 'a' {
        PdfDateWeekday::Sat
    } else {
        PdfDateWeekday::Sun
    }
}

proof fn lemma_name_prefix(s: Seq<char>, w: PdfDateWeekday)
    requires
        names_weekday(s, w),
    ensures
        weekday_by_prefix(ascii_lower_seq(s)) == w,
{
    reveal_strlit("mon");
    reveal_strlit("tue");
    reveal_strlit("wed");
    reveal_strlit("thu");
    reveal_strlit("fri");
    reveal_strlit("sat");
    reveal_strlit("sun");
    reveal_strlit("monday");
    reveal_strlit("tuesday");
    reveal_strlit("wednesday");
    reveal_strlit("thursday");
    reveal_strlit("friday");
    reveal_strlit("saturday");
    reveal_strlit("sunday");
    let t = ascii_lower_seq(s);
    if t == w.short_name() {
        assert(t[0] == w.short_name()[0] && t[1] == w.short_name()[1]);
    } else {
        assert(t[0] == w.long_name()[0] && t[1] == w.long_name()[1]);
    }
}

/// The short and long names of the seven weekdays are all different, so a name
/// identifies its weekday.
pub proof fn law_weekday_names_distinct(s: Seq<char>, w1: PdfDateWeekday, w2: PdfDateWeekday)
    requires
        names_weekday(s, w1),
        names_weekday(s, w2),
    ensures
        w1 == w2,
{
    lemma_name_prefix(s, w1);
    lemma_name_prefix(s, w2);
}

/// Each weekday is read back from its own short and long names.
pub proof fn law_weekday_names_roundtrip(w: PdfDateWeekday)
    ensures
        names_weekday(w.short_name(), w),
        names_weekday(w.long_name(), w),
{
    reveal_strlit("mon");
    reveal_strlit("tue");
    reveal_strlit("wed");
    reveal_strlit("thu");
    reveal_strlit("fri");
    reveal_strlit("sat");
    reveal_strlit("sun");
    reveal_strlit("monday");
    reveal_strlit("tuesday");
    reveal_strlit("wednesday");
    reveal_strlit("thursday");
    reveal_strlit("friday");
    reveal_strlit("saturday");
    reveal_strlit("sunday");
    assert(ascii_lower_seq(w.short_name()) =~= w.short_name());
    assert(ascii_lower_seq(w.long_name()) =~= w.long_name());
}

/// Moving to the next weekday and back returns the starting weekday.
pub proof fn law_succ_pred_inverse(w: PdfDateWeekday)
    ensures
        weekday_from_index((weekday_from_index((w.index() + 1) % 7).index() + 6) % 7) == w,
        weekday_from_index((weekday_from_index((w.index() + 6) % 7).index() + 1) % 7) == w,
{
}


/// The weekdays are named in English: the long names are `monday` to `sunday`, each
/// naming its own weekday only, and each short name is the first three letters of the
/// long name, which reads back as that weekday.
pub proof fn law_weekday_names_english()
    ensures
        forall|w: PdfDateWeekday| #[trigger] w.short_name() == w.long_name().take(3),
        forall|w: PdfDateWeekday| names_weekday(#[trigger] w.long_name().take(3), w),
        forall|w: PdfDateWeekday| (#[trigger] w.long_name() == "monday"@) <==> w == PdfDateWeekday::Mon,
        forall|w: PdfDateWeekday| (#[trigger] w.long_name() == "tuesday"@) <==> w == PdfDateWeekday::Tue,
        forall|w: PdfDateWeekday| (#[trigger] w.long_name() == "wednesday"@) <==> w == PdfDateWeekday::Wed,
        forall|w: PdfDateWeekday| (#[trigger] w.long_name() == "thursday"@) <==> w == PdfDateWeekday::Thu,
        forall|w: PdfDateWeekday| (#[trigger] w.long_name() == "friday"@) <==> w == PdfDateWeekday::Fri,
        forall|w: PdfDateWeekday| (#[trigger] w.long_name() == "saturday"@) <==> w == PdfDateWeekday::Sat,
        forall|w: PdfDateWeekday| (#[trigger] w.long_name() == "sunday"@) <==> w == PdfDateWeekday::Sun,
{
    reveal_strlit("mon");
    reveal_strlit("tue");
    reveal_strlit("wed");
    reveal_strlit("thu");
    reveal_strlit("fri");
    reveal_strlit("sat");
    reveal_strlit("sun");
    reveal_strlit("monday");
    reveal_strlit("tuesday");
    reveal_strlit("wednesday");
    reveal_strlit("thursday");
    reveal_strlit("friday");
    reveal_strlit("saturday");
    reveal_strlit("sunday");
    assert forall|w: PdfDateWeekday| #[trigger] w.short_name() == w.long_name().take(3) by {
        assert(w.short_name() =~= w.long_name().take(3));
    }
    assert forall|w: PdfDateWeekday| names_weekday(#[trigger] w.long_name().take(3), w) by {
        assert(w.short_name() =~= w.long_name().take(3));
        law_weekday_names_roundtrip(w);
    }
    let names = seq!["monday"@, "tuesday"@, "wednesday"@, "thursday"@, "friday"@, "saturday"@, "sunday"@];
    assert forall|w: PdfDateWeekday, i: int| #![trigger w.long_name(), names[i]] 0 <= i < 7 implies
        (w.long_name() == names[i] <==> w == weekday_from_index(i)) by {
        if w != weekday_from_index(i) {
            let j = w.index();
            assert(w == weekday_from_index(j));
            assert(w.long_name() == names[j]);
            assert(names[j][0] != names[i][0] || names[j][1] != names[i][1]);
        }
    }
    assert(names[0] == "monday"@);
    assert(names[1] == "tuesday"@);
    assert(names[2] == "wednesday"@);
    assert(names[3] == "thursday"@);
    assert(names[4] == "friday"@);
    assert(names[5] == "saturday"@);
    assert(names[6] == "sunday"@);
}


/// The English week, from Monday to Sunday.
pub open spec fn english_week() -> Seq<Seq<char>> {
    seq!["monday"@, "tuesday"@, "wednesday"@, "thursday"@, "friday"@, "saturday"@, "sunday"@]
}

/// The week runs Monday to Sunday: a weekday's number of days from Monday is its place in
/// the English week, and the next weekday is the one named next, Sunday being followed by
/// Monday.
pub proof fn law_weekday_week_order()
    ensures
        forall|w: PdfDateWeekday| 0 <= #[trigger] w.index() < 7 && w.long_name() == english_week()[w.index()],
        forall|w: PdfDateWeekday| (#[trigger] w.succ_spec()).long_name() == english_week()[(w.index() + 1) % 7],
{
}

} // verus!
