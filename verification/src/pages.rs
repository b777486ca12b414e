//! The set of planner pages, each identified by its kind and a position derived from
//! its date.

use crate::calendar::{
    days_before_year, days_from_civil, lemma_civil_unique, lemma_date_in_year, lemma_date_range,
    lemma_range_bounds, lemma_year_step, lemma_year_unique, lemma_years_ordered, ordinal_of,
    year_in_range, year_length, MAX_DAYS, MAX_YEAR,
};
use crate::date::{law_date_determined_by_days, DateView, PdfDate};
use vstd::prelude::*;

verus! {

/// Kind of a planner page.
#[derive(Clone, Copy, Debug, PartialEq, Eq, Structural, Hash)]
pub enum EnginePageKind {
    Daily,
    Monthly,
    Weekly,
}

impl EnginePageKind {
    /// Name by which scripts see the kind.
    pub open spec fn name_spec(self) -> Seq<char> {
        match self {
            EnginePageKind::Daily => "daily"@,
            EnginePageKind::Monthly => "monthly"@,
            EnginePageKind::Weekly => "weekly"@,
        }
    }

    /// Returns the name by which scripts see the kind.
    pub fn name(self) -> (r: &'static str)
        ensures
            r@ == self.name_spec(),
    {
        match self {
            EnginePageKind::Daily => "daily",
            EnginePageKind::Monthly => "monthly",
            EnginePageKind::Weekly => "weekly",
        }
    }
}

/// Position of the page of `kind` for a date: the day of the year for daily pages, the
/// month for monthly pages and, for weekly pages, the week of the year that the date lies
/// in, weeks being counted in runs of seven days from January 1; each counted from 0.
pub open spec fn page_index_of(kind: EnginePageKind, d: DateView) -> int {
    match kind {
        EnginePageKind::Daily => ordinal_of(d.days, d.year) - 1,
        EnginePageKind::Monthly => d.month - 1,
        EnginePageKind::Weekly => (ordinal_of(d.days, d.year) - 1) / 7,
    }
}

/// Number of positions of pages of `kind`: 12 months, 53 weeks, 366 days.
pub open spec fn page_bound(kind: EnginePageKind) -> int {
    match kind {
        EnginePageKind::Monthly => 12,
        EnginePageKind::Weekly => 53,
        EnginePageKind::Daily => 366,
    }
}

/// The position of the page of any kind for a well-formed date lies below that kind's
/// bound.
pub proof fn lemma_page_index_bounds(kind: EnginePageKind, d: DateView)
    requires
        d.wf(),
    ensures
        0 <= page_index_of(kind, d) < page_bound(kind),
{
    lemma_date_in_year(d.days, d.year, d.month, d.day);
}

/// Key of the page of `kind` for a date.
pub open spec fn key_for(kind: EnginePageKind, d: DateView) -> (EnginePageKind, int) {
    (kind, page_index_of(kind, d))
}

/// Key identifying a page: its kind and its position among pages of that kind.
#[derive(Clone, Copy, Debug, PartialEq, Eq, Structural, Hash)]
pub struct EnginePageKey(pub EnginePageKind, pub u32);

impl View for EnginePageKey {
    type V = (EnginePageKind, int);

    open spec fn view(&self) -> (EnginePageKind, int) {
        (self.0, self.1 as int)
    }
}

impl EnginePageKey {
    /// Returns a copy of the page kind associated with the key.
    pub fn kind(self) -> (r: EnginePageKind)
        ensures
            r == self.0,
    {
        self.0
    }

    /// Key for the page of `kind` at position `x`.
    pub fn from_kind_index(kind: EnginePageKind, x: u32) -> (r: Self)
        ensures
            r@ == (kind, x as int),
    {
        EnginePageKey(kind, x)
    }

    /// Key for the page of `kind` holding `date`.
    pub fn from_kind_date(kind: EnginePageKind, date: PdfDate) -> (r: Self)
        ensures
            r@ == key_for(kind, date@),
    {
        let x = match kind {
            EnginePageKind::Daily => date.ordinal0(),
            EnginePageKind::Monthly => date.month0(),
            EnginePageKind::Weekly => date.ordinal0() / 7,
        };
        EnginePageKey(kind, x)
    }
}

/// What a page is: its id, its kind and its date.
pub struct PageView {
    pub id: int,
    pub kind: EnginePageKind,
    pub date: DateView,
}

/// A planner page.
#[derive(Clone, Copy, Debug)]
pub struct EnginePage {
    /// Unique id associated with the page.
    pub id: u64,
    /// Indicates the kind of page.
    pub kind: EnginePageKind,
    /// Date associated with the page.
    pub date: PdfDate,
}

impl View for EnginePage {
    type V = PageView;

    open spec fn view(&self) -> PageView {
        PageView { id: self.id as int, kind: self.kind, date: self.date@ }
    }
}

/// Key of a page.
pub open spec fn page_key(p: EnginePage) -> (EnginePageKind, int) {
    key_for(p.kind, p.date@)
}

impl EnginePage {
    /// Creates a page of `kind` for `date` with the given id.
    pub fn new(id: u64, kind: EnginePageKind, date: PdfDate) -> (r: Self)
        ensures
            r.id == id && r.kind == kind && r.date == date,
    {
        EnginePage { id, kind, date }
    }

    /// Returns the key associated with the page.
    pub fn key(&self) -> (r: EnginePageKey)
        ensures
            r@ == page_key(*self),
    {
        EnginePageKey::from_kind_date(self.kind, self.date)
    }
}

/// The pages of a sequence, each under its key; a later page replaces an earlier one with
/// the same key.
pub open spec fn map_of(s: Seq<EnginePage>) -> Map<(EnginePageKind, int), PageView>
    decreases s.len(),
{
    if s.len() == 0 {
        Map::empty()
    } else {
        map_of(s.drop_last()).insert(page_key(s.last()), s.last()@)
    }
}

/// No two pages of the sequence share a key.
pub open spec fn keys_distinct(s: Seq<EnginePage>) -> bool {
    forall|i: int, j: int| 0 <= i < j < s.len() ==> page_key(s[i]) != page_key(s[j])
}

proof fn lemma_map_of_index(s: Seq<EnginePage>, i: int)
    requires
        keys_distinct(s),
        0 <= i < s.len(),
    ensures
        map_of(s).dom().contains(page_key(s[i])),
        map_of(s)[page_key(s[i])] == s[i]@,
    decreases s.len(),
{
    if i < s.len() - 1 {
        lemma_map_of_index(s.drop_last(), i);
        assert(page_key(s[i]) != page_key(s.last()));
    }
}

proof fn lemma_map_of_dom(s: Seq<EnginePage>, k: (EnginePageKind, int))
    requires
        map_of(s).dom().contains(k),
    ensures
        exists|i: int| 0 <= i < s.len() && page_key(s[i]) == k,
    decreases s.len(),
{
    if page_key(s.last()) != k {
        lemma_map_of_dom(s.drop_last(), k);
        let i = choose|i: int| 0 <= i < s.drop_last().len() && page_key(s.drop_last()[i]) == k;
        assert(page_key(s[i]) == k);
    }
}

proof fn lemma_map_of_update(s: Seq<EnginePage>, i: int, p: EnginePage)
    requires
        keys_distinct(s),
        0 <= i < s.len(),
        page_key(s[i]) == page_key(p),
    ensures
        map_of(s.update(i, p)) == map_of(s).insert(page_key(p), p@),
        keys_distinct(s.update(i, p)),
    decreases s.len(),
{
    let t = s.update(i, p);
    assert(t.drop_last() =~= if i < s.len() - 1 { s.drop_last().update(i, p) } else { s.drop_last() });
    if i < s.len() - 1 {
        lemma_map_of_update(s.drop_last(), i, p);
        assert(page_key(s.last()) != page_key(p));
        assert(map_of(t) =~= map_of(s).insert(page_key(p), p@));
    } else {
        assert(map_of(t) =~= map_of(s).insert(page_key(p), p@));
    }
}

/// Manages a collection of pages.
#[derive(Debug)]
pub struct EnginePages {
    /// Pages, no two with the same key.
    pages: Vec<EnginePage>,
    /// Id given to the next page that is added.
    next_id: u64,
}

impl View for EnginePages {
    type V = Map<(EnginePageKind, int), PageView>;

    closed spec fn view(&self) -> Map<(EnginePageKind, int), PageView> {
        map_of(self.pages@)
    }
}

impl EnginePages {
    #[verifier::type_invariant]
    closed spec fn inv(self) -> bool {
        keys_distinct(self.pages@)
    }

    /// Id that the next added page receives.
    pub closed spec fn next_page_id(self) -> int {
        self.next_id as int
    }

    /// Creates an empty collection whose first added page gets id 0.
    pub fn new() -> (r: Self)
        ensures
            r@ == Map::<(EnginePageKind, int), PageView>::empty(),
            r.next_page_id() == 0,
    {
        EnginePages { pages: Vec::new(), next_id: 0 }
    }

    /// Inserts a page by its key, replacing any page with that key, returning the key itself.
    pub fn insert_page(&mut self, page: EnginePage) -> (r: EnginePageKey)
        ensures
            r@ == page_key(page),
            final(self)@ == old(self)@.insert(page_key(page), page@),
            final(self).next_page_id() == old(self).next_page_id(),
    {
        proof {
            use_type_invariant(&*self);
        }
        let key = page.key();
        let n = self.pages.len();
        let mut i: usize = 0;
        while i < n
            invariant
                n == self.pages.len(),
                i <= n,
                keys_distinct(self.pages@),
                forall|j: int| 0 <= j < i ==> page_key(self.pages@[j]) != key@,
                key@ == page_key(page),
                self.pages@ == old(self).pages@,
                self.next_id == old(self).next_id,
            decreases n - i,
        {
            let existing = self.pages[i].key();
            if existing == key {
                proof {
                    lemma_map_of_update(self.pages@, i as int, page);
                }
                let ghost before = self.pages@;
                let mut pages = Vec::new();
                std::mem::swap(&mut pages, &mut self.pages);
                pages.set(i, page);
                assert(pages@ == before.update(i as int, page));
                self.pages = pages;
                return key;
            }
            i = i + 1;
        }
        let ghost before = self.pages@;
        let mut pages = Vec::new();
        std::mem::swap(&mut pages, &mut self.pages);
        pages.push(page);
        proof {
            assert(pages@.drop_last() =~= before);
            assert forall|a: int, b: int| 0 <= a < b < pages@.len() implies page_key(pages@[a]) != page_key(pages@[b]) by {
                if b == pages@.len() - 1 {
                    assert(pages@[a] == before[a]);
                }
            }
        }
        self.pages = pages;
        key
    }

    /// Retrieves a copy of a page by its `key`.
    pub fn get_page(&self, key: EnginePageKey) -> (r: Option<EnginePage>)
        ensures
            r is Some <==> self@.dom().contains(key@),
            r matches Some(p) ==> p@ == self@[key@] && page_key(p) == key@,
    {
        proof {
            use_type_invariant(self);
        }
        let n = self.pages.len();
        let mut i: usize = 0;
        while i < n
            invariant
                n == self.pages.len(),
                i <= n,
                keys_distinct(self.pages@),
                forall|j: int| 0 <= j < i ==> page_key(self.pages@[j]) != key@,
            decreases n - i,
        {
            let page = self.pages[i];
            if page.key() == key {
                proof {
                    lemma_map_of_index(self.pages@, i as int);
                }
                return Some(page);
            }
            i = i + 1;
        }
        proof {
            if map_of(self.pages@).dom().contains(key@) {
                lemma_map_of_dom(self.pages@, key@);
            }
        }
        None
    }

    /// Retrieves a copy of a page by its `kind` and `date`.
    pub fn get_page_by_date(&self, kind: EnginePageKind, date: PdfDate) -> (r: Option<EnginePage>)
        ensures
            r is Some <==> self@.dom().contains(key_for(kind, date@)),
            r matches Some(p) ==> p@ == self@[key_for(kind, date@)],
    {
        self.get_page(EnginePageKey::from_kind_date(kind, date))
    }
}

/// The pages of `kind` at positions `0` to `n - 1` that the map holds, in order of position.
pub open spec fn present_pages(m: Map<(EnginePageKind, int), PageView>, kind: EnginePageKind, n: int) -> Seq<PageView>
    decreases n,
{
    if n <= 0 {
        Seq::empty()
    } else if m.dom().contains((kind, n - 1)) {
        present_pages(m, kind, n - 1).push(m[(kind, n - 1)])
    } else {
        present_pages(m, kind, n - 1)
    }
}

/// Every page of the map is held under its own key.
pub open spec fn keys_match(m: Map<(EnginePageKind, int), PageView>) -> bool {
    forall|k| #[trigger] m.dom().contains(k) ==> key_for(m[k].kind, m[k].date) == k
}

/// The pages of a sequence are held under their own keys.
proof fn lemma_map_of_keys_match(s: Seq<EnginePage>)
    ensures
        keys_match(map_of(s)),
    decreases s.len(),
{
    if s.len() > 0 {
        lemma_map_of_keys_match(s.drop_last());
    }
}

/// When the map holds a page of `kind` at exactly the positions below `c`, among those
/// below `n`, the present pages are those `c` pages in order of position.
pub proof fn lemma_present_prefix(m: Map<(EnginePageKind, int), PageView>, kind: EnginePageKind, n: int, c: int)
    requires
        0 <= c <= n,
        forall|i: int| 0 <= i < n ==> (#[trigger] m.dom().contains((kind, i)) <==> i < c),
    ensures
        present_pages(m, kind, n).len() == c,
        forall|i: int| 0 <= i < c ==> #[trigger] present_pages(m, kind, n)[i] == m[(kind, i)],
    decreases n,
{
    if n > 0 {
        if c == n {
            lemma_present_prefix(m, kind, n - 1, n - 1);
            assert(m.dom().contains((kind, n - 1)));
        } else {
            lemma_present_prefix(m, kind, n - 1, c);
            assert(!m.dom().contains((kind, n - 1)));
        }
    }
}

/// The present pages of a map that holds each page under its own key are of `kind`, and
/// their positions rise strictly and lie below `n`.
proof fn lemma_present_positions(m: Map<(EnginePageKind, int), PageView>, kind: EnginePageKind, n: int)
    requires
        keys_match(m),
    ensures
        forall|i: int| 0 <= i < present_pages(m, kind, n).len() ==> (#[trigger] present_pages(m, kind, n)[i]).kind == kind
            && 0 <= page_index_of(kind, present_pages(m, kind, n)[i].date) < n,
        forall|i: int, j: int| 0 <= i < j < present_pages(m, kind, n).len()
            ==> page_index_of(kind, (#[trigger] present_pages(m, kind, n)[i]).date) < page_index_of(kind, (#[trigger] present_pages(m, kind, n)[j]).date),
    decreases n,
{
    if n > 0 {
        lemma_present_positions(m, kind, n - 1);
        if m.dom().contains((kind, n - 1)) {
            let p = present_pages(m, kind, n - 1);
            let q = p.push(m[(kind, n - 1)]);
            assert(present_pages(m, kind, n) == q);
            assert forall|i: int| 0 <= i < p.len() implies #[trigger] q[i] == p[i] by {}
        }
    }
}

impl EnginePages {
    /// Creates and inserts an empty page of `kind` at `date`, giving it the next page id.
    pub fn add_page(&mut self, kind: EnginePageKind, date: PdfDate) -> (r: EnginePageKey)
        ensures
            r@ == key_for(kind, date@),
            final(self)@ == old(self)@.insert(key_for(kind, date@), PageView { id: old(self).next_page_id(), kind, date: date@ }),
            final(self).next_page_id() == (old(self).next_page_id() + 1) % 0x1_0000_0000_0000_0000,
    {
        let page = EnginePage::new(self.next_id, kind, date);
        let key = self.insert_page(page);
        proof {
            use_type_invariant(&*self);
        }
        self.next_id = self.next_id.wrapping_add(1);
        key
    }

    /// Adds a monthly page for the given `date`.
    pub fn add_monthly_page(&mut self, date: PdfDate) -> (r: EnginePageKey)
        ensures
            r@ == key_for(EnginePageKind::Monthly, date@),
            final(self)@ == old(self)@.insert(key_for(EnginePageKind::Monthly, date@), PageView { id: old(self).next_page_id(), kind: EnginePageKind::Monthly, date: date@ }),
            final(self).next_page_id() == (old(self).next_page_id() + 1) % 0x1_0000_0000_0000_0000,
    {
        self.add_page(EnginePageKind::Monthly, date)
    }

    /// Adds a weekly page for the given `date`.
    pub fn add_weekly_page(&mut self, date: PdfDate) -> (r: EnginePageKey)
        ensures
            r@ == key_for(EnginePageKind::Weekly, date@),
            final(self)@ == old(self)@.insert(key_for(EnginePageKind::Weekly, date@), PageView { id: old(self).next_page_id(), kind: EnginePageKind::Weekly, date: date@ }),
            final(self).next_page_id() == (old(self).next_page_id() + 1) % 0x1_0000_0000_0000_0000,
    {
        self.add_page(EnginePageKind::Weekly, date)
    }

    /// Adds a daily page for the given `date`.
    pub fn add_daily_page(&mut self, date: PdfDate) -> (r: EnginePageKey)
        ensures
            r@ == key_for(EnginePageKind::Daily, date@),
            final(self)@ == old(self)@.insert(key_for(EnginePageKind::Daily, date@), PageView { id: old(self).next_page_id(), kind: EnginePageKind::Daily, date: date@ }),
            final(self).next_page_id() == (old(self).next_page_id() + 1) % 0x1_0000_0000_0000_0000,
    {
        self.add_page(EnginePageKind::Daily, date)
    }

    /// Returns the keys of the pages, each once.
    pub fn keys(&self) -> (r: Vec<EnginePageKey>)
        ensures
            r@.map_values(|k: EnginePageKey| k@).to_set() == self@.dom(),
            r@.map_values(|k: EnginePageKey| k@).no_duplicates(),
    {
        proof {
            use_type_invariant(self);
        }
        let n = self.pages.len();
        let mut keys: Vec<EnginePageKey> = Vec::new();
        let mut i: usize = 0;
        while i < n
            invariant
                n == self.pages.len(),
                i <= n,
                keys_distinct(self.pages@),
                keys@.len() == i,
                forall|j: int| 0 <= j < i ==> #[trigger] keys@[j]@ == page_key(self.pages@[j]),
            decreases n - i,
        {
            keys.push(self.pages[i].key());
            i = i + 1;
        }
        proof {
            let ks = keys@.map_values(|k: EnginePageKey| k@);
            assert forall|k| ks.to_set().contains(k) implies map_of(self.pages@).dom().contains(k) by {
                let j = choose|j: int| 0 <= j < ks.len() && ks[j] == k;
                lemma_map_of_index(self.pages@, j);
            }
            assert forall|k| map_of(self.pages@).dom().contains(k) implies ks.to_set().contains(k) by {
                lemma_map_of_dom(self.pages@, k);
                let j = choose|j: int| 0 <= j < self.pages@.len() && page_key(self.pages@[j]) == k;
                assert(ks[j] == k);
            }
            assert(ks.to_set() =~= map_of(self.pages@).dom());
        }
        keys
    }

    /// Returns copies of all pages, each once.
    pub fn pages(&self) -> (r: Vec<EnginePage>)
        ensures
            forall|i: int| 0 <= i < r@.len() ==> self@.dom().contains(page_key(r@[i])) && self@[page_key(r@[i])] == r@[i]@,
            forall|k| self@.dom().contains(k) ==> exists|i: int| 0 <= i < r@.len() && page_key(r@[i]) == k,
            keys_distinct(r@),
    {
        proof {
            use_type_invariant(self);
            assert forall|i: int| 0 <= i < self.pages@.len() implies map_of(self.pages@).dom().contains(page_key(self.pages@[i])) && map_of(self.pages@)[page_key(self.pages@[i])] == self.pages@[i]@ by {
                lemma_map_of_index(self.pages@, i);
            }
            assert forall|k| map_of(self.pages@).dom().contains(k) implies exists|i: int| 0 <= i < self.pages@.len() && page_key(self.pages@[i]) == k by {
                lemma_map_of_dom(self.pages@, k);
            }
        }
        self.pages.clone()
    }

    /// Returns the pages of `kind` at positions `0` to `n - 1`, in order of position.
    fn pages_of_kind(&self, kind: EnginePageKind, n: u32) -> (r: Vec<EnginePage>)
        ensures
            r@.map_values(|p: EnginePage| p@) == present_pages(self@, kind, n as int),
            forall|i: int| 0 <= i < r@.len() ==> (#[trigger] r@[i]).kind == kind && 0 <= page_index_of(kind, r@[i].date@) < n,
            forall|i: int, j: int| 0 <= i < j < r@.len()
                ==> page_index_of(kind, (#[trigger] r@[i]).date@) < page_index_of(kind, (#[trigger] r@[j]).date@),
    {
        let mut out: Vec<EnginePage> = Vec::new();
        let mut i: u32 = 0;
        while i < n
            invariant
                i <= n,
                out@.map_values(|p: EnginePage| p@) == present_pages(self@, kind, i as int),
            decreases n - i,
        {
            let ghost before = out@;
            match self.get_page(EnginePageKey::from_kind_index(kind, i)) {
                Some(page) => {
                    out.push(page);
                    assert(out@.map_values(|p: EnginePage| p@) =~= before.map_values(|p: EnginePage| p@).push(page@));
                },
                None => {},
            }
            i = i + 1;
        }
        proof {
            lemma_map_of_keys_match(self.pages@);
            lemma_present_positions(self@, kind, n as int);
            let ps = present_pages(self@, kind, n as int);
            assert forall|i: int| 0 <= i < out@.len() implies (#[trigger] out@[i])@ == ps[i] by {
                assert(out@.map_values(|p: EnginePage| p@)[i] == out@[i]@);
            }
            assert forall|i: int| 0 <= i < out@.len() implies (#[trigger] out@[i]).kind == kind && 0 <= page_index_of(kind, out@[i].date@) < n by {
                assert(out@[i]@ == ps[i]);
            }
            assert forall|i: int, j: int| 0 <= i < j < out@.len()
                implies page_index_of(kind, (#[trigger] out@[i]).date@) < page_index_of(kind, (#[trigger] out@[j]).date@) by {
                assert(out@[i]@ == ps[i]);
                assert(out@[j]@ == ps[j]);
            }
        }
        out
    }

    /// Returns the pages representing months, in order of the months.
    pub fn iter_monthly_pages(&self) -> (r: Vec<EnginePage>)
        ensures
            r@.map_values(|p: EnginePage| p@) == present_pages(self@, EnginePageKind::Monthly, 12),
            forall|i: int| 0 <= i < r@.len() ==> (#[trigger] r@[i]).kind == EnginePageKind::Monthly,
            forall|i: int, j: int| 0 <= i < j < r@.len()
                ==> page_index_of(EnginePageKind::Monthly, (#[trigger] r@[i]).date@) < page_index_of(EnginePageKind::Monthly, (#[trigger] r@[j]).date@),
    {
        self.pages_of_kind(EnginePageKind::Monthly, 12)
    }

    /// Returns the pages representing weeks, in order of the weeks.
    pub fn iter_weekly_pages(&self) -> (r: Vec<EnginePage>)
        ensures
            r@.map_values(|p: EnginePage| p@) == present_pages(self@, EnginePageKind::Weekly, 53),
            forall|i: int| 0 <= i < r@.len() ==> (#[trigger] r@[i]).kind == EnginePageKind::Weekly,
            forall|i: int, j: int| 0 <= i < j < r@.len()
                ==> page_index_of(EnginePageKind::Weekly, (#[trigger] r@[i]).date@) < page_index_of(EnginePageKind::Weekly, (#[trigger] r@[j]).date@),
    {
        self.pages_of_kind(EnginePageKind::Weekly, 53)
    }

    /// Returns the pages representing days, in order of the days.
    pub fn iter_daily_pages(&self) -> (r: Vec<EnginePage>)
        ensures
            r@.map_values(|p: EnginePage| p@) == present_pages(self@, EnginePageKind::Daily, 366),
            forall|i: int| 0 <= i < r@.len() ==> (#[trigger] r@[i]).kind == EnginePageKind::Daily,
            forall|i: int, j: int| 0 <= i < j < r@.len()
                ==> page_index_of(EnginePageKind::Daily, (#[trigger] r@[i]).date@) < page_index_of(EnginePageKind::Daily, (#[trigger] r@[j]).date@),
    {
        self.pages_of_kind(EnginePageKind::Daily, 366)
    }
}

/// Reading a page back after inserting one gives the inserted page under its key, and
/// leaves the pages under every other key as they were.
pub proof fn law_pages_read_after_insert(
    pages: Map<(EnginePageKind, int), PageView>,
    key: (EnginePageKind, int),
    page: PageView,
    other: (EnginePageKind, int),
)
    ensures
        pages.insert(key, page).dom().contains(key),
        pages.insert(key, page)[key] == page,
        other != key ==> pages.insert(key, page).dom().contains(other) == pages.dom().contains(other),
        other != key && pages.dom().contains(other) ==> pages.insert(key, page)[other] == pages[other],
{
}


/// Scripts see the page kinds by their English names: `daily`, `monthly` and `weekly`,
/// each naming its own kind only.
pub proof fn law_page_kind_names()
    ensures
        forall|k: EnginePageKind| (#[trigger] k.name_spec() == "daily"@) <==> k == EnginePageKind::Daily,
        forall|k: EnginePageKind| (#[trigger] k.name_spec() == "monthly"@) <==> k == EnginePageKind::Monthly,
        forall|k: EnginePageKind| (#[trigger] k.name_spec() == "weekly"@) <==> k == EnginePageKind::Weekly,
{
    reveal_strlit("daily");
    reveal_strlit("monthly");
    reveal_strlit("weekly");
    assert forall|k: EnginePageKind| (#[trigger] k.name_spec() == "daily"@) <==> k == EnginePageKind::Daily by {
        match k {
            EnginePageKind::Daily => {},
            EnginePageKind::Monthly => { assert("monthly"@.len() != "daily"@.len()); },
            EnginePageKind::Weekly => { assert("weekly"@.len() != "daily"@.len()); },
        }
    }
    assert forall|k: EnginePageKind| (#[trigger] k.name_spec() == "monthly"@) <==> k == EnginePageKind::Monthly by {
        match k {
            EnginePageKind::Daily => { assert("daily"@.len() != "monthly"@.len()); },
            EnginePageKind::Monthly => {},
            EnginePageKind::Weekly => { assert("weekly"@.len() != "monthly"@.len()); },
        }
    }
    assert forall|k: EnginePageKind| (#[trigger] k.name_spec() == "weekly"@) <==> k == EnginePageKind::Weekly by {
        match k {
            EnginePageKind::Daily => { assert("daily"@.len() != "weekly"@.len()); },
            EnginePageKind::Monthly => { assert("monthly"@.len() != "weekly"@.len()); },
            EnginePageKind::Weekly => {},
        }
    }
}

} // verus!
