//! Planner configuration and the set of pages that a planner year is made of.

use crate::calendar::{
    days_before_year, days_from_civil, days_in_range, is_date_of, lemma_civil_exists,
    lemma_date_in_year,
    lemma_date_range, lemma_range_bounds, lemma_year_step, lemma_year_unique,
    lemma_years_ordered, year_in_range, year_length, MAX_DAYS, MAX_YEAR, MIN_YEAR,
};
use crate::date::{law_date_determined_by_days, DateView, PdfDate};
use crate::engine::{document_order, law_document_holds_page};
use crate::pages::{
    key_for, lemma_page_index_bounds, lemma_present_prefix, present_pages, EnginePageKind,
    EnginePages, PageView,
};
use vstd::prelude::*;

verus! {

/// Daily planner-specific configuration for PDFs.
#[derive(Clone, Copy, Debug, PartialEq, Eq, Structural)]
pub struct PdfConfigDailyPlanner {
    pub enabled: bool,
}

/// Monthly planner-specific configuration for PDFs.
#[derive(Clone, Copy, Debug, PartialEq, Eq, Structural)]
pub struct PdfConfigMonthlyPlanner {
    pub enabled: bool,
}

/// Weekly planner-specific configuration for PDFs.
#[derive(Clone, Copy, Debug, PartialEq, Eq, Structural)]
pub struct WeeklyPlannerPdfConfig {
    pub enabled: bool,
}

impl Default for PdfConfigDailyPlanner {
    fn default() -> (r: Self)
        ensures
            r.enabled,
    {
        PdfConfigDailyPlanner { enabled: true }
    }
}

impl Default for PdfConfigMonthlyPlanner {
    fn default() -> (r: Self)
        ensures
            r.enabled,
    {
        PdfConfigMonthlyPlanner { enabled: true }
    }
}

impl Default for WeeklyPlannerPdfConfig {
    fn default() -> (r: Self)
        ensures
            r.enabled,
    {
        WeeklyPlannerPdfConfig { enabled: true }
    }
}

/// Planner-specific configuration for PDFs.
#[derive(Clone, Copy, Debug, PartialEq, Eq, Structural)]
pub struct PdfConfigPlanner {
    /// Year associated with planner
    pub year: i32,
    /// Configuration tied to monthly planner pages
    pub monthly: PdfConfigMonthlyPlanner,
    /// Configuration tied to weekly planner pages
    pub weekly: WeeklyPlannerPdfConfig,
    /// Configuration tied to daily planner pages
    pub daily: PdfConfigDailyPlanner,
}

/// Calls `chrono::Local::now` and takes the year of the local date; nothing is claimed
/// of the year, which depends on the clock and the time zone.
#[verifier::external_body]
fn current_local_year() -> (r: i32) {
    chrono::Datelike::year(&chrono::Local::now())
}

impl Default for PdfConfigPlanner {
    /// The planner for the current year, with monthly, weekly and daily pages.
    fn default() -> (r: Self)
        ensures
            r.monthly.enabled && r.weekly.enabled && r.daily.enabled,
    {
        PdfConfigPlanner {
            year: current_local_year(),
            monthly: PdfConfigMonthlyPlanner { enabled: true },
            weekly: WeeklyPlannerPdfConfig { enabled: true },
            daily: PdfConfigDailyPlanner { enabled: true },
        }
    }
}

/// Reason for which the pages of a planner cannot be built.
#[derive(Clone, Copy, Debug, PartialEq, Eq, Structural)]
pub enum PlannerError {
    /// The first day of the year cannot be represented.
    BeginningOfYear(i32),
}

/// The calendar reading of day number `n`.
pub open spec fn civil_view(n: int) -> DateView {
    choose|v: DateView| v.wf() && v.days == n
}

/// The page that a planned page becomes when it is the `id`-th page added.
pub open spec fn planned_page(e: (EnginePageKind, int), id: int) -> PageView {
    PageView { id, kind: e.0, date: civil_view(e.1) }
}

/// The pages resulting from adding the planned pages in order, the `i`-th getting id `i`;
/// a later page replaces an earlier one with the same key.
pub open spec fn map_of_plan(plan: Seq<(EnginePageKind, int)>) -> Map<(EnginePageKind, int), PageView>
    decreases plan.len(),
{
    if plan.len() == 0 {
        Map::empty()
    } else {
        let e = plan.last();
        map_of_plan(plan.drop_last()).insert(key_for(e.0, civil_view(e.1)), planned_page(e, plan.len() - 1))
    }
}

/// Monthly pages of year `y`: the first day of each month.
pub open spec fn monthly_plan(y: int) -> Seq<(EnginePageKind, int)> {
    Seq::new(12, |i: int| (EnginePageKind::Monthly, days_from_civil(y, i + 1, 1)))
}

/// Number of weekly pages of year `y`: one every seven days from January 1 within the year.
pub open spec fn weekly_count(y: int) -> int {
    (year_length(y) - 1) / 7 + 1
}

/// Weekly pages of year `y`: every seventh day from January 1, within the year.
pub open spec fn weekly_plan(y: int) -> Seq<(EnginePageKind, int)> {
    Seq::new(weekly_count(y) as nat, |k: int| (EnginePageKind::Weekly, days_before_year(y) + 1 + 7 * k))
}

/// Daily pages of year `y`: every day of the year.
pub open spec fn daily_plan(y: int) -> Seq<(EnginePageKind, int)> {
    Seq::new(year_length(y) as nat, |k: int| (EnginePageKind::Daily, days_before_year(y) + 1 + k))
}

/// The pages of a planner in the order they are added: months, then weeks, then days,
/// each where enabled.
pub open spec fn planner_plan(config: PdfConfigPlanner) -> Seq<(EnginePageKind, int)> {
    let y = config.year as int;
    (if config.monthly.enabled { monthly_plan(y) } else { Seq::empty() })
        + (if config.weekly.enabled { weekly_plan(y) } else { Seq::empty() })
        + (if config.daily.enabled { daily_plan(y) } else { Seq::empty() })
}

/// The calendar reading of a well-formed date's day number is that date.
proof fn lemma_civil_view(d: DateView)
    requires
        d.wf(),
    ensures
        civil_view(d.days) == d,
{
    let v = civil_view(d.days);
    law_date_determined_by_days(v, d);
}

/// Within a supported year, a day number after its start lies in it exactly when it is
/// at most the year's last day, which is itself supported.
proof fn lemma_day_in_year(y: int, d: DateView)
    requires
        year_in_range(y),
        d.wf(),
        d.days > days_before_year(y),
    ensures
        (d.year == y) <==> (d.days <= days_before_year(y) + year_length(y)),
        days_before_year(y) + year_length(y) <= MAX_DAYS,
{
    lemma_date_in_year(d.days, d.year, d.month, d.day);
    lemma_range_bounds();
    lemma_year_step(y);
    if y < MAX_YEAR {
        lemma_years_ordered(y + 1, MAX_YEAR + 1);
        lemma_year_step(y + 1);
    }
    if d.days <= days_before_year(y) + year_length(y) {
        lemma_year_unique(d.days, y, d.year);
    }
}

/// Appending one planned page adds it to the map under its key.
proof fn lemma_map_of_plan_push(plan: Seq<(EnginePageKind, int)>, e: (EnginePageKind, int))
    ensures
        map_of_plan(plan.push(e)) == map_of_plan(plan).insert(key_for(e.0, civil_view(e.1)), planned_page(e, plan.len() as int)),
{
    assert(plan.push(e).drop_last() =~= plan);
}

impl EnginePages {
    /// Builds a set of empty pages for the planner year: a page for the first day of each
    /// month, a page for every seventh day from January 1 within the year, and a page for
    /// each day of the year, each where enabled, added in that order with ids from 0.
    pub fn for_planner(config: &PdfConfigPlanner) -> (r: Result<Self, PlannerError>)
        ensures
            r is Ok <==> year_in_range(config.year as int),
            r matches Err(e) ==> e == PlannerError::BeginningOfYear(config.year),
            r matches Ok(p) ==> p@ == map_of_plan(planner_plan(*config)),
            r matches Ok(p) ==> p.next_page_id() == planner_plan(*config).len(),
            r matches Ok(p) ==> present_pages(p@, EnginePageKind::Weekly, 53).len()
                == (if config.weekly.enabled { weekly_count(config.year as int) } else { 0 }),
            r matches Ok(p) ==> forall|k: int| 0 <= k < present_pages(p@, EnginePageKind::Weekly, 53).len()
                ==> (#[trigger] present_pages(p@, EnginePageKind::Weekly, 53)[k]).date.days
                    == days_before_year(config.year as int) + 1 + 7 * k,
    {
        let mut pages = EnginePages::new();
        let year = config.year;
        let ghost y = year as int;

        let first_day = match PdfDate::beginning_of_year(year) {
            Some(d) => d,
            None => return Err(PlannerError::BeginningOfYear(year)),
        };
        let last_day = PdfDate::end_of_year(year).unwrap();
        proof {
            lemma_civil_view(first_day@);
            lemma_year_step(y);
            assert(first_day@.days == days_before_year(y) + 1);
            assert(last_day@.days == days_before_year(y) + year_length(y));
            assert(map_of_plan(Seq::empty()) =~= Map::empty());
        }
        let ghost mut done: Seq<(EnginePageKind, int)> = Seq::empty();

        // Build the month pages (all empty)
        if config.monthly.enabled {
            let mut i: u32 = 1;
            while i <= 12
                invariant
                    1 <= i <= 13,
                    year == config.year,
                    y == year,
                    year_in_range(y),
                    done == monthly_plan(y).take(i - 1),
                    done.len() == i - 1,
                    pages@ == map_of_plan(done),
                    pages.next_page_id() == done.len(),
                decreases 13 - i,
            {
                let date = PdfDate::beginning_of_month(year, i).unwrap();
                let ghost e = (EnginePageKind::Monthly, date@.days);
                proof {
                    lemma_civil_view(date@);
                    lemma_map_of_plan_push(done, e);
                }
                proof {
                    vstd::arithmetic::div_mod::lemma_small_mod((done.len() + 1) as nat, 0x1_0000_0000_0000_0000);
                }
                pages.add_monthly_page(date);
                proof {
                    assert(monthly_plan(y).take(i as int) =~= monthly_plan(y).take(i - 1).push(e));
                    done = done.push(e);
                }
                i = i + 1;
            }
            proof {
                assert(monthly_plan(y).take(12) =~= monthly_plan(y));
            }
        }
        let ghost after_months = done;

        // Build the weekly pages (all empty)
        if config.weekly.enabled {
            let mut cur = first_day;
            let ghost mut k: int = 0;
            let mut stop = false;
            while !stop
                invariant
                    year == config.year,
                    y == year,
                    year_in_range(y),
                    first_day@.days == days_before_year(y) + 1,
                    cur@.wf(),
                    !stop ==> cur@.days == days_before_year(y) + 1 + 7 * k,
                    after_months.len() <= 12,
                    0 <= k <= weekly_count(y),
                    stop ==> k == weekly_count(y),
                    done == after_months + weekly_plan(y).take(k),
                    pages@ == map_of_plan(done),
                    pages.next_page_id() == done.len(),
                decreases weekly_count(y) - k + (if stop { 0int } else { 1int }),
            {
                proof {
                    lemma_day_in_year(y, cur@);
                    vstd::arithmetic::div_mod::lemma_fundamental_div_mod(year_length(y) - 1, 7);
                }
                if cur.year() != year {
                    stop = true;
                } else {
                    let ghost e = (EnginePageKind::Weekly, cur@.days);
                    proof {
                        lemma_civil_view(cur@);
                        lemma_map_of_plan_push(done, e);
                    }
                    proof {
                        vstd::arithmetic::div_mod::lemma_small_mod((done.len() + 1) as nat, 0x1_0000_0000_0000_0000);
                    }
                    pages.add_weekly_page(cur);
                    proof {
                        assert(weekly_plan(y).take(k + 1) =~= weekly_plan(y).take(k).push(e));
                        assert(after_months + weekly_plan(y).take(k + 1) =~= done.push(e));
                        done = done.push(e);
                        k = k + 1;
                    }
                    match cur.next_week() {
                        Some(next) => {
                            cur = next;
                        },
                        None => {
                            stop = true;
                        },
                    }
                }
            }
            proof {
                assert(weekly_plan(y).take(weekly_count(y)) =~= weekly_plan(y));
            }
        }
        let ghost after_weeks = done;

        // Build the daily pages (all empty)
        if config.daily.enabled {
            let mut cur = first_day;
            let ghost mut k: int = 0;
            let mut stop = false;
            while !stop
                invariant
                    year == config.year,
                    y == year,
                    year_in_range(y),
                    last_day@.days == days_before_year(y) + year_length(y),
                    cur@.wf(),
                    !stop ==> cur@.days == days_before_year(y) + 1 + k,
                    after_weeks.len() <= 12 + 53,
                    0 <= k <= year_length(y),
                    stop ==> k == year_length(y),
                    done == after_weeks + daily_plan(y).take(k),
                    pages@ == map_of_plan(done),
                    pages.next_page_id() == done.len(),
                decreases year_length(y) - k + (if stop { 0int } else { 1int }),
            {
                proof {
                    lemma_day_in_year(y, cur@);
                }
                if !cur.is_on_or_before(&last_day) {
                    stop = true;
                } else {
                    let ghost e = (EnginePageKind::Daily, cur@.days);
                    proof {
                        lemma_civil_view(cur@);
                        lemma_map_of_plan_push(done, e);
                    }
                    proof {
                        vstd::arithmetic::div_mod::lemma_small_mod((done.len() + 1) as nat, 0x1_0000_0000_0000_0000);
                    }
                    pages.add_daily_page(cur);
                    proof {
                        assert(daily_plan(y).take(k + 1) =~= daily_plan(y).take(k).push(e));
                        assert(after_weeks + daily_plan(y).take(k + 1) =~= done.push(e));
                        done = done.push(e);
                        k = k + 1;
                    }
                    match cur.tomorrow() {
                        Some(next) => {
                            cur = next;
                        },
                        None => {
                            stop = true;
                        },
                    }
                }
            }
            proof {
                assert(daily_plan(y).take(year_length(y)) =~= daily_plan(y));
            }
        }
        proof {
            assert(done =~= planner_plan(*config));
            law_planner_weekly_pages(*config);
        }
        Ok(pages)
    }
}

/// Key of a planned page.
pub open spec fn plan_key(e: (EnginePageKind, int)) -> (EnginePageKind, int) {
    key_for(e.0, civil_view(e.1))
}

/// The calendar reading of a supported day number is a well-formed date.
proof fn lemma_civil_view_wf(n: int)
    requires
        days_in_range(n),
    ensures
        civil_view(n).wf(),
        civil_view(n).days == n,
{
    lemma_civil_exists(n);
    let (y, m, d) = choose|y: int, m: int, d: int| #[trigger] is_date_of(n, y, m, d);
    let v = DateView { days: n, year: y, month: m, day: d };
    assert(v.wf());
}

/// A planned page that no later planned page replaces is in the map, with the id of its
/// position.
proof fn lemma_map_of_plan_last(plan: Seq<(EnginePageKind, int)>, j: int)
    requires
        0 <= j < plan.len(),
        forall|i: int| j < i < plan.len() ==> plan_key(#[trigger] plan[i]) != plan_key(plan[j]),
    ensures
        map_of_plan(plan).dom().contains(plan_key(plan[j])),
        map_of_plan(plan)[plan_key(plan[j])] == planned_page(plan[j], j),
    decreases plan.len(),
{
    if j < plan.len() - 1 {
        let p = plan.drop_last();
        assert forall|i: int| j < i < p.len() implies plan_key(#[trigger] p[i]) != plan_key(p[j]) by {
            assert(p[i] == plan[i]);
        }
        lemma_map_of_plan_last(p, j);
        assert(plan_key(plan[plan.len() - 1]) != plan_key(plan[j]));
    }
}

/// Every key in the map is the key of some planned page.
proof fn lemma_map_of_plan_dom(plan: Seq<(EnginePageKind, int)>, k: (EnginePageKind, int))
    requires
        map_of_plan(plan).dom().contains(k),
    ensures
        exists|j: int| 0 <= j < plan.len() && plan_key(#[trigger] plan[j]) == k,
    decreases plan.len(),
{
    if plan_key(plan.last()) != k {
        lemma_map_of_plan_dom(plan.drop_last(), k);
        let j = choose|j: int| 0 <= j < plan.drop_last().len() && plan_key(#[trigger] plan.drop_last()[j]) == k;
        assert(plan[j] == plan.drop_last()[j]);
    }
}

/// The key of a planned daily page of a supported year is its day of the year, from 0.
proof fn lemma_daily_key(y: int, k: int)
    requires
        year_in_range(y),
        0 <= k < year_length(y),
    ensures
        plan_key((EnginePageKind::Daily, days_before_year(y) + 1 + k)) == (EnginePageKind::Daily, k),
        civil_view(days_before_year(y) + 1 + k).year == y,
        civil_view(days_before_year(y) + 1 + k).wf(),
        civil_view(days_before_year(y) + 1 + k).days == days_before_year(y) + 1 + k,
{
    let n = days_before_year(y) + 1 + k;
    lemma_range_bounds();
    lemma_year_step(y);
    if y > MIN_YEAR {
        lemma_years_ordered(MIN_YEAR as int, y);
    }
    if y < MAX_YEAR {
        lemma_years_ordered(y + 1, MAX_YEAR + 1);
        lemma_year_step(y + 1);
    }
    lemma_civil_view_wf(n);
    lemma_day_in_year(y, civil_view(n));
}

/// The key of the `k`-th planned weekly page of a supported year is `k`: it lies in the
/// `k`-th run of seven days from January 1.
proof fn lemma_weekly_key(y: int, k: int)
    requires
        year_in_range(y),
        0 <= k < weekly_count(y),
    ensures
        plan_key((EnginePageKind::Weekly, days_before_year(y) + 1 + 7 * k)) == (EnginePageKind::Weekly, k),
        civil_view(days_before_year(y) + 1 + 7 * k).year == y,
        civil_view(days_before_year(y) + 1 + 7 * k).wf(),
        civil_view(days_before_year(y) + 1 + 7 * k).days == days_before_year(y) + 1 + 7 * k,
{
    vstd::arithmetic::div_mod::lemma_fundamental_div_mod(year_length(y) - 1, 7);
    assert(7 * k < year_length(y));
    lemma_daily_key(y, 7 * k);
    assert((7 * k) / 7 == k);
}

/// The planner holds a daily page for every day of its year, with that date, when daily
/// pages are enabled.
pub proof fn law_planner_daily_page(config: PdfConfigPlanner, d: DateView)
    requires
        year_in_range(config.year as int),
        config.daily.enabled,
        d.wf(),
        d.year == config.year,
    ensures
        map_of_plan(planner_plan(config)).dom().contains(key_for(EnginePageKind::Daily, d)),
        map_of_plan(planner_plan(config))[key_for(EnginePageKind::Daily, d)].date == d,
        map_of_plan(planner_plan(config))[key_for(EnginePageKind::Daily, d)].kind == EnginePageKind::Daily,
{
    let y = config.year as int;
    let plan = planner_plan(config);
    let a = (if config.monthly.enabled { monthly_plan(y) } else { Seq::empty() })
        + (if config.weekly.enabled { weekly_plan(y) } else { Seq::empty() });
    assert(plan =~= a + daily_plan(y));
    lemma_date_in_year(d.days, d.year, d.month, d.day);
    let k = d.days - days_before_year(y) - 1;
    let j = a.len() + k;
    lemma_daily_key(y, k);
    lemma_civil_view(d);
    assert(plan[j] == (EnginePageKind::Daily, d.days));
    assert forall|i: int| j < i < plan.len() implies plan_key(#[trigger] plan[i]) != plan_key(plan[j]) by {
        let k2 = i - a.len();
        assert(plan[i] == (EnginePageKind::Daily, days_before_year(y) + 1 + k2));
        lemma_daily_key(y, k2);
    }
    lemma_map_of_plan_last(plan, j);
}

/// The planner holds no daily page other than those for the days of its year.
pub proof fn law_planner_daily_keys(config: PdfConfigPlanner, k: int)
    requires
        year_in_range(config.year as int),
        map_of_plan(planner_plan(config)).dom().contains((EnginePageKind::Daily, k)),
    ensures
        config.daily.enabled,
        0 <= k < year_length(config.year as int),
{
    let y = config.year as int;
    let plan = planner_plan(config);
    let a = (if config.monthly.enabled { monthly_plan(y) } else { Seq::empty() })
        + (if config.weekly.enabled { weekly_plan(y) } else { Seq::empty() });
    let b = if config.daily.enabled { daily_plan(y) } else { Seq::empty() };
    assert(plan =~= a + b);
    lemma_map_of_plan_dom(plan, (EnginePageKind::Daily, k));
    let j = choose|j: int| 0 <= j < plan.len() && plan_key(#[trigger] plan[j]) == (EnginePageKind::Daily, k);
    if j < a.len() {
        assert(plan[j] == a[j]);
        assert(plan[j].0 != EnginePageKind::Daily);
    } else {
        let k2 = j - a.len();
        assert(plan[j] == b[k2]);
        lemma_daily_key(y, k2);
    }
}

/// The planner holds a monthly page for every month of its year, dated the first of that
/// month, when monthly pages are enabled.
pub proof fn law_planner_monthly_page(config: PdfConfigPlanner, month: int)
    requires
        year_in_range(config.year as int),
        config.monthly.enabled,
        1 <= month <= 12,
    ensures
        map_of_plan(planner_plan(config)).dom().contains((EnginePageKind::Monthly, month - 1)),
        map_of_plan(planner_plan(config))[(EnginePageKind::Monthly, month - 1)].date.days == days_from_civil(config.year as int, month, 1),
        map_of_plan(planner_plan(config))[(EnginePageKind::Monthly, month - 1)].date.month == month,
        map_of_plan(planner_plan(config))[(EnginePageKind::Monthly, month - 1)].date.day == 1,
{
    let y = config.year as int;
    let plan = planner_plan(config);
    let b = (if config.weekly.enabled { weekly_plan(y) } else { Seq::empty() })
        + (if config.daily.enabled { daily_plan(y) } else { Seq::empty() });
    assert(plan =~= monthly_plan(y) + b);
    let j = month - 1;
    assert forall|i: int| 0 <= i < 12 implies #[trigger] civil_view(days_from_civil(y, i + 1, 1)) == (DateView { days: days_from_civil(y, i + 1, 1), year: y, month: i + 1, day: 1 }) by {
        let v = DateView { days: days_from_civil(y, i + 1, 1), year: y, month: i + 1, day: 1 };
        lemma_date_range(v.days, y, i + 1, 1);
        lemma_civil_view(v);
    }
    assert(plan[j] == (EnginePageKind::Monthly, days_from_civil(y, month, 1)));
    assert(civil_view(days_from_civil(y, j + 1, 1)).month == month);
    assert forall|i: int| j < i < plan.len() implies plan_key(#[trigger] plan[i]) != plan_key(plan[j]) by {
        if i < 12 {
            assert(plan[i] == (EnginePageKind::Monthly, days_from_civil(y, i + 1, 1)));
            assert(civil_view(days_from_civil(y, i + 1, 1)).month == i + 1);
        } else {
            assert(plan[i] == b[i - 12]);
        }
    }
    lemma_map_of_plan_last(plan, j);
}

/// Every page built from a plan has an id below the plan's length, and pages under
/// different keys have different ids.
proof fn lemma_map_of_plan_ids(plan: Seq<(EnginePageKind, int)>)
    ensures
        forall|k| #[trigger] map_of_plan(plan).dom().contains(k) ==> 0 <= map_of_plan(plan)[k].id < plan.len(),
        forall|k1, k2|
            #[trigger] map_of_plan(plan).dom().contains(k1) && #[trigger] map_of_plan(plan).dom().contains(k2)
                && k1 != k2 ==> map_of_plan(plan)[k1].id != map_of_plan(plan)[k2].id,
    decreases plan.len(),
{
    if plan.len() > 0 {
        lemma_map_of_plan_ids(plan.drop_last());
    }
}

/// The pages of a planner have distinct ids: every page keeps the id it was added with,
/// and no two pages were added as the same one.
pub proof fn law_planner_page_ids_distinct(config: PdfConfigPlanner, k1: (EnginePageKind, int), k2: (EnginePageKind, int))
    requires
        map_of_plan(planner_plan(config)).dom().contains(k1),
        map_of_plan(planner_plan(config)).dom().contains(k2),
        k1 != k2,
    ensures
        map_of_plan(planner_plan(config))[k1].id != map_of_plan(planner_plan(config))[k2].id,
        0 <= map_of_plan(planner_plan(config))[k1].id < planner_plan(config).len(),
{
    lemma_map_of_plan_ids(planner_plan(config));
}

/// Every planned page of a supported year is a supported day.
proof fn lemma_plan_days_in_range(config: PdfConfigPlanner, j: int)
    requires
        year_in_range(config.year as int),
        0 <= j < planner_plan(config).len(),
    ensures
        days_in_range(planner_plan(config)[j].1),
{
    let y = config.year as int;
    let plan = planner_plan(config);
    let a = if config.monthly.enabled { monthly_plan(y) } else { Seq::empty() };
    let b = if config.weekly.enabled { weekly_plan(y) } else { Seq::empty() };
    let c = if config.daily.enabled { daily_plan(y) } else { Seq::empty() };
    assert(plan =~= a + b + c);
    if j < a.len() {
        assert(plan[j] == a[j]);
        lemma_date_range(days_from_civil(y, j + 1, 1), y, j + 1, 1);
    } else if j < a.len() + b.len() {
        let k = j - a.len();
        assert(plan[j] == b[k]);
        lemma_daily_key(y, 7 * k);
    } else {
        let k = j - a.len() - b.len();
        assert(plan[j] == c[k]);
        lemma_daily_key(y, k);
    }
}

/// Every page of a planner for a supported year enters the document.
pub proof fn law_planner_pages_enter_document(config: PdfConfigPlanner, k: (EnginePageKind, int))
    requires
        year_in_range(config.year as int),
        map_of_plan(planner_plan(config)).dom().contains(k),
    ensures
        document_order(map_of_plan(planner_plan(config))).contains(map_of_plan(planner_plan(config))[k]),
{
    let plan = planner_plan(config);
    lemma_map_of_plan_dom(plan, k);
    let j = choose|j: int| 0 <= j < plan.len() && plan_key(#[trigger] plan[j]) == k;
    lemma_plan_days_in_range(config, j);
    lemma_civil_view_wf(plan[j].1);
    lemma_page_index_bounds(plan[j].0, civil_view(plan[j].1));
    law_document_holds_page(map_of_plan(plan), k.0, k.1);
}

/// The planner holds a weekly page at every position below the number of weeks of its
/// year, dated seven days per position after January 1, when weekly pages are enabled.
pub proof fn law_planner_weekly_page(config: PdfConfigPlanner, k: int)
    requires
        year_in_range(config.year as int),
        config.weekly.enabled,
        0 <= k < weekly_count(config.year as int),
    ensures
        map_of_plan(planner_plan(config)).dom().contains((EnginePageKind::Weekly, k)),
        map_of_plan(planner_plan(config))[(EnginePageKind::Weekly, k)].kind == EnginePageKind::Weekly,
        map_of_plan(planner_plan(config))[(EnginePageKind::Weekly, k)].date.wf(),
        map_of_plan(planner_plan(config))[(EnginePageKind::Weekly, k)].date.year == config.year,
        map_of_plan(planner_plan(config))[(EnginePageKind::Weekly, k)].date.days == days_before_year(config.year as int) + 1 + 7 * k,
{
    let y = config.year as int;
    let plan = planner_plan(config);
    let a = if config.monthly.enabled { monthly_plan(y) } else { Seq::empty() };
    let b = weekly_plan(y);
    let c = if config.daily.enabled { daily_plan(y) } else { Seq::empty() };
    assert(plan =~= a + b + c);
    let j = a.len() + k;
    lemma_weekly_key(y, k);
    assert(plan[j] == (EnginePageKind::Weekly, days_before_year(y) + 1 + 7 * k));
    assert forall|i: int| j < i < plan.len() implies plan_key(#[trigger] plan[i]) != plan_key(plan[j]) by {
        if i < a.len() + b.len() {
            let k2 = i - a.len();
            assert(plan[i] == (EnginePageKind::Weekly, days_before_year(y) + 1 + 7 * k2));
            lemma_weekly_key(y, k2);
        } else {
            assert(plan[i] == c[i - a.len() - b.len()]);
        }
    }
    lemma_map_of_plan_last(plan, j);
}

/// The planner holds no weekly page other than those at the positions below the number of
/// weeks of its year.
pub proof fn law_planner_weekly_keys(config: PdfConfigPlanner, k: int)
    requires
        year_in_range(config.year as int),
        map_of_plan(planner_plan(config)).dom().contains((EnginePageKind::Weekly, k)),
    ensures
        config.weekly.enabled,
        0 <= k < weekly_count(config.year as int),
{
    let y = config.year as int;
    let plan = planner_plan(config);
    let a = if config.monthly.enabled { monthly_plan(y) } else { Seq::empty() };
    let b = if config.weekly.enabled { weekly_plan(y) } else { Seq::empty() };
    let c = if config.daily.enabled { daily_plan(y) } else { Seq::empty() };
    assert(plan =~= a + b + c);
    lemma_map_of_plan_dom(plan, (EnginePageKind::Weekly, k));
    let j = choose|j: int| 0 <= j < plan.len() && plan_key(#[trigger] plan[j]) == (EnginePageKind::Weekly, k);
    if j < a.len() {
        assert(plan[j] == a[j]);
    } else if j < a.len() + b.len() {
        let k2 = j - a.len();
        assert(plan[j] == b[k2]);
        lemma_weekly_key(y, k2);
    } else {
        assert(plan[j] == c[j - a.len() - b.len()]);
    }
}

/// The weekly pages of a planner, in order of position, are one for every seventh day from
/// January 1 within its year, in date order, when weekly pages are enabled, and none
/// otherwise.
pub proof fn law_planner_weekly_pages(config: PdfConfigPlanner)
    requires
        year_in_range(config.year as int),
    ensures
        present_pages(map_of_plan(planner_plan(config)), EnginePageKind::Weekly, 53).len()
            == (if config.weekly.enabled { weekly_count(config.year as int) } else { 0 }),
        forall|k: int| 0 <= k < present_pages(map_of_plan(planner_plan(config)), EnginePageKind::Weekly, 53).len()
            ==> (#[trigger] present_pages(map_of_plan(planner_plan(config)), EnginePageKind::Weekly, 53)[k]).kind == EnginePageKind::Weekly
            && present_pages(map_of_plan(planner_plan(config)), EnginePageKind::Weekly, 53)[k].date.days
                == days_before_year(config.year as int) + 1 + 7 * k,
{
    let y = config.year as int;
    let m = map_of_plan(planner_plan(config));
    let c = if config.weekly.enabled { weekly_count(y) } else { 0 };
    assert(c <= 53);
    assert forall|i: int| 0 <= i < 53 implies (#[trigger] m.dom().contains((EnginePageKind::Weekly, i)) <==> i < c) by {
        if m.dom().contains((EnginePageKind::Weekly, i)) {
            law_planner_weekly_keys(config, i);
        }
        if i < c {
            law_planner_weekly_page(config, i);
        }
    }
    lemma_present_prefix(m, EnginePageKind::Weekly, 53, c);
    assert forall|k: int| 0 <= k < c implies (#[trigger] present_pages(m, EnginePageKind::Weekly, 53)[k]).kind == EnginePageKind::Weekly
        && present_pages(m, EnginePageKind::Weekly, 53)[k].date.days == days_before_year(y) + 1 + 7 * k by {
        law_planner_weekly_page(config, k);
    }
}

} // verus!
