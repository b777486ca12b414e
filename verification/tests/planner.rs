use makepdf::date::PdfDate;
use makepdf::engine::{resolve_link, Engine, EngineDoc, EngineHooks, FontError, HookRun, LinkTarget};
use makepdf::object::PdfObjectType;
use makepdf::pages::{EnginePageKey, EnginePageKind, EnginePages};
use makepdf::planner::{
    PdfConfigDailyPlanner, PdfConfigMonthlyPlanner, PdfConfigPlanner, PlannerError,
    WeeklyPlannerPdfConfig,
};
use makepdf::queue::{sort_by_depth, PageObjects};
use makepdf::style::{PdfLink, PdfLinkKind};

fn planner(year: i32, monthly: bool, weekly: bool, daily: bool) -> PdfConfigPlanner {
    PdfConfigPlanner {
        year,
        monthly: PdfConfigMonthlyPlanner { enabled: monthly },
        weekly: WeeklyPlannerPdfConfig { enabled: weekly },
        daily: PdfConfigDailyPlanner { enabled: daily },
    }
}

fn ymd(year: i32, month: u32, day: u32) -> PdfDate {
    PdfDate::from_ymd(year, month, day).unwrap()
}

#[test]
fn planner_pages_for_a_leap_year() {
    let pages = EnginePages::for_planner(&planner(2024, true, true, true)).unwrap();
    assert_eq!(pages.iter_monthly_pages().len(), 12);
    // One weekly page every seven days from January 1, in date order.
    let weeks = pages.iter_weekly_pages();
    assert_eq!(weeks.len(), 53);
    assert_eq!(weeks[0].date, ymd(2024, 1, 1));
    assert_eq!(weeks[0].id, 12);
    assert_eq!(weeks[1].date, ymd(2024, 1, 8));
    assert_eq!(weeks[1].id, 13);
    assert_eq!(weeks[52].date, ymd(2024, 12, 30));
    assert_eq!(weeks[52].id, 12 + 52);
    for pair in weeks.windows(2) {
        assert!(pair[0].date.is_before(&pair[1].date));
    }
    assert_eq!(pages.iter_daily_pages().len(), 366);
    assert_eq!(pages.keys().len(), 12 + 53 + 366);

    let jan = pages.get_page(EnginePageKey::from_kind_index(EnginePageKind::Monthly, 0)).unwrap();
    assert_eq!(jan.date, ymd(2024, 1, 1));
    assert_eq!(jan.id, 0);
    let dec = pages.get_page(EnginePageKey::from_kind_index(EnginePageKind::Monthly, 11)).unwrap();
    assert_eq!(dec.date, ymd(2024, 12, 1));
    let day = pages.get_page_by_date(EnginePageKind::Daily, ymd(2024, 9, 14)).unwrap();
    assert_eq!(day.date, ymd(2024, 9, 14));
    assert_eq!(day.kind, EnginePageKind::Daily);
    assert_eq!(day.id, 12 + 53 + 257);
}

#[test]
fn planner_pages_for_a_common_year_with_kinds_disabled() {
    let pages = EnginePages::for_planner(&planner(2023, false, true, false)).unwrap();
    assert_eq!(pages.iter_monthly_pages().len(), 0);
    assert_eq!(pages.iter_daily_pages().len(), 0);
    // January 1 to December 31 of a common year span 53 runs of seven days.
    let weeks = pages.iter_weekly_pages();
    assert_eq!(weeks.len(), 53);
    assert_eq!(weeks[0].date, ymd(2023, 1, 1));
    assert_eq!(weeks[0].id, 0);
    assert_eq!(weeks[1].date, ymd(2023, 1, 8));
    assert_eq!(weeks[52].date, ymd(2023, 12, 31));
    assert_eq!(weeks[52].id, 52);

    let pages = EnginePages::for_planner(&planner(2023, false, false, true)).unwrap();
    assert_eq!(pages.iter_daily_pages().len(), 365);
}

#[test]
fn planner_pages_refuse_an_unsupported_year() {
    let err = EnginePages::for_planner(&planner(300_000, true, true, true)).unwrap_err();
    assert_eq!(err, PlannerError::BeginningOfYear(300_000));
}

#[test]
fn pages_insert_replaces_by_key_and_add_gives_fresh_ids() {
    let mut pages = EnginePages::new();
    let k1 = pages.add_daily_page(ymd(2024, 9, 14));
    let k2 = pages.add_daily_page(ymd(2024, 9, 15));
    assert_ne!(k1, k2);
    assert_eq!(pages.get_page(k1).unwrap().id, 0);
    assert_eq!(pages.get_page(k2).unwrap().id, 1);
    let k3 = pages.add_daily_page(ymd(2024, 9, 14));
    assert_eq!(k3, k1);
    assert_eq!(pages.get_page(k1).unwrap().id, 2);
    assert_eq!(pages.keys().len(), 2);
    assert_eq!(k1.kind(), EnginePageKind::Daily);
    assert!(pages.get_page_by_date(EnginePageKind::Monthly, ymd(2024, 9, 1)).is_none());
}

#[test]
fn pages_enter_the_document_months_then_weeks_then_days() {
    let pages = EnginePages::for_planner(&planner(2024, true, true, true)).unwrap();
    let order = pages.pages_in_document_order();
    assert_eq!(order.len(), 12 + 53 + 366);
    assert_eq!(order[0].kind, EnginePageKind::Monthly);
    assert_eq!(order[11].date, ymd(2024, 12, 1));
    assert_eq!(order[12].kind, EnginePageKind::Weekly);
    assert_eq!(order[12].date, ymd(2024, 1, 1));
    assert_eq!(order[12 + 52].date, ymd(2024, 12, 30));
    assert_eq!(order[12 + 53].kind, EnginePageKind::Daily);
    assert_eq!(order[12 + 53].date, ymd(2024, 1, 1));

    let slots = pages.page_slots();
    assert_eq!(slots.len(), order.len());
    assert_eq!(slots[0].title, "January 2024");
    assert_eq!(slots[0].id, order[0].id);
    assert_eq!(slots[12].title, "Week 01 2024");
    assert_eq!(slots[13].title, "Week 02 2024");
    assert_eq!(slots[12 + 52].title, "Week 01 2024");
    assert_eq!(slots[12 + 53 + 257].title, "14-Sep-2024 (Saturday)");
}

#[test]
fn links_resolve_to_the_last_page_with_the_id() {
    let ids: Vec<u64> = vec![7, 3, 9, 3];
    match resolve_link(&PdfLink::GoTo { page: 9 }, &ids) {
        Some(LinkTarget::Page(i)) => assert_eq!(i, 2),
        other => panic!("unexpected {other:?}"),
    }
    match resolve_link(&PdfLink::GoTo { page: 3 }, &ids) {
        Some(LinkTarget::Page(i)) => assert_eq!(i, 3),
        other => panic!("unexpected {other:?}"),
    }
    assert!(resolve_link(&PdfLink::GoTo { page: 4 }, &ids).is_none());
    match resolve_link(&PdfLink::Uri { uri: "https://example.com".to_string() }, &ids) {
        Some(LinkTarget::Uri(u)) => assert_eq!(u, "https://example.com"),
        other => panic!("unexpected {other:?}"),
    }
}

#[test]
fn hook_run_visits_pages_present_at_start_and_skips_removed_ones() {
    let mut pages = EnginePages::new();
    pages.add_monthly_page(ymd(2024, 1, 1));
    pages.add_monthly_page(ymd(2024, 2, 1));
    let mut run = HookRun::new(&pages);
    let first = run.next_page(&pages).unwrap();
    // A page added during the run is not visited.
    pages.add_monthly_page(ymd(2024, 3, 1));
    let second = run.next_page(&pages).unwrap();
    assert_ne!(first.id, second.id);
    assert!(run.next_page(&pages).is_none());
    assert!(run.next_page(&pages).is_none());

    let empty = EnginePages::new();
    let mut run = HookRun::new(&empty);
    assert!(run.next_page(&empty).is_none());
}

#[test]
fn objects_draw_by_depth_then_push_order() {
    let mut objects = PageObjects::new();
    objects.push(2, "c");
    objects.push(0, "a");
    objects.push(2, "d");
    objects.push(1, "b");
    objects.push(0, "a2");
    let order: Vec<&str> = objects.into_entries().into_iter().map(|(_, o)| o).collect();
    assert_eq!(order, vec!["a", "a2", "b", "c", "d"]);

    let sorted = sort_by_depth(vec![(5, 'x'), (-1, 'y'), (5, 'z'), (0, 'w')]);
    assert_eq!(sorted, vec![(-1, 'y'), (0, 'w'), (5, 'x'), (5, 'z')]);
}

#[test]
fn engine_saves_a_document_under_its_name() {
    let doc = EngineDoc::new("planner");
    let saved = Engine(doc).save("planner.pdf".to_string()).unwrap();
    assert_eq!(saved.filename, "planner.pdf");
    assert!(saved.bytes.starts_with(b"%PDF"));
    let engine = Engine::new(5u8);
    assert_eq!(engine.0, 5);
}

#[test]
fn hooks_are_kept_by_kind_in_registration_order() {
    let mut hooks: EngineHooks<&str> = EngineHooks::new();
    assert!(hooks.hooks_for(EnginePageKind::Daily).is_empty());
    hooks.register_on_daily_page("first daily");
    hooks.register_on_weekly_page("weekly");
    hooks.register_on_daily_page("second daily");
    hooks.register_on_monthly_page("monthly");
    hooks.register(EnginePageKind::Weekly, "another weekly");
    assert_eq!(hooks.hooks_for(EnginePageKind::Daily), &vec!["first daily", "second daily"]);
    assert_eq!(hooks.hooks_for(EnginePageKind::Weekly), &vec!["weekly", "another weekly"]);
    assert_eq!(hooks.hooks_for(EnginePageKind::Monthly), &vec!["monthly"]);
}

#[test]
fn planner_pages_have_distinct_ids_and_all_enter_the_document() {
    let pages = EnginePages::for_planner(&planner(2024, true, true, true)).unwrap();
    let mut ids: Vec<u64> = pages.pages().iter().map(|p| p.id).collect();
    let count = ids.len();
    ids.sort();
    ids.dedup();
    assert_eq!(ids.len(), count);
    let mut slot_ids: Vec<u64> = pages.page_slots().iter().map(|s| s.id).collect();
    slot_ids.sort();
    assert_eq!(slot_ids, ids);
}

#[test]
fn queue_and_sort_agree_on_the_drawing_order() {
    let pushed = vec![(3i64, 'a'), (1, 'b'), (3, 'c'), (-2, 'd'), (1, 'e'), (0, 'f')];
    let mut objects = PageObjects::new();
    for (depth, obj) in pushed.clone() {
        objects.push(depth, obj);
    }
    assert_eq!(objects.entries(), &sort_by_depth(pushed));
}

#[test]
fn weekly_keys_count_runs_of_seven_days_from_january_first() {
    let key = |y, m, d| EnginePageKey::from_kind_date(EnginePageKind::Weekly, ymd(y, m, d));
    assert_eq!(key(2024, 1, 1), EnginePageKey(EnginePageKind::Weekly, 0));
    assert_eq!(key(2024, 1, 7), EnginePageKey(EnginePageKind::Weekly, 0));
    assert_eq!(key(2024, 1, 8), EnginePageKey(EnginePageKind::Weekly, 1));
    assert_eq!(key(2024, 12, 30), EnginePageKey(EnginePageKind::Weekly, 52));
    assert_eq!(key(2023, 12, 31), EnginePageKey(EnginePageKind::Weekly, 52));
    assert_ne!(key(2024, 12, 30), key(2024, 1, 1));
}

#[test]
fn saving_always_succeeds_with_pdf_bytes_under_the_name() {
    let saved = EngineDoc::new("").save("empty.pdf".to_string()).unwrap();
    assert_eq!(saved.filename, "empty.pdf");
    assert_eq!(&saved.bytes[..5], b"%PDF-");
}

#[test]
fn loading_a_font_refuses_bytes_that_are_no_face() {
    let doc = EngineDoc::new("fonts");
    assert!(matches!(doc.load_font(Vec::new()), Err(FontError::Face)));
    assert!(matches!(doc.load_font(b"not a font at all".to_vec()), Err(FontError::Face)));
}

#[test]
fn object_and_link_kinds_are_read_from_their_names() {
    assert_eq!(PdfObjectType::from_type_str("rect"), Some(PdfObjectType::Rect));
    assert_eq!(PdfObjectType::from_type_str("text"), Some(PdfObjectType::Text));
    assert_eq!(PdfObjectType::from_type_str("circle"), Some(PdfObjectType::Circle));
    assert_eq!(PdfObjectType::from_type_str("polygon"), None);
    assert_eq!(PdfObjectType::Shape.to_type_str(), "shape");
    assert_eq!(PdfLinkKind::from_name("goto"), Some(PdfLinkKind::GoTo));
    assert_eq!(PdfLinkKind::from_name("uri"), Some(PdfLinkKind::Uri));
    assert_eq!(PdfLinkKind::from_name("url"), None);
}
