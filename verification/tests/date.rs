use makepdf::date::PdfDate;
use makepdf::weekday::PdfDateWeekday;

fn ymd(year: i32, month: u32, day: u32) -> PdfDate {
    PdfDate::from_ymd(year, month, day).unwrap()
}

#[test]
fn should_be_able_to_format_in_lua() {
    let date = ymd(2024, 9, 14);
    assert_eq!(date.format("%B").unwrap(), "September");
}

#[test]
fn should_be_able_to_add_days_in_lua() {
    let date = ymd(2024, 9, 14);
    assert_eq!(date.add_days(1).unwrap(), ymd(2024, 9, 15));
    assert_eq!(date.add_days(-1).unwrap(), ymd(2024, 9, 13));
    assert_eq!(date.add_days(16).unwrap(), ymd(2024, 9, 30));
    assert_eq!(date.add_days(-13).unwrap(), ymd(2024, 9, 1));
    assert_eq!(date.add_days(17).unwrap(), ymd(2024, 10, 1));
    assert_eq!(date.add_days(-14).unwrap(), ymd(2024, 8, 31));
}

#[test]
fn should_be_able_to_add_weeks_in_lua() {
    assert_eq!(ymd(2024, 9, 14).add_weeks(1).unwrap(), ymd(2024, 9, 21));
    assert_eq!(ymd(2024, 9, 14).add_weeks(-1).unwrap(), ymd(2024, 9, 7));
    assert_eq!(ymd(2024, 10, 25).add_weeks(1).unwrap(), ymd(2024, 11, 1));
    assert_eq!(ymd(2024, 10, 7).add_weeks(-1).unwrap(), ymd(2024, 9, 30));
    assert_eq!(ymd(2024, 12, 25).add_weeks(1).unwrap(), ymd(2025, 1, 1));
    assert_eq!(ymd(2024, 1, 7).add_weeks(-1).unwrap(), ymd(2023, 12, 31));
}

#[test]
fn should_be_able_to_get_next_week_in_lua() {
    assert_eq!(ymd(2024, 9, 14).next_week().unwrap(), ymd(2024, 9, 21));
    assert_eq!(ymd(2024, 10, 25).next_week().unwrap(), ymd(2024, 11, 1));
    assert_eq!(ymd(2024, 12, 25).next_week().unwrap(), ymd(2025, 1, 1));
}

#[test]
fn should_be_able_to_get_last_week_in_lua() {
    assert_eq!(ymd(2024, 9, 14).last_week().unwrap(), ymd(2024, 9, 7));
    assert_eq!(ymd(2024, 10, 7).last_week().unwrap(), ymd(2024, 9, 30));
    assert_eq!(ymd(2024, 1, 7).last_week().unwrap(), ymd(2023, 12, 31));
}

#[test]
fn should_be_able_to_add_months_in_lua() {
    assert_eq!(ymd(2024, 9, 14).add_months(1).unwrap(), ymd(2024, 10, 14));
    assert_eq!(ymd(2024, 9, 14).add_months(-1).unwrap(), ymd(2024, 8, 14));
    assert_eq!(ymd(2024, 10, 31).add_months(1).unwrap(), ymd(2024, 11, 30));
    assert_eq!(ymd(2024, 10, 31).add_months(-1).unwrap(), ymd(2024, 9, 30));
    assert_eq!(ymd(2024, 12, 18).add_months(1).unwrap(), ymd(2025, 1, 18));
    assert_eq!(ymd(2024, 1, 18).add_months(-1).unwrap(), ymd(2023, 12, 18));
}

#[test]
fn should_be_able_to_get_next_month_in_lua() {
    assert_eq!(ymd(2024, 9, 14).next_month().unwrap(), ymd(2024, 10, 14));
    assert_eq!(ymd(2024, 10, 31).next_month().unwrap(), ymd(2024, 11, 30));
    assert_eq!(ymd(2024, 12, 18).next_month().unwrap(), ymd(2025, 1, 18));
}

#[test]
fn should_be_able_to_get_last_month_in_lua() {
    assert_eq!(ymd(2024, 9, 14).last_month().unwrap(), ymd(2024, 8, 14));
    assert_eq!(ymd(2024, 10, 31).last_month().unwrap(), ymd(2024, 9, 30));
    assert_eq!(ymd(2024, 1, 18).last_month().unwrap(), ymd(2023, 12, 18));
}

#[test]
fn should_be_able_to_get_tomorrow_in_lua() {
    assert_eq!(ymd(2024, 9, 14).tomorrow().unwrap(), ymd(2024, 9, 15));
    assert_eq!(ymd(2024, 9, 30).tomorrow().unwrap(), ymd(2024, 10, 1));
    assert_eq!(ymd(2024, 12, 31).tomorrow().unwrap(), ymd(2025, 1, 1));
}

#[test]
fn should_be_able_to_get_yesterday_in_lua() {
    assert_eq!(ymd(2024, 9, 14).yesterday().unwrap(), ymd(2024, 9, 13));
    assert_eq!(ymd(2024, 10, 1).yesterday().unwrap(), ymd(2024, 9, 30));
    assert_eq!(ymd(2024, 1, 1).yesterday().unwrap(), ymd(2023, 12, 31));
}

#[test]
fn should_be_able_to_get_beginning_of_year_in_lua() {
    assert_eq!(ymd(2024, 9, 14).into_beginning_of_year(), ymd(2024, 1, 1));
    assert_eq!(ymd(2024, 1, 1).into_beginning_of_year(), ymd(2024, 1, 1));
    assert_eq!(ymd(2024, 12, 31).into_beginning_of_year(), ymd(2024, 1, 1));
}

#[test]
fn should_be_able_to_get_end_of_year_in_lua() {
    assert_eq!(ymd(2024, 9, 14).into_end_of_year(), ymd(2024, 12, 31));
    assert_eq!(ymd(2024, 1, 1).into_end_of_year(), ymd(2024, 12, 31));
    assert_eq!(ymd(2024, 12, 31).into_end_of_year(), ymd(2024, 12, 31));
}

#[test]
fn should_be_able_to_get_beginning_of_month_in_lua() {
    assert_eq!(ymd(2024, 9, 14).into_beginning_of_month(), ymd(2024, 9, 1));
    assert_eq!(ymd(2024, 9, 1).into_beginning_of_month(), ymd(2024, 9, 1));
    assert_eq!(ymd(2024, 9, 30).into_beginning_of_month(), ymd(2024, 9, 1));
    assert_eq!(ymd(2024, 1, 1).into_beginning_of_month(), ymd(2024, 1, 1));
    assert_eq!(ymd(2024, 12, 31).into_beginning_of_month(), ymd(2024, 12, 1));
}

#[test]
fn should_be_able_to_get_end_of_month_in_lua() {
    assert_eq!(ymd(2024, 9, 14).into_end_of_month(), ymd(2024, 9, 30));
    assert_eq!(ymd(2024, 9, 1).into_end_of_month(), ymd(2024, 9, 30));
    assert_eq!(ymd(2024, 9, 30).into_end_of_month(), ymd(2024, 9, 30));
    assert_eq!(ymd(2024, 1, 1).into_end_of_month(), ymd(2024, 1, 31));
    assert_eq!(ymd(2024, 12, 31).into_end_of_month(), ymd(2024, 12, 31));
}

#[test]
fn should_be_able_to_get_beginning_of_week_sunday_in_lua() {
    assert_eq!(ymd(2024, 9, 8).into_beginning_of_week_sunday(), ymd(2024, 9, 8));
    assert_eq!(ymd(2024, 9, 9).into_beginning_of_week_sunday(), ymd(2024, 9, 8));
    assert_eq!(ymd(2024, 9, 10).into_beginning_of_week_sunday(), ymd(2024, 9, 8));
    assert_eq!(ymd(2024, 9, 14).into_beginning_of_week_sunday(), ymd(2024, 9, 8));
    assert_eq!(ymd(2024, 10, 1).into_beginning_of_week_sunday(), ymd(2024, 9, 29));
}

#[test]
fn should_be_able_to_get_end_of_week_sunday_in_lua() {
    assert_eq!(ymd(2024, 9, 8).into_end_of_week_sunday(), ymd(2024, 9, 14));
    assert_eq!(ymd(2024, 9, 9).into_end_of_week_sunday(), ymd(2024, 9, 14));
    assert_eq!(ymd(2024, 9, 10).into_end_of_week_sunday(), ymd(2024, 9, 14));
    assert_eq!(ymd(2024, 9, 14).into_end_of_week_sunday(), ymd(2024, 9, 14));
    assert_eq!(ymd(2024, 9, 30).into_end_of_week_sunday(), ymd(2024, 10, 5));
}

#[test]
fn should_be_able_to_get_beginning_of_week_monday_in_lua() {
    assert_eq!(ymd(2024, 9, 8).into_beginning_of_week_monday(), ymd(2024, 9, 2));
    assert_eq!(ymd(2024, 9, 9).into_beginning_of_week_monday(), ymd(2024, 9, 9));
    assert_eq!(ymd(2024, 9, 10).into_beginning_of_week_monday(), ymd(2024, 9, 9));
    assert_eq!(ymd(2024, 9, 14).into_beginning_of_week_monday(), ymd(2024, 9, 9));
    assert_eq!(ymd(2024, 10, 1).into_beginning_of_week_monday(), ymd(2024, 9, 30));
}

#[test]
fn should_be_able_to_get_end_of_week_monday_in_lua() {
    assert_eq!(ymd(2024, 9, 8).into_end_of_week_monday(), ymd(2024, 9, 8));
    assert_eq!(ymd(2024, 9, 9).into_end_of_week_monday(), ymd(2024, 9, 15));
    assert_eq!(ymd(2024, 9, 10).into_end_of_week_monday(), ymd(2024, 9, 15));
    assert_eq!(ymd(2024, 9, 14).into_end_of_week_monday(), ymd(2024, 9, 15));
    assert_eq!(ymd(2024, 9, 30).into_end_of_week_monday(), ymd(2024, 10, 6));
}

#[test]
fn date_should_be_able_to_convert_from_lua() {
    let date = ymd(2024, 9, 14);
    assert_eq!(PdfDate::parse("2024-09-14").unwrap(), date);
    let text: String = "2024-09-14".to_string();
    assert_eq!(text.parse::<PdfDate>().unwrap(), date);
}

#[test]
fn date_should_be_able_to_convert_into_lua() {
    let date = ymd(2024, 9, 14);
    assert_eq!(date.year(), 2024);
    assert_eq!(date.month(), 9);
    assert_eq!(date.day(), 14);
    assert_eq!(date.iso_week(), 37);
    assert_eq!(date.weekday(), PdfDateWeekday::Sat);
    assert_eq!(date.ordinal(), 258);
}

#[test]
fn date_to_string_and_parse_round_trip() {
    let date = ymd(2024, 9, 14);
    assert_eq!(date.to_string(), "2024-09-14");
    assert_eq!(PdfDate::parse(&date.to_string()).unwrap(), date);
    let far = ymd(12345, 1, 2);
    assert_eq!(PdfDate::parse(&far.to_string()).unwrap(), far);
    let old = ymd(-44, 3, 15);
    assert_eq!(PdfDate::parse(&old.to_string()).unwrap(), old);
    let first = PdfDate::beginning_of_year(-262143).unwrap();
    assert_eq!(PdfDate::parse(&first.to_string()).unwrap(), first);
    let last = PdfDate::end_of_year(262142).unwrap();
    assert_eq!(PdfDate::parse(&last.to_string()).unwrap(), last);
}

#[test]
fn date_rejects_invalid_dates_and_text() {
    assert!(PdfDate::from_ymd(2023, 2, 29).is_none());
    assert!(PdfDate::from_ymd(2024, 2, 29).is_some());
    assert!(PdfDate::from_ymd(2024, 13, 1).is_none());
    assert!(PdfDate::from_ymd(2024, 4, 31).is_none());
    assert!(PdfDate::from_ymd(1_000_000, 1, 1).is_none());
    assert!(PdfDate::parse("2024-02-30").is_err());
    assert!(PdfDate::parse("not a date").is_err());
}

#[test]
fn date_end_of_month_handles_leap_years() {
    assert_eq!(PdfDate::end_of_month(2024, 2).unwrap(), ymd(2024, 2, 29));
    assert_eq!(PdfDate::end_of_month(2023, 2).unwrap(), ymd(2023, 2, 28));
    assert_eq!(PdfDate::end_of_month(1900, 2).unwrap(), ymd(1900, 2, 28));
    assert_eq!(PdfDate::end_of_month(2000, 2).unwrap(), ymd(2000, 2, 29));
    assert!(PdfDate::end_of_month(2024, 0).is_none());
    assert_eq!(PdfDate::beginning_of_year(2024).unwrap(), ymd(2024, 1, 1));
    assert_eq!(PdfDate::end_of_year(2024).unwrap(), ymd(2024, 12, 31));
}

#[test]
fn date_add_months_from_leap_day() {
    assert_eq!(ymd(2024, 2, 29).add_months(12).unwrap(), ymd(2025, 2, 28));
    assert_eq!(ymd(2024, 1, 31).add_months(1).unwrap(), ymd(2024, 2, 29));
    assert_eq!(ymd(2024, 3, 31).add_months(-1).unwrap(), ymd(2024, 2, 29));
    assert_eq!(ymd(2024, 9, 14).add_months(0).unwrap(), ymd(2024, 9, 14));
}

#[test]
fn date_moves_out_of_range_give_none() {
    let last = PdfDate::end_of_year(262142).unwrap();
    assert!(last.tomorrow().is_none());
    assert!(last.next_month().is_none());
    assert!(last.add_days(i64::MAX).is_none());
    let first = PdfDate::beginning_of_year(-262143).unwrap();
    assert!(first.yesterday().is_none());
    assert!(first.add_weeks(-1).is_none());
    assert_eq!(first.add_days(0).unwrap(), first);
}

#[test]
fn date_adding_then_removing_days_returns_the_date() {
    let date = ymd(2024, 9, 14);
    for k in [-1000i64, -1, 0, 1, 365, 100_000] {
        assert_eq!(date.add_days(k).unwrap().add_days(-k).unwrap(), date);
    }
}

#[test]
fn date_day_numbers() {
    let date = ymd(1, 1, 1);
    assert_eq!(date.num_days_from_ce(), 1);
    assert_eq!(PdfDate::from_num_days_from_ce(1).unwrap(), date);
    assert_eq!(ymd(2024, 9, 14).ordinal0(), 257);
    assert_eq!(ymd(2024, 9, 14).month0(), 8);
    assert_eq!(ymd(2024, 9, 14).iso_week0(), 36);
    assert!(ymd(2024, 9, 13).is_before(&ymd(2024, 9, 14)));
    assert!(ymd(2024, 9, 14).is_on_or_before(&ymd(2024, 9, 14)));
    assert!(!ymd(2024, 9, 15).is_before(&ymd(2024, 9, 14)));
}

#[test]
fn date_next_day_has_next_weekday() {
    let mut date = ymd(2024, 9, 14);
    for _ in 0..10 {
        let next = date.tomorrow().unwrap();
        assert_eq!(next.weekday(), date.weekday().succ());
        date = next;
    }
}

fn is_leap(y: i32) -> bool {
    (y % 4 == 0 && y % 100 != 0) || y % 400 == 0
}

fn iso_weeks_in(y: i32) -> u32 {
    let first = PdfDate::beginning_of_year(y).map(|d| d.weekday().num_days_from_monday());
    let first = match first {
        Some(f) => f,
        // The year before the first supported one: its last day precedes January 1 of the next.
        None => (PdfDate::beginning_of_year(y + 1).unwrap().weekday().num_days_from_monday() + 7
            - if is_leap(y) { 366 % 7 } else { 365 % 7 })
            % 7,
    };
    if first == 3 || (is_leap(y) && first == 2) {
        53
    } else {
        52
    }
}

fn expected_iso_week(d: PdfDate) -> u32 {
    let w = (d.ordinal() as i64 - d.weekday().num_days_from_monday() as i64 + 9) / 7;
    if w < 1 {
        iso_weeks_in(d.year() - 1)
    } else if w as u32 > iso_weeks_in(d.year()) {
        1
    } else {
        w as u32
    }
}

#[test]
fn date_iso_weeks_follow_the_iso_rule() {
    assert_eq!(ymd(2024, 1, 1).iso_week(), 1);
    assert_eq!(ymd(2024, 12, 30).iso_week(), 1);
    assert_eq!(ymd(2023, 1, 1).iso_week(), 52);
    assert_eq!(ymd(2020, 12, 31).iso_week(), 53);
    assert_eq!(ymd(2021, 1, 3).iso_week(), 53);
    for y in (-2000..3000).chain(262100..262143).chain(-262143..-262100) {
        for (m, d) in [(1, 1), (1, 2), (1, 3), (1, 4), (1, 5), (1, 7), (6, 15), (12, 28), (12, 29), (12, 30), (12, 31)] {
            let date = ymd(y, m, d);
            assert_eq!(date.iso_week(), expected_iso_week(date), "{y}-{m}-{d}");
        }
    }
}

#[test]
fn date_moves_by_extreme_amounts_give_none() {
    let date = ymd(2024, 9, 14);
    assert!(date.add_days(i64::MIN).is_none());
    assert!(date.add_days(i64::MAX).is_none());
    assert!(date.add_weeks(i64::MIN).is_none());
    assert!(date.add_weeks(i64::MAX).is_none());
    assert!(date.add_weeks(i64::MAX / 7).is_none());
    assert!(date.add_months(i32::MIN).is_none());
    assert!(date.add_months(i32::MAX).is_none());
}
