use makepdf::weekday::PdfDateWeekday;

#[test]
fn should_be_able_to_retrieve_short_name_in_lua() {
    assert_eq!(PdfDateWeekday::monday().into_short_static_str(), "mon");
}

#[test]
fn should_be_able_to_retrieve_long_name_in_lua() {
    assert_eq!(PdfDateWeekday::monday().into_long_static_str(), "monday");
}

#[test]
fn should_be_able_to_get_next_weekday_in_lua() {
    assert_eq!(PdfDateWeekday::monday().succ(), PdfDateWeekday::tuesday());
    assert_eq!(PdfDateWeekday::saturday().succ(), PdfDateWeekday::sunday());
    assert_eq!(PdfDateWeekday::sunday().succ(), PdfDateWeekday::monday());
}

#[test]
fn should_be_able_to_get_previous_weekday_in_lua() {
    assert_eq!(PdfDateWeekday::monday().pred(), PdfDateWeekday::sunday());
    assert_eq!(PdfDateWeekday::saturday().pred(), PdfDateWeekday::friday());
    assert_eq!(PdfDateWeekday::sunday().pred(), PdfDateWeekday::saturday());
}

#[test]
fn should_be_able_to_get_number_from_monday_in_lua() {
    assert_eq!(PdfDateWeekday::monday().number_from_monday(), 1);
    assert_eq!(PdfDateWeekday::saturday().number_from_monday(), 6);
    assert_eq!(PdfDateWeekday::sunday().number_from_monday(), 7);
}

#[test]
fn should_be_able_to_get_number_from_sunday_in_lua() {
    assert_eq!(PdfDateWeekday::monday().number_from_sunday(), 2);
    assert_eq!(PdfDateWeekday::saturday().number_from_sunday(), 7);
    assert_eq!(PdfDateWeekday::sunday().number_from_sunday(), 1);
}

#[test]
fn should_be_able_to_get_num_days_from_monday_in_lua() {
    assert_eq!(PdfDateWeekday::monday().num_days_from_monday(), 0);
    assert_eq!(PdfDateWeekday::saturday().num_days_from_monday(), 5);
    assert_eq!(PdfDateWeekday::sunday().num_days_from_monday(), 6);
}

#[test]
fn should_be_able_to_get_num_days_from_sunday_in_lua() {
    assert_eq!(PdfDateWeekday::monday().num_days_from_sunday(), 1);
    assert_eq!(PdfDateWeekday::saturday().num_days_from_sunday(), 6);
    assert_eq!(PdfDateWeekday::sunday().num_days_from_sunday(), 0);
}

#[test]
fn should_be_able_to_get_days_since_weekday_in_lua() {
    let weekday = PdfDateWeekday::monday();
    assert_eq!(weekday.days_since(PdfDateWeekday::from_name("monday").unwrap()), 0);
    assert_eq!(weekday.days_since(PdfDateWeekday::from_name("tuesday").unwrap()), 6);
    assert_eq!(weekday.days_since(PdfDateWeekday::from_name("sunday").unwrap()), 1);
}

#[test]
fn weekday_should_be_able_to_convert_from_lua() {
    assert_eq!(PdfDateWeekday::from_name("monday"), Some(PdfDateWeekday::monday()));
    assert_eq!(PdfDateWeekday::from_name("tuesday"), Some(PdfDateWeekday::tuesday()));
    assert_eq!(PdfDateWeekday::from_name("wednesday"), Some(PdfDateWeekday::wednesday()));
    assert_eq!(PdfDateWeekday::from_name("thursday"), Some(PdfDateWeekday::thursday()));
    assert_eq!(PdfDateWeekday::from_name("friday"), Some(PdfDateWeekday::friday()));
    assert_eq!(PdfDateWeekday::from_name("saturday"), Some(PdfDateWeekday::saturday()));
    assert_eq!(PdfDateWeekday::from_name("sunday"), Some(PdfDateWeekday::sunday()));
    let text = PdfDateWeekday::monday().to_string();
    assert_eq!(text.parse::<PdfDateWeekday>().unwrap(), PdfDateWeekday::monday());
}

#[test]
fn weekday_should_be_able_to_convert_into_lua() {
    assert_eq!(PdfDateWeekday::monday().to_string(), "monday");
    assert_eq!(PdfDateWeekday::tuesday().to_string(), "tuesday");
    assert_eq!(PdfDateWeekday::wednesday().to_string(), "wednesday");
    assert_eq!(PdfDateWeekday::thursday().to_string(), "thursday");
    assert_eq!(PdfDateWeekday::friday().to_string(), "friday");
    assert_eq!(PdfDateWeekday::saturday().to_string(), "saturday");
    assert_eq!(PdfDateWeekday::sunday().to_string(), "sunday");
}

#[test]
fn weekday_names_ignore_case_and_reject_others() {
    assert_eq!(PdfDateWeekday::from_name("MON"), Some(PdfDateWeekday::monday()));
    assert_eq!(PdfDateWeekday::from_name("SunDay"), Some(PdfDateWeekday::sunday()));
    assert_eq!(PdfDateWeekday::from_name("thu"), Some(PdfDateWeekday::thursday()));
    assert_eq!(PdfDateWeekday::from_name("mond"), None);
    assert_eq!(PdfDateWeekday::from_name(""), None);
    assert_eq!(PdfDateWeekday::from_name(" monday"), None);
    assert!("funday".parse::<PdfDateWeekday>().is_err());
}

#[test]
fn weekday_names_round_trip_and_succ_pred_invert() {
    for i in 0..7u32 {
        let w = PdfDateWeekday::from_index(i);
        assert_eq!(PdfDateWeekday::from_name(w.into_short_static_str()), Some(w));
        assert_eq!(PdfDateWeekday::from_name(w.into_long_static_str()), Some(w));
        assert_eq!(w.succ().pred(), w);
        assert_eq!(w.pred().succ(), w);
        assert_eq!(w.num_days_from_monday(), i);
    }
}
