use makepdf::cli::{default_output_name, file_log_level, terminal_log_level, LogLevel};
use makepdf::size::{split_size, SizeError, SizeUnit, UnitsText};

fn parts(s: &str) -> (String, String, UnitsText) {
    let t = split_size(s).unwrap().unwrap();
    (t.width, t.height, t.units)
}

#[test]
fn size_text_splits_into_width_height_and_units() {
    assert_eq!(
        parts("1404x1872px"),
        ("1404".to_string(), "1872".to_string(), UnitsText::Known(SizeUnit::Pixels))
    );
    assert_eq!(parts("4X6IN"), ("4".to_string(), "6".to_string(), UnitsText::Known(SizeUnit::Inches)));
    assert_eq!(
        parts(" 100 x 150 mm"),
        ("100".to_string(), "150".to_string(), UnitsText::Known(SizeUnit::Millimeters))
    );
    assert_eq!(parts("10x20 m"), ("10".to_string(), "20".to_string(), UnitsText::Unknown));
    assert_eq!(parts("10x20"), ("10".to_string(), "".to_string(), UnitsText::Unknown));
    assert_eq!(parts("1x2  "), ("1".to_string(), "2".to_string(), UnitsText::Missing));
    assert_eq!(parts("10x20é"), ("10".to_string(), "20".to_string(), UnitsText::Unknown));
}

#[test]
fn size_text_errors() {
    assert_eq!(split_size("x").unwrap().unwrap_err(), SizeError::MissingUnits);
    assert_eq!(split_size("").unwrap().unwrap_err(), SizeError::MissingUnits);
    assert_eq!(split_size("1404px").unwrap().unwrap_err(), SizeError::MissingSeparator);
    // The last two bytes fall inside a three-byte character.
    assert!(split_size("10x20€").is_none());
    // The Kelvin sign lowercases to a single byte.
    assert!(split_size("\u{212a}").is_none());
}

#[test]
fn log_levels_follow_quiet_and_verbose() {
    assert_eq!(terminal_log_level(true, 3), LogLevel::Off);
    assert_eq!(terminal_log_level(false, 0), LogLevel::Warn);
    assert_eq!(terminal_log_level(false, 1), LogLevel::Info);
    assert_eq!(terminal_log_level(false, 2), LogLevel::Debug);
    assert_eq!(terminal_log_level(false, 3), LogLevel::Trace);
    assert_eq!(terminal_log_level(false, 200), LogLevel::Trace);
    assert_eq!(file_log_level(0), LogLevel::Info);
    assert_eq!(file_log_level(1), LogLevel::Info);
    assert_eq!(file_log_level(2), LogLevel::Debug);
    assert_eq!(file_log_level(3), LogLevel::Trace);
}

#[test]
fn output_names_replace_what_is_not_alphanumeric() {
    assert_eq!(default_output_name("My Planner 2024!"), "My_Planner_2024_.pdf");
    assert_eq!(default_output_name("MakePDF 2024-09-14"), "MakePDF_2024_09_14.pdf");
    assert_eq!(default_output_name("Été"), "Été.pdf");
    assert_eq!(default_output_name(""), ".pdf");
}
