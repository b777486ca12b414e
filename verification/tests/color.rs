use makepdf::color::{parse_hex_color, to_hex_code};
use makepdf::script::{resolve_script, BundledScript, ScriptSource};

#[test]
fn color_should_be_able_to_convert_from_lua() {
    assert_eq!(parse_hex_color("0080FF"), Some((0, 128, 255)));
    assert_eq!(parse_hex_color("0080ff"), Some((0, 128, 255)));
    assert_eq!(parse_hex_color("#0080ff"), Some((0, 128, 255)));
}

#[test]
fn should_be_able_to_convert_to_string_in_lua() {
    assert_eq!(to_hex_code(0, 128, 255), "0080FF");
}

#[test]
fn hex_colors_short_form_and_errors() {
    assert_eq!(parse_hex_color("#fa0"), Some((255, 170, 0)));
    assert_eq!(parse_hex_color("+f+f+f"), Some((15, 15, 15)));
    assert_eq!(parse_hex_color("##0080ff"), None);
    assert_eq!(parse_hex_color("0080f"), None);
    assert_eq!(parse_hex_color("0080fg"), None);
    assert_eq!(parse_hex_color("é080ff"), None);
    assert_eq!(parse_hex_color(""), None);
}

#[test]
fn hex_code_round_trips() {
    for (r, g, b) in [(0u8, 0u8, 0u8), (255, 255, 255), (18, 52, 86), (171, 205, 239)] {
        assert_eq!(parse_hex_color(&to_hex_code(r, g, b)), Some((r, g, b)));
    }
}

#[test]
fn scripts_resolve_to_bundled_or_file() {
    assert!(matches!(resolve_script("makepdf:example"), ScriptSource::Bundled(BundledScript::Example)));
    assert!(matches!(resolve_script("makepdf:panda"), ScriptSource::Bundled(BundledScript::Panda)));
    match resolve_script("makepdf:other") {
        ScriptSource::File(path) => assert_eq!(path, "makepdf:other"),
        other => panic!("unexpected {other:?}"),
    }
    match resolve_script("makepdf.lua") {
        ScriptSource::File(path) => assert_eq!(path, "makepdf.lua"),
        other => panic!("unexpected {other:?}"),
    }
    assert_eq!(BundledScript::Panda.name(), "panda");
}
