use makepdf::padding::PdfPadding;
use makepdf::pattern::{DashPatternError, PdfLineDashPattern};
use makepdf::style::{
    PdfAlign, PdfHorizontalAlign, PdfLineCapStyle, PdfLineJoinStyle, PdfLink, PdfPaintMode,
    PdfVerticalAlign, PdfWindingOrder,
};

#[test]
fn cap_style_should_be_able_to_convert_from_lua() {
    assert_eq!(PdfLineCapStyle::from_name("butt"), Some(PdfLineCapStyle::butt()));
    assert_eq!(PdfLineCapStyle::from_name("round"), Some(PdfLineCapStyle::round()));
    assert_eq!(
        PdfLineCapStyle::from_name("projecting_square"),
        Some(PdfLineCapStyle::projecting_square())
    );
}

#[test]
fn cap_style_should_be_able_to_convert_into_lua() {
    assert_eq!(PdfLineCapStyle::butt().name(), "butt");
    assert_eq!(PdfLineCapStyle::round().name(), "round");
    assert_eq!(PdfLineCapStyle::projecting_square().name(), "projecting_square");
}

#[test]
fn join_style_should_be_able_to_convert_from_lua() {
    assert_eq!(PdfLineJoinStyle::from_name("limit"), Some(PdfLineJoinStyle::limit()));
    assert_eq!(PdfLineJoinStyle::from_name("miter"), Some(PdfLineJoinStyle::miter()));
    assert_eq!(PdfLineJoinStyle::from_name("round"), Some(PdfLineJoinStyle::round()));
}

#[test]
fn join_style_should_be_able_to_convert_into_lua() {
    assert_eq!(PdfLineJoinStyle::limit().name(), "limit");
    assert_eq!(PdfLineJoinStyle::miter().name(), "miter");
    assert_eq!(PdfLineJoinStyle::round().name(), "round");
}

#[test]
fn mode_should_be_able_to_convert_from_lua() {
    assert_eq!(PdfPaintMode::from_name("clip"), Some(PdfPaintMode::clip()));
    assert_eq!(PdfPaintMode::from_name("fill"), Some(PdfPaintMode::fill()));
    assert_eq!(PdfPaintMode::from_name("fill_stroke"), Some(PdfPaintMode::fill_stroke()));
    assert_eq!(PdfPaintMode::from_name("stroke"), Some(PdfPaintMode::stroke()));
}

#[test]
fn mode_should_be_able_to_convert_into_lua() {
    assert_eq!(PdfPaintMode::clip().name(), "clip");
    assert_eq!(PdfPaintMode::fill().name(), "fill");
    assert_eq!(PdfPaintMode::fill_stroke().name(), "fill_stroke");
    assert_eq!(PdfPaintMode::stroke().name(), "stroke");
}

#[test]
fn order_should_be_able_to_convert_from_lua() {
    assert_eq!(PdfWindingOrder::from_name("even_odd"), Some(PdfWindingOrder::EvenOdd));
    assert_eq!(PdfWindingOrder::from_name("non_zero"), Some(PdfWindingOrder::NonZero));
}

#[test]
fn order_should_be_able_to_convert_into_lua() {
    assert_eq!(PdfWindingOrder::EvenOdd.name(), "even_odd");
    assert_eq!(PdfWindingOrder::NonZero.name(), "non_zero");
}

#[test]
fn pattern_should_be_able_to_convert_from_lua() {
    assert_eq!(PdfLineDashPattern::from_name("solid").unwrap(), PdfLineDashPattern::solid());
    assert_eq!(
        PdfLineDashPattern::from_name("dashed").unwrap(),
        PdfLineDashPattern::dashed(PdfLineDashPattern::DEFAULT_DASH_LENGTH)
    );
    assert_eq!(PdfLineDashPattern::from_name("dashed:123").unwrap(), PdfLineDashPattern::dashed(123));
    assert_eq!(PdfLineDashPattern::default(), PdfLineDashPattern::solid());
    let full = PdfLineDashPattern {
        offset: 1,
        dash_1: Some(2),
        gap_1: Some(5),
        dash_2: Some(3),
        gap_2: Some(6),
        dash_3: Some(4),
        gap_3: Some(7),
    };
    assert_eq!(full.dash_2, Some(3));
    assert_eq!(full.gap_3, Some(7));
}

#[test]
fn pattern_should_be_able_to_convert_into_lua() {
    let solid = PdfLineDashPattern::default();
    assert_eq!(solid.offset, 0);
    assert_eq!(solid.dash_1, None);
    assert_eq!(solid.gap_1, None);
    let dashed = PdfLineDashPattern::dashed(5);
    assert_eq!(dashed.dash_1, Some(5));
    assert_eq!(dashed.gap_1, None);
}

#[test]
fn pattern_names_with_lengths_and_errors() {
    assert_eq!(PdfLineDashPattern::from_name("dashed: 42 ").unwrap(), PdfLineDashPattern::dashed(42));
    assert_eq!(PdfLineDashPattern::from_name("dashed:-7").unwrap(), PdfLineDashPattern::dashed(-7));
    assert_eq!(PdfLineDashPattern::from_name("dashed:+7").unwrap(), PdfLineDashPattern::dashed(7));
    assert_eq!(
        PdfLineDashPattern::from_name("dashed:9223372036854775807").unwrap(),
        PdfLineDashPattern::dashed(i64::MAX)
    );
    assert_eq!(
        PdfLineDashPattern::from_name("dashed:-9223372036854775808").unwrap(),
        PdfLineDashPattern::dashed(i64::MIN)
    );
    assert_eq!(
        PdfLineDashPattern::from_name("dashed:9223372036854775808"),
        Err(DashPatternError::InvalidLength)
    );
    assert_eq!(PdfLineDashPattern::from_name("dashed:abc"), Err(DashPatternError::InvalidLength));
    assert_eq!(PdfLineDashPattern::from_name("dashed:"), Err(DashPatternError::InvalidLength));
    assert_eq!(PdfLineDashPattern::from_name("dotted"), Err(DashPatternError::UnknownFormat));
    assert_eq!(PdfLineDashPattern::from_name("Solid"), Err(DashPatternError::UnknownFormat));
}

#[test]
fn style_names_round_trip() {
    for s in [PdfLineCapStyle::butt(), PdfLineCapStyle::round(), PdfLineCapStyle::projecting_square()] {
        assert_eq!(PdfLineCapStyle::from_name(s.name()), Some(s));
    }
    for s in [PdfLineJoinStyle::limit(), PdfLineJoinStyle::miter(), PdfLineJoinStyle::round()] {
        assert_eq!(PdfLineJoinStyle::from_name(s.name()), Some(s));
    }
    for s in [PdfHorizontalAlign::Left, PdfHorizontalAlign::Middle, PdfHorizontalAlign::Right] {
        assert_eq!(PdfHorizontalAlign::from_name(s.name()), Some(s));
    }
    for s in [PdfVerticalAlign::Top, PdfVerticalAlign::Middle, PdfVerticalAlign::Bottom] {
        assert_eq!(PdfVerticalAlign::from_name(s.name()), Some(s));
    }
    assert_eq!(PdfLineCapStyle::from_name("square"), None);
    assert_eq!(PdfPaintMode::from_name(""), None);
}

#[test]
fn align_defaults_and_tuples() {
    let align = PdfAlign::default();
    assert_eq!(align.h, PdfHorizontalAlign::Middle);
    assert_eq!(align.v, PdfVerticalAlign::Middle);
    let align = PdfAlign { h: PdfHorizontalAlign::Left, v: PdfVerticalAlign::Bottom };
    assert_eq!(align.to_h_v(), (PdfHorizontalAlign::Left, PdfVerticalAlign::Bottom));
    assert_eq!(align.to_v_h(), (PdfVerticalAlign::Bottom, PdfHorizontalAlign::Left));
    assert_eq!(PdfPaintMode::default(), PdfPaintMode::Fill);
    assert_eq!(PdfWindingOrder::default(), PdfWindingOrder::NonZero);
}

#[test]
fn link_kind_names() {
    assert_eq!(PdfLink::GoTo { page: 3 }.kind_name(), "goto");
    assert_eq!(PdfLink::Uri { uri: "https://example.com".to_string() }.kind_name(), "uri");
}

#[test]
fn padding_should_be_able_to_convert_from_lua() {
    let empty: Vec<f32> = vec![];
    assert_eq!(PdfPadding::from_values(&empty), None);
    assert_eq!(PdfPadding::from_single(1.0f32), PdfPadding::new(1.0, 1.0, 1.0, 1.0));
    assert_eq!(PdfPadding::from_values(&vec![1.5f32]), Some(PdfPadding::new(1.5, 1.5, 1.5, 1.5)));
    assert_eq!(PdfPadding::from_values(&vec![1.5f32, 2.5]), Some(PdfPadding::new(1.5, 2.5, 1.5, 2.5)));
    assert_eq!(
        PdfPadding::from_values(&vec![1.5f32, 2.5, 3.5]),
        Some(PdfPadding::new(1.5, 2.5, 3.5, 2.5))
    );
    assert_eq!(
        PdfPadding::from_values(&vec![1.5f32, 2.5, 3.5, 4.5]),
        Some(PdfPadding::new(1.5, 2.5, 3.5, 4.5))
    );
    assert_eq!(
        PdfPadding::from_values(&vec![1.5f32, 2.5, 3.5, 4.5, 5.5]),
        Some(PdfPadding::new(1.5, 2.5, 3.5, 4.5))
    );
    assert_eq!(PdfPadding::from_pair(1, 2), PdfPadding::new(1, 2, 1, 2));
    assert_eq!(PdfPadding::from_triple(1, 2, 3), PdfPadding::new(1, 2, 3, 2));
}

#[test]
fn padding_should_be_able_to_convert_into_lua() {
    let padding = PdfPadding::new(1.0f32, 2.0, 3.0, 4.0);
    assert_eq!((padding.top, padding.right, padding.bottom, padding.left), (1.0, 2.0, 3.0, 4.0));
}
