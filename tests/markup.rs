use std::rc::Rc;

use grt::{directive_warning, parse_decimal, Color, Decimal, Font, Markup, MarkupKind, TextParams};

fn fonts() -> Vec<Rc<Font>> {
    vec![
        Rc::new(Font { name: "normal".to_string(), base: 20, line_height: 30 }),
        Rc::new(Font { name: "large".to_string(), base: 40, line_height: 50 }),
    ]
}

fn defaults(fonts: &[Rc<Font>]) -> Markup {
    let params = TextParams { color: Color::white(), scale: Decimal::one() };
    Markup::from_text_params(&params, &fonts[0])
}

fn assert_default_fields_but_color_and_scale(m: &Markup, fonts: &[Rc<Font>]) {
    assert!(m.pos_x.is_none());
    assert!(m.pos_y.is_none());
    assert!(m.image.is_none());
    assert!(Rc::ptr_eq(&m.font, &fonts[0]));
}

#[test]
fn decimal_literals() {
    assert_eq!(parse_decimal("1.5"), Some(Decimal::new(15, 1)));
    assert_eq!(parse_decimal("2.0"), Some(Decimal::new(20, 1)));
    assert_eq!(parse_decimal("-2"), Some(Decimal::new(-2, 0)));
    assert_eq!(parse_decimal("+0.25"), Some(Decimal::new(25, 2)));
    assert_eq!(parse_decimal(".5"), Some(Decimal::new(5, 1)));
    assert_eq!(parse_decimal("7."), Some(Decimal::new(7, 0)));
}

#[test]
fn decimal_rejects_non_numbers() {
    assert_eq!(parse_decimal(""), None);
    assert_eq!(parse_decimal("-"), None);
    assert_eq!(parse_decimal("."), None);
    assert_eq!(parse_decimal("1.2.3"), None);
    assert_eq!(parse_decimal("notanumber"), None);
    assert_eq!(parse_decimal("1 5"), None);
}

#[test]
fn decimal_digit_limit() {
    assert_eq!(
        parse_decimal("123456789012345678"),
        Some(Decimal::new(123456789012345678, 0))
    );
    assert_eq!(parse_decimal("1234567890123456789"), None);
}

#[test]
fn color_directive_sets_only_color() {
    let fonts = fonts();
    let m = Markup::from_string("c=ff0000ff;", &defaults(&fonts), &fonts);
    assert_eq!(m.color, Color::new(255, 0, 0, 255));
    assert_eq!(m.scale, Decimal::one());
    assert_default_fields_but_color_and_scale(&m, &fonts);
}

#[test]
fn letters_after_a_directive_open_new_ones() {
    // 'c' opens the color directive, so its value reads "fff0000ff", which is no
    // color; "text" opens an x directive at its 'x', holding "t", no number.
    let fonts = fonts();
    let m = Markup::from_string("cf=ff0000ff;text", &defaults(&fonts), &fonts);
    assert_eq!(m.color, Color::white());
    assert_eq!(m.pos_x, Some(Decimal::one()));
    assert!(m.pos_y.is_none());
}

#[test]
fn scale_directive() {
    let fonts = fonts();
    let m = Markup::from_string("s=2.0;", &defaults(&fonts), &fonts);
    assert_eq!(m.scale, Decimal::new(20, 1));
    assert_eq!(m.color, Color::white());
    assert_default_fields_but_color_and_scale(&m, &fonts);
}

#[test]
fn bad_scale_falls_back_to_one() {
    let fonts = fonts();
    let start = Markup::from_string("s=3;", &defaults(&fonts), &fonts);
    assert_eq!(start.scale, Decimal::new(3, 0));
    let m = Markup::from_string("s=notanumber;", &start, &fonts);
    assert_eq!(m.scale, Decimal::one());
}

#[test]
fn unterminated_directive_still_applies() {
    let fonts = fonts();
    let m = Markup::from_string("s=1.5", &defaults(&fonts), &fonts);
    assert_eq!(m.scale, Decimal::new(15, 1));
}

#[test]
fn spaces_and_equals_are_skipped() {
    let fonts = fonts();
    let m = Markup::from_string("x = 1 2 ;y==3;", &defaults(&fonts), &fonts);
    assert_eq!(m.pos_x, Some(Decimal::new(12, 0)));
    assert_eq!(m.pos_y, Some(Decimal::new(3, 0)));
}

#[test]
fn unknown_leading_characters_are_ignored() {
    let fonts = fonts();
    let m = Markup::from_string("zzz;;s=2;", &defaults(&fonts), &fonts);
    assert_eq!(m.scale, Decimal::new(2, 0));
    assert_default_fields_but_color_and_scale(&m, &fonts);
}

#[test]
fn image_directive_keeps_text() {
    let fonts = fonts();
    let m = Markup::from_string("i=icon_sword;", &defaults(&fonts), &fonts);
    assert_eq!(m.image.as_deref(), Some("icon_sword"));
}

#[test]
fn font_directive_looks_up_font() {
    let fonts = fonts();
    let m = Markup::from_string("f=large;", &defaults(&fonts), &fonts);
    assert!(Rc::ptr_eq(&m.font, &fonts[1]));
    let missing = Markup::from_string("f=huge;", &defaults(&fonts), &fonts);
    assert!(Rc::ptr_eq(&missing.font, &fonts[0]));
}

#[test]
fn bad_color_keeps_previous() {
    let fonts = fonts();
    let m = Markup::from_string("c=00ff00;c=zz;", &defaults(&fonts), &fonts);
    assert_eq!(m.color, Color::new(0, 255, 0, 255));
}

#[test]
fn from_other_resets_position_and_image() {
    let fonts = fonts();
    let styled = Markup::from_string("c=102030;s=2;x=4;y=5;i=a;f=large;", &defaults(&fonts), &fonts);
    let fresh = Markup::from_other(&styled);
    assert_eq!(fresh.color, Color::new(16, 32, 48, 255));
    assert_eq!(fresh.scale, Decimal::new(2, 0));
    assert!(fresh.pos_x.is_none() && fresh.pos_y.is_none() && fresh.image.is_none());
    assert!(Rc::ptr_eq(&fresh.font, &fonts[1]));
}

#[test]
fn parse_buf_applies_one_directive() {
    let fonts = fonts();
    let mut m = defaults(&fonts);
    m.parse_buf(&"0.5".to_string(), MarkupKind::PosY, &fonts);
    assert_eq!(m.pos_y, Some(Decimal::new(5, 1)));
}

#[test]
fn baseline_offset() {
    let fonts = fonts();
    let m = Markup::from_string("s=1.5;", &defaults(&fonts), &fonts);
    // (1.5 - 1) * 20 / 30 = 100 / 300
    assert_eq!(m.y_offset(), (100, 300));
    let plain = defaults(&fonts);
    assert_eq!(plain.y_offset(), (0, 30));
}

#[test]
fn shrunk_text_baseline_offset_is_negative() {
    let fonts = fonts();
    let m = Markup::from_string("s=0.5;", &defaults(&fonts), &fonts);
    // (0.5 - 1) * 20 / 30 = -100 / 300
    assert_eq!(m.y_offset(), (-100, 300));
}

#[test]
fn warnings_name_malformed_directives() {
    let fonts = fonts();
    let (m, warnings) = Markup::parse_with_warnings(
        "s=notanumber;c=00ff00;f=huge;i=x;c=zz;y=oops",
        &defaults(&fonts),
        &fonts,
    );
    assert_eq!(
        warnings,
        vec![MarkupKind::Scale, MarkupKind::Font, MarkupKind::Color, MarkupKind::PosY]
    );
    assert_eq!(m.scale, Decimal::one());
    assert_eq!(m.color, Color::new(0, 255, 0, 255));
    assert_eq!(m.pos_y, Some(Decimal::one()));
}

#[test]
fn well_formed_directives_do_not_warn() {
    let fonts = fonts();
    let (_, warnings) =
        Markup::parse_with_warnings("s=2;x=1;f=large;i=a;c=ffffff", &defaults(&fonts), &fonts);
    assert!(warnings.is_empty());
}

#[test]
fn single_directive_warning() {
    let fonts = fonts();
    assert!(directive_warning(MarkupKind::Color, &"12".to_string(), &fonts));
    assert!(!directive_warning(MarkupKind::Color, &"123456".to_string(), &fonts));
    assert!(directive_warning(MarkupKind::PosX, &"1e2".to_string(), &fonts));
    assert!(!directive_warning(MarkupKind::Font, &"normal".to_string(), &fonts));
    assert!(directive_warning(MarkupKind::Font, &"Normal".to_string(), &fonts));
    assert!(!directive_warning(MarkupKind::Image, &"".to_string(), &fonts));
}
