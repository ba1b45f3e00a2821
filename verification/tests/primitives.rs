use plotkit_core::primitives::{Color, FontWeight, HAlign, Image, Paint, StrokeCap, StrokeJoin, VAlign};

#[test]
fn color_hex_parsing() {
    assert_eq!(Color::from_hex("#4E79A7"), Some(Color::TAB_BLUE()));
    assert_eq!(Color::from_hex("4E79A7"), Some(Color::TAB_BLUE()));
    assert_eq!(Color::from_hex("invalid"), None);
    assert_eq!(Color::from_hex("#FFF"), None);
}

#[test]
fn color_with_alpha() {
    let c = Color::TAB_BLUE().with_alpha(128);
    assert_eq!(c.r, 0x4E);
    assert_eq!(c.a, 128);
}

#[test]
fn tableau_10_length() {
    assert_eq!(Color::TABLEAU_10().len(), 10);
    assert_eq!(Color::TABLEAU_10()[0], Color::TAB_BLUE());
    assert_eq!(Color::TABLEAU_10()[9], Color::TAB_CYAN());
}

#[test]
fn paint_defaults() {
    let p = Paint::new(Color::BLACK());
    assert!(p.anti_alias);
    assert_eq!(p.color, Color::BLACK());
}

#[test]
fn color_hex_lowercase_and_mixed() {
    assert_eq!(Color::from_hex("#ff9da7"), Some(Color::TAB_PINK()));
    assert_eq!(Color::from_hex("Ff9Da7"), Some(Color::rgb(0xFF, 0x9D, 0xA7)));
}

#[test]
fn color_hex_rejects_bad_digits_and_lengths() {
    assert_eq!(Color::from_hex("#4E79AG"), None);
    assert_eq!(Color::from_hex("##4E79A7"), None);
    assert_eq!(Color::from_hex("#4E79A7F"), None);
    assert_eq!(Color::from_hex(""), None);
    assert_eq!(Color::from_hex("#"), None);
    assert_eq!(Color::from_hex("-F0000"), None);
}

#[test]
fn color_hex_sign_is_not_a_digit() {
    assert_eq!(Color::from_hex("+F0000"), None);
    assert_eq!(Color::from_hex("+1+2+3"), None);
    assert_eq!(Color::from_hex("#-10000"), None);
}

#[test]
fn color_hex_non_ascii_rejected() {
    assert_eq!(Color::from_hex("é1234"), None);
    assert_eq!(Color::from_hex("12345é"), None);
}

#[test]
fn color_constructors() {
    assert_eq!(Color::new(1, 2, 3, 4), Color { r: 1, g: 2, b: 3, a: 4 });
    assert_eq!(Color::rgb(1, 2, 3), Color { r: 1, g: 2, b: 3, a: 255 });
    assert_eq!(Color::WHITE(), Color::rgb(255, 255, 255));
    assert_eq!(Color::TRANSPARENT(), Color::new(0, 0, 0, 0));
}

#[test]
fn tableau_palette_values() {
    let p = Color::TABLEAU_10();
    assert_eq!(p[1], Color::TAB_ORANGE());
    assert_eq!(p[2], Color::TAB_GREEN());
    assert_eq!(p[3], Color::TAB_RED());
    assert_eq!(p[4], Color::TAB_PURPLE());
    assert_eq!(p[5], Color::TAB_BROWN());
    assert_eq!(p[6], Color::TAB_PINK());
    assert_eq!(p[7], Color::TAB_GREY());
    assert_eq!(p[8], Color::TAB_OLIVE());
    assert_eq!(Color::from_hex("#EDC948"), Some(p[8]));
}

#[test]
fn style_selectors_compare() {
    assert_ne!(StrokeCap::Butt, StrokeCap::Round);
    assert_ne!(StrokeJoin::Miter, StrokeJoin::Bevel);
    assert_ne!(FontWeight::Normal, FontWeight::Bold);
    assert_eq!(HAlign::Left, HAlign::Left);
    assert_ne!(VAlign::Top, VAlign::Baseline);
}

#[test]
fn image_holds_pixels() {
    let img = Image { data: vec![0u8; 4 * 2 * 3], width: 2, height: 3 };
    assert_eq!(img.data.len(), 4 * img.width as usize * img.height as usize);
}
