use mongoscope::sidebar::app_color_for;
use mongoscope::types::{
    AppName, ComposeText, DatabaseName, FilterText, IndexName, QueryId, ValidationError,
};

fn hsl_to_rgb(h: f32, s: f32, l: f32) -> [u8; 3] {
    let c = (1.0 - (2.0 * l - 1.0).abs()) * s;
    let x = c * (1.0 - ((h / 60.0) % 2.0 - 1.0).abs());
    let m = l - c / 2.0;
    let (r1, g1, b1) = if h < 60.0 {
        (c, x, 0.0)
    } else if h < 120.0 {
        (x, c, 0.0)
    } else if h < 180.0 {
        (0.0, c, x)
    } else if h < 240.0 {
        (0.0, x, c)
    } else if h < 300.0 {
        (x, 0.0, c)
    } else {
        (c, 0.0, x)
    };
    [((r1 + m) * 255.0) as u8, ((g1 + m) * 255.0) as u8, ((b1 + m) * 255.0) as u8]
}

fn float_color(app: &str) -> [u8; 3] {
    let hash: u32 = app.bytes().fold(5381u32, |h, b| h.wrapping_mul(33).wrapping_add(b as u32));
    let hue = (hash % 360) as f32;
    hsl_to_rgb(hue, 0.65, 0.55)
}

#[test]
fn app_colors_agree_with_float_hsl() {
    for i in 0..5000 {
        let name = format!("app-{i}");
        assert_eq!(app_color_for(&name), float_color(&name), "{name}");
    }
    for name in ["", "api", "checkout-service", "ünïcode", "admin-portal"] {
        assert_eq!(app_color_for(name), float_color(name), "{name}");
    }
}

#[test]
fn query_id_must_be_positive() {
    assert_eq!(QueryId::try_new(0), Err(ValidationError::GreaterViolated));
    assert_eq!(QueryId::try_new(5).unwrap().into_inner(), 5);
}

#[test]
fn names_are_trimmed_and_non_empty() {
    assert_eq!(DatabaseName::try_new("  shop ").unwrap().as_str(), "shop");
    assert_eq!(DatabaseName::try_new("   "), Err(ValidationError::NotEmptyViolated));
    assert_eq!(AppName::try_new("\tapi\n").unwrap().into_inner(), "api");
    assert_eq!(IndexName::or_unknown(" ").as_str(), "unknown");
    assert_eq!(IndexName::or_unknown(" a_1 ").as_str(), "a_1");
    assert_eq!(FilterText::new("  db:shop ").into_inner(), "db:shop");
    assert_eq!(ComposeText::new(" x ").into_inner(), "x");
}
