use mongoscope::theme::{Density, Dock, Theme};

#[test]
fn theme_toggle_roundtrip() {
    assert_eq!(Theme::Dark.toggle().toggle(), Theme::Dark);
}

#[test]
fn theme_toggle_changes_theme() {
    assert_eq!(Theme::Dark.toggle(), Theme::Light);
    assert_eq!(Theme::Light.toggle(), Theme::Dark);
}

#[test]
fn density_toggle_roundtrip() {
    assert_eq!(Density::Compact.toggle(), Density::Comfy);
    assert_eq!(Density::Comfy.toggle().toggle(), Density::Comfy);
}

#[test]
fn labels_and_defaults() {
    assert_eq!(Theme::Dark.label(), "Dark");
    assert_eq!(Theme::Light.label(), "Light");
    assert_eq!(Density::Compact.label(), "Compact");
    assert_eq!(Density::Comfy.label(), "Comfy");
    assert_eq!(Theme::default(), Theme::Dark);
    assert_eq!(Density::default(), Density::Compact);
    assert_eq!(Dock::default(), Dock::Bottom);
}
