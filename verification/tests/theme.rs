use lux::theme::Appearance;

#[test]
fn test_theme_from_settings_dark() {
    let appearance = Appearance::default();
    assert!(appearance.is_dark(true));
}

#[test]
fn test_theme_from_settings_light() {
    let appearance = Appearance::default();
    assert!(!appearance.is_dark(false));
}

#[test]
fn test_appearance_override() {
    // Force dark even when system is light
    assert!(Appearance::Dark.is_dark(false));
    // Force light even when system is dark
    assert!(!Appearance::Light.is_dark(true));
}
