use quboid::appearance::{
    decode_colorization_color, decode_theme, unavailable, windows_blue, RegistryIssue, RegistrySetting, RgbColor,
    WindowsAppearance, WindowsAppearanceProvider, WindowsTheme,
};

#[test]
fn decodes_documented_theme_values() {
    assert_eq!(decode_theme(0), RegistrySetting::Value(WindowsTheme::Dark));
    assert_eq!(decode_theme(1), RegistrySetting::Value(WindowsTheme::Light));
    assert_eq!(decode_theme(2), RegistrySetting::Unavailable(RegistryIssue::InvalidDword(2)));
}

#[test]
fn decodes_colorization_color_as_argb() {
    assert_eq!(decode_colorization_color(0xC400_78D4), RgbColor::new(0x00, 0x78, 0xD4));
}

#[test]
fn uses_documented_fallbacks_for_unavailable_settings() {
    let appearance = WindowsAppearance {
        theme: RegistrySetting::Unavailable(RegistryIssue::Missing),
        accent: RegistrySetting::Unavailable(RegistryIssue::Unreadable("denied".to_owned())),
    };

    assert_eq!(appearance.theme_or(WindowsTheme::Light), WindowsTheme::Light);
    assert_eq!(appearance.accent_or_default(), windows_blue());
}

#[test]
fn windows_blue_is_the_documented_default_accent() {
    assert_eq!(windows_blue(), RgbColor::new(0x00, 0x67, 0xC0));
}

#[test]
fn reported_settings_are_used_over_the_fallbacks() {
    let appearance = WindowsAppearance {
        theme: RegistrySetting::Value(WindowsTheme::Dark),
        accent: RegistrySetting::Value(RgbColor::new(1, 2, 3)),
    };
    assert_eq!(appearance.theme_or(WindowsTheme::Light), WindowsTheme::Dark);
    assert_eq!(appearance.accent_or_default(), RgbColor::new(1, 2, 3));
    assert_eq!(appearance.theme.value(), Some(&WindowsTheme::Dark));
}

#[test]
fn the_provider_decodes_both_registry_words() {
    let provider = WindowsAppearanceProvider::new();
    let appearance = provider.decode(RegistrySetting::Value(1), RegistrySetting::Value(0xFF11_2233));
    assert_eq!(appearance.theme, RegistrySetting::Value(WindowsTheme::Light));
    assert_eq!(appearance.accent, RegistrySetting::Value(RgbColor::new(0x11, 0x22, 0x33)));

    let appearance = provider.decode(RegistrySetting::Value(7), unavailable(true, "gone".to_owned()));
    assert_eq!(appearance.theme, RegistrySetting::Unavailable(RegistryIssue::InvalidDword(7)));
    assert_eq!(appearance.accent, RegistrySetting::Unavailable(RegistryIssue::Missing));
}

#[test]
fn a_failed_read_is_missing_or_unreadable() {
    assert_eq!(unavailable::<u32>(true, "not found".to_owned()), RegistrySetting::Unavailable(RegistryIssue::Missing));
    assert_eq!(
        unavailable::<u32>(false, "denied".to_owned()),
        RegistrySetting::Unavailable(RegistryIssue::Unreadable("denied".to_owned()))
    );
}
