use quboid::config::Language;
use quboid::storage::system_language;

#[test]
fn the_user_locale_names_a_language() {
    // Whatever the session reports, a locale must resolve to a language the
    // interface can render.
    let _ = system_language(Some("it-IT"));
    assert_eq!(system_language(None), Language::English);
}

#[test]
fn windows_locale_tags_map_to_an_interface_language() {
    assert_eq!(Language::from_locale_tag("it-IT"), Language::Italian);
    assert_eq!(Language::from_locale_tag("it-CH"), Language::Italian);
    assert_eq!(Language::from_locale_tag("en-US"), Language::English);
    assert_eq!(Language::from_locale_tag("de-DE"), Language::English);
    assert_eq!(Language::from_locale_tag(""), Language::English);
}

#[test]
fn the_system_language_follows_the_reported_tag() {
    assert_eq!(system_language(Some("it-IT")), Language::Italian);
    assert_eq!(system_language(Some("en-GB")), Language::English);
}
