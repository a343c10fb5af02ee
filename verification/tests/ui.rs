use quboid::action::Action;
use quboid::config::Language;
use quboid::storage::tray_labels;
use quboid::ui::{action_name, text, unique_id, unique_value, ExtensionChange, LocalizedText, PageIcon};

#[test]
fn tray_labels_name_the_running_product() {
    assert_eq!(tray_labels(Language::Italian, "Cuboid"), ("Apri Cuboid".to_owned(), "Esci".to_owned()));
    assert_eq!(tray_labels(Language::English, "Cuboid"), ("Open Cuboid".to_owned(), "Exit".to_owned()));
}

#[test]
fn generated_values_avoid_the_ones_already_taken() {
    assert_eq!(unique_id("zone", &["zone-1", "zone-3"]), "zone-2");
    assert_eq!(
        unique_value(|number| format!("application-{number}.exe"), &["Application-1.exe"]),
        "application-2.exe"
    );
}

#[test]
fn generated_values_ignore_case_and_surrounding_white_space() {
    assert_eq!(unique_id("zone", &[" ZONE-1 ", "Zone-2"]), "zone-3");
    assert_eq!(unique_id("zone", &[]), "zone-1");
    assert_eq!(unique_id("page", &["page-1", "page-2", "page-3"]), "page-4");
}

#[test]
fn when_every_candidate_is_taken_the_next_number_is_used() {
    assert_eq!(unique_value(|_| "same".to_owned(), &["same"]), "same");
    assert_eq!(unique_value(|number| format!("x{}", number % 2), &["x1", "x0"]), "x0");
}

#[test]
fn labels_follow_the_interface_language() {
    assert_eq!(text(Language::Italian, "Ciao", "Hello"), "Ciao");
    assert_eq!(text(Language::English, "Ciao", "Hello"), "Hello");
    assert_eq!(action_name(Language::Italian, Action::LeftHalf), "Metà sinistra");
    assert_eq!(action_name(Language::English, Action::PreviousMonitor), "Previous monitor");
    assert_eq!(action_name(Language::English, Action::CenterTwoThirds), "Center 2/3");
    let label = LocalizedText::new("Zone", "Zones");
    assert_eq!(label.resolve(Language::Italian), "Zone");
    assert_eq!(label.resolve(Language::English), "Zones");
    assert_eq!(PageIcon::default(), PageIcon::Panels);
}

#[test]
fn the_stronger_change_wins_and_only_persist_is_written() {
    assert_eq!(ExtensionChange::Unchanged.merge(ExtensionChange::Live), ExtensionChange::Live);
    assert_eq!(ExtensionChange::Persist.merge(ExtensionChange::Live), ExtensionChange::Persist);
    assert_eq!(ExtensionChange::Live.merge(ExtensionChange::Unchanged), ExtensionChange::Live);
    assert!(!ExtensionChange::Unchanged.changed());
    assert!(ExtensionChange::Live.changed());
    assert!(!ExtensionChange::Live.persists());
    assert!(ExtensionChange::Persist.persists());
    assert_eq!(ExtensionChange::from(true), ExtensionChange::Persist);
    assert_eq!(ExtensionChange::from(false), ExtensionChange::Unchanged);
    assert_eq!(ExtensionChange::default(), ExtensionChange::Unchanged);
}
