use quboid::action::Action;
use quboid::config::{AppConfig, ConfigError, HotkeyBinding, Language, CURRENT_SCHEMA_VERSION};
use quboid::document::{archive_document, export_json, import_document};
use quboid::geometry::NORMALIZED_SCALE;

#[test]
fn default_shortcuts_match_rectangle_windows_mapping() {
    let config = AppConfig::default();
    let binding = |action| {
        config
            .hotkeys
            .iter()
            .find(|binding| binding.action == action)
            .map(|binding| (binding.modifiers, binding.virtual_key))
    };

    assert_eq!(config.hotkeys.len(), 22);
    assert_eq!(binding(Action::LeftHalf), Some((0x0003, 0x25)));
    assert_eq!(binding(Action::TopLeft), Some((0x0003, 0x55)));
    assert_eq!(binding(Action::CenterTwoThirds), Some((0x0003, 0x52)));
    assert_eq!(binding(Action::Maximize), Some((0x0003, 0x0D)));
    assert_eq!(binding(Action::MaximizeHeight), Some((0x0007, 0x26)));
    assert_eq!(binding(Action::NextMonitor), Some((0x000B, 0x27)));
    assert_eq!(binding(Action::AlmostMaximize), None);
    assert_eq!(binding(Action::CenterHalf), None);
}

#[test]
fn version_one_document_is_migrated_without_losing_user_settings() {
    let version_one = br#"{
        "schema_version": 1,
        "language": "english",
        "launch_at_login": true,
        "drag_snap_enabled": false,
        "hotkeys": []
    }"#;

    let imported = import_document(version_one).unwrap();

    assert_eq!(imported.config.schema_version, CURRENT_SCHEMA_VERSION);
    assert_eq!(imported.config.language, Language::English);
    assert!(imported.config.launch_at_login);
    assert!(!imported.config.drag_snap_enabled);
    assert!(imported.discarded_sections.is_empty());
}

const LEGACY_WITH_SECTIONS: &[u8] = br#"{
    "schema_version": 3,
    "language": "english",
    "launch_at_login": false,
    "drag_snap_enabled": true,
    "hotkeys": [{ "action": "left_half", "modifiers": 3, "virtual_key": 37 }],
    "gap": 12,
    "snap_threshold": 640,
    "layouts": [
        {
            "id": "work",
            "name": "Work",
            "zones": [
                { "id": "left", "name": "Left", "bounds": {
                    "left": 0, "top": 0, "right": 5000, "bottom": 10000 } }
            ]
        }
    ],
    "application_rules": [
        { "application": "editor.exe", "layout_id": "work", "excluded": false }
    ],
    "action_cycles": [
        { "id": "halves", "actions": ["left_half", "right_half"] }
    ]
}"#;

#[test]
fn legacy_document_keeps_base_settings_and_reports_unsupported_sections() {
    let imported = import_document(LEGACY_WITH_SECTIONS).unwrap();

    assert_eq!(imported.config.language, Language::English);
    assert_eq!(imported.config.gap, 12);
    assert_eq!(imported.config.snap_threshold, 640);
    assert_eq!(imported.config.hotkeys.len(), 1);
    assert_eq!(
        imported.discarded_sections,
        vec!["layouts".to_owned(), "application_rules".to_owned(), "action_cycles".to_owned()]
    );
}

#[test]
fn legacy_document_without_extra_sections_reports_nothing_discarded() {
    let legacy = br#"{
        "schema_version": 3,
        "language": "italian",
        "launch_at_login": false,
        "drag_snap_enabled": true,
        "hotkeys": [],
        "gap": 0,
        "snap_threshold": 500,
        "layouts": [],
        "application_rules": [],
        "action_cycles": []
    }"#;

    let imported = import_document(legacy).unwrap();

    assert!(imported.discarded_sections.is_empty());
}

#[test]
fn exported_documents_never_contain_separately_licensed_sections() {
    let json = export_json(&AppConfig::default()).unwrap();
    let document = String::from_utf8(json).unwrap();

    for section in ["layouts", "application_rules", "action_cycles"] {
        assert!(!document.contains(section), "the Base document exported {section}");
    }
}

#[test]
fn the_sections_a_load_leaves_behind_are_kept_in_the_sidecar_document() {
    let imported = import_document(LEGACY_WITH_SECTIONS).unwrap();
    let archive = archive_document(LEGACY_WITH_SECTIONS, &imported.discarded_sections).unwrap();
    let archived = String::from_utf8(archive).unwrap();

    assert!(archived.ends_with('\n'));
    assert!(archived.contains("\"schema_version\": 3"));
    assert!(archived.contains("\"work\""));
    assert!(archived.contains("\"editor.exe\""));
    assert!(archived.contains("\"halves\""));
    assert!(!archived.contains("\"language\""));
}

#[test]
fn only_the_discarded_sections_are_archived() {
    let legacy = br#"{
        "schema_version": 3,
        "language": "english",
        "launch_at_login": false,
        "drag_snap_enabled": true,
        "hotkeys": [],
        "gap": 0,
        "snap_threshold": 500,
        "layouts": [{ "id": "work" }],
        "application_rules": [],
        "action_cycles": [{ "id": "halves" }]
    }"#;
    let imported = import_document(legacy).unwrap();
    assert_eq!(imported.discarded_sections, vec!["layouts".to_owned(), "action_cycles".to_owned()]);

    let archived = String::from_utf8(archive_document(legacy, &imported.discarded_sections).unwrap()).unwrap();
    assert!(archived.contains("\"layouts\""));
    assert!(archived.contains("\"action_cycles\""));
    assert!(!archived.contains("application_rules"));
    assert_eq!(archive_document(legacy, &[]), None);
    assert_eq!(archive_document(b"{not json", &imported.discarded_sections), None);
}

#[test]
fn a_document_from_another_distribution_is_imported_without_its_foreign_sections() {
    let foreign = br#"{
        "schema_version": 1,
        "base": {
            "schema_version": 3,
            "language": "english",
            "launch_at_login": true,
            "drag_snap_enabled": true,
            "hotkeys": [{ "action": "left_half", "modifiers": 3, "virtual_key": 37 }],
            "gap": 5,
            "snap_threshold": 500
        },
        "extension": { "anything": [1, 2, 3] }
    }"#;

    let imported = import_document(foreign).unwrap();

    assert_eq!(imported.config.language, Language::English);
    assert_eq!(imported.config.gap, 5);
    assert_eq!(imported.config.hotkeys.len(), 1);
    assert_eq!(imported.config.schema_version, CURRENT_SCHEMA_VERSION);
    assert_eq!(imported.discarded_sections, vec!["extension".to_owned()]);
}

#[test]
fn a_document_from_another_distribution_keeps_its_base_section() {
    let foreign = br#"{
        "schema_version": 1,
        "base": {
            "schema_version": 4,
            "language": "english",
            "launch_at_login": false,
            "drag_snap_enabled": true,
            "hotkeys": [],
            "gap": 7,
            "snap_threshold": 500
        },
        "extra": { "anything": true },
        "empty": []
    }"#;

    let imported = import_document(foreign).unwrap();

    assert_eq!(imported.config.language, Language::English);
    assert_eq!(imported.config.gap, 7);
    assert_eq!(imported.discarded_sections, vec!["extra".to_owned()]);
}

#[test]
fn a_document_whose_base_section_is_unreadable_is_still_rejected() {
    for invalid in [
        br#"{"schema_version":1,"base":{"language":"italian"}}"#.as_slice(),
        br#"{"schema_version":1,"base":{"schema_version":999}}"#.as_slice(),
        br#"{"schema_version":1,"base":{"base":{"schema_version":4}}}"#.as_slice(),
    ] {
        assert!(import_document(invalid).is_err());
    }
}

#[test]
fn invalid_imports_are_rejected() {
    for invalid in [
        br#"{"schema_version":999}"#.as_slice(),
        br#"{"schema_version":4,"unknown":true}"#.as_slice(),
        br#"{"language":"italian"}"#.as_slice(),
        br#"{not json"#.as_slice(),
    ] {
        assert!(import_document(invalid).is_err());
    }
}

#[test]
fn semantic_validation_rejects_every_invalid_configuration_category() {
    let mut cases = Vec::new();

    let future = AppConfig { schema_version: 999, ..AppConfig::default() };
    cases.push((future, ConfigError::FutureVersion(999)));

    let old = AppConfig { schema_version: 1, ..AppConfig::default() };
    cases.push((old, ConfigError::UnsupportedVersion(1)));

    let mut missing_key = AppConfig::default();
    missing_key.hotkeys[0].virtual_key = 0;
    cases.push((missing_key, ConfigError::InvalidHotkey(0)));

    let mut duplicate_key = AppConfig::default();
    let duplicate_index = duplicate_key.hotkeys.len();
    duplicate_key.hotkeys.push(duplicate_key.hotkeys[0].clone());
    cases.push((duplicate_key, ConfigError::DuplicateHotkey(duplicate_index)));

    let invalid_gap = AppConfig { gap: NORMALIZED_SCALE + 1, ..AppConfig::default() };
    cases.push((invalid_gap, ConfigError::InvalidGap(NORMALIZED_SCALE + 1)));

    let invalid_threshold = AppConfig { snap_threshold: NORMALIZED_SCALE + 1, ..AppConfig::default() };
    cases.push((invalid_threshold, ConfigError::InvalidSnapThreshold(NORMALIZED_SCALE + 1)));

    for (config, expected) in cases {
        assert_eq!(config.validate(), Err(expected));
    }
}

#[test]
fn complete_base_configuration_with_custom_hotkeys_is_valid() {
    let mut config = AppConfig { gap: 8, snap_threshold: 700, ..AppConfig::default() };
    config.hotkeys.push(HotkeyBinding { action: Action::TopLeft, modifiers: 0x0006, virtual_key: 0x54 });

    assert_eq!(config.validate(), Ok(()));
}
