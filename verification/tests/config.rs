use quboid::action::Action;
use quboid::config::{
    rectangle_default_hotkeys, legacy_default_hotkeys, AppConfig, ConfigError, HotkeyBinding, Language,
    CURRENT_SCHEMA_VERSION, DEFAULT_SNAP_THRESHOLD, MAX_CONFIG_BYTES,
};
use quboid::document::{export_json, import_document, ConfigStorageError};
use quboid::geometry::NORMALIZED_SCALE;

#[test]
fn default_config_is_valid_and_serializable() {
    let config = AppConfig::default();
    config.validate().unwrap();
    let json = export_json(&config).unwrap();
    let restored = import_document(&json).unwrap();
    assert_eq!(restored.config, config);
    assert!(restored.discarded_sections.is_empty());
}

#[test]
fn locale_tags_choose_the_interface_language() {
    assert_eq!(Language::from_locale_tag("it"), Language::Italian);
    assert_eq!(Language::from_locale_tag("IT-it"), Language::Italian);
    assert_eq!(Language::from_locale_tag("it_IT"), Language::Italian);
    assert_eq!(Language::from_locale_tag("en-GB"), Language::English);
    assert_eq!(Language::from_locale_tag("fr-FR"), Language::English);
    assert_eq!(Language::from_locale_tag(""), Language::English);
}

#[test]
fn migrates_v1_sequentially() {
    let v1 = br#"{
        "schema_version": 1,
        "language": "english",
        "launch_at_login": true,
        "drag_snap_enabled": false,
        "hotkeys": []
    }"#;

    let migrated = import_document(v1).unwrap().config;
    assert_eq!(migrated.schema_version, CURRENT_SCHEMA_VERSION);
    assert_eq!(migrated.language, Language::English);
    assert!(migrated.launch_at_login);
    assert!(!migrated.drag_snap_enabled);
    assert_eq!(migrated.snap_threshold, DEFAULT_SNAP_THRESHOLD);
}

#[test]
fn import_enforces_size_limit() {
    let oversized = vec![b' '; MAX_CONFIG_BYTES + 1];
    assert!(matches!(import_document(&oversized), Err(ConfigStorageError::TooLarge { .. })));
}

#[test]
fn duplicate_hotkey_is_rejected() {
    let mut config = AppConfig::default();
    let duplicate_index = config.hotkeys.len();
    config.hotkeys.push(config.hotkeys[0].clone());
    assert_eq!(config.validate(), Err(ConfigError::DuplicateHotkey(duplicate_index)));
}

fn binding_json(binding: &HotkeyBinding) -> String {
    format!(
        "{{\"action\":\"{}\",\"modifiers\":{},\"virtual_key\":{}}}",
        binding.action.label_key(),
        binding.modifiers,
        binding.virtual_key
    )
}

fn version_two_document(hotkeys: &[HotkeyBinding]) -> Vec<u8> {
    let hotkeys = hotkeys.iter().map(binding_json).collect::<Vec<_>>().join(",");
    format!(
        "{{\"schema_version\":2,\"language\":\"italian\",\"launch_at_login\":false,\"drag_snap_enabled\":true,\"hotkeys\":[{hotkeys}],\"gap\":0,\"snap_threshold\":{DEFAULT_SNAP_THRESHOLD}}}"
    )
    .into_bytes()
}

#[test]
fn v2_legacy_defaults_upgrade_to_rectangle_shortcuts() {
    let document = version_two_document(&legacy_default_hotkeys());

    let migrated = import_document(&document).unwrap().config;

    assert_eq!(migrated.hotkeys, rectangle_default_hotkeys());
}

#[test]
fn v2_custom_shortcuts_are_preserved() {
    let custom = vec![HotkeyBinding { action: Action::Center, modifiers: 0x0002, virtual_key: 0x43 }];
    let document = version_two_document(&custom);

    let migrated = import_document(&document).unwrap().config;

    assert_eq!(migrated.hotkeys, custom);
}

#[test]
fn future_versions_are_rejected_as_such() {
    let future = br#"{"schema_version":999,"future_data":"keep me"}"#;
    assert!(matches!(
        import_document(future),
        Err(ConfigStorageError::InvalidConfig(ConfigError::FutureVersion(999)))
    ));
}

#[test]
fn corrupt_documents_are_rejected_as_json_errors() {
    assert!(matches!(import_document(b"{not json"), Err(ConfigStorageError::Json(_))));
}

#[test]
fn a_document_without_a_schema_version_is_rejected_as_such() {
    assert_eq!(
        import_document(br#"{"language":"italian"}"#),
        Err(ConfigStorageError::MissingSchemaVersion)
    );
    assert_eq!(import_document(b"[1, 2]"), Err(ConfigStorageError::MissingSchemaVersion));
}

#[test]
fn a_version_zero_document_cannot_be_migrated() {
    assert_eq!(
        import_document(br#"{"schema_version":0}"#),
        Err(ConfigStorageError::InvalidConfig(ConfigError::UnsupportedVersion(0)))
    );
}

#[test]
fn unknown_fields_are_rejected() {
    assert!(matches!(
        import_document(br#"{"schema_version":4,"unknown":true}"#),
        Err(ConfigStorageError::Json(_))
    ));
}

#[test]
fn an_exported_configuration_reads_back_unchanged() {
    let mut config = AppConfig { gap: 75, snap_threshold: 625, language: Language::Italian, ..AppConfig::default() };
    config.hotkeys.push(HotkeyBinding { action: Action::Undo, modifiers: 0x0006, virtual_key: 0x5A });
    let json = export_json(&config).unwrap();
    let restored = import_document(&json).unwrap();
    assert_eq!(restored.config, config);
    assert!(restored.discarded_sections.is_empty());
    assert!(!restored.defaulted);
    assert_eq!(restored.archived_sections, None);
    assert_eq!(json.last(), Some(&b'\n'));
}

#[test]
fn an_invalid_configuration_is_not_exported() {
    let config = AppConfig { gap: NORMALIZED_SCALE + 1, ..AppConfig::default() };
    assert_eq!(
        export_json(&config),
        Err(ConfigStorageError::InvalidConfig(ConfigError::InvalidGap(NORMALIZED_SCALE + 1)))
    );
}

#[test]
fn a_shortcut_without_a_key_is_rejected() {
    let mut config = AppConfig::default();
    config.hotkeys[3].virtual_key = 0;
    assert_eq!(config.validate(), Err(ConfigError::InvalidHotkey(3)));
}

#[test]
fn broken_rules_are_described() {
    assert_eq!(ConfigError::FutureVersion(999).message(), "configuration schema version 999 is newer than this build supports");
    assert_eq!(ConfigError::UnsupportedVersion(1).message(), "configuration schema version 1 is not supported");
    assert_eq!(ConfigError::InvalidHotkey(0).message(), "hotkey at index 0 has no key");
    assert_eq!(ConfigError::DuplicateHotkey(22).message(), "hotkey at index 22 duplicates an earlier binding");
    assert_eq!(ConfigError::InvalidGap(10_001).message(), "gap 10001 is outside the normalized range");
    assert_eq!(
        ConfigError::InvalidSnapThreshold(10_001).message(),
        "snap threshold 10001 is outside the normalized range"
    );
}

#[test]
fn storage_failures_are_described() {
    assert_eq!(
        ConfigStorageError::TooLarge { actual: 1_048_577, maximum: MAX_CONFIG_BYTES }.message(),
        "configuration is 1048577 bytes; maximum size is 1048576 bytes"
    );
    assert_eq!(ConfigStorageError::MissingSchemaVersion.message(), "configuration has no valid schema_version");
    assert_eq!(ConfigStorageError::Io("denied".to_owned()).message(), "configuration I/O failed: denied");
    assert_eq!(ConfigStorageError::Rejected("busy".to_owned()).message(), "configuration was rejected: busy");
    assert_eq!(
        ConfigStorageError::InvalidConfig(ConfigError::InvalidHotkey(3)).message(),
        "hotkey at index 3 has no key"
    );
    match import_document(b"{not json") {
        Err(error) => assert!(error.message().starts_with("configuration JSON is invalid: ")),
        Ok(_) => panic!("a corrupt document was read"),
    }
}

#[test]
fn exported_document_lists_fields_in_declaration_order() {
    let json = export_json(&AppConfig::default()).unwrap();
    let document = String::from_utf8(json).unwrap();
    assert!(document.starts_with("{\n  \"schema_version\": 5,\n  \"language\": "));
    let keys = [
        "\"schema_version\"",
        "\"language\"",
        "\"launch_at_login\"",
        "\"drag_snap_enabled\"",
        "\"hotkeys\"",
        "\"gap\"",
        "\"snap_threshold\"",
        "\"restore_on_display_change\"",
    ];
    let positions: Vec<usize> = keys.iter().map(|key| document.find(key).unwrap()).collect();
    assert!(positions.windows(2).all(|pair| pair[0] < pair[1]));
    assert!(document.contains("{\n      \"action\": \"left_half\",\n      \"modifiers\": 3,\n      \"virtual_key\": 37\n    }"));
    assert!(document.ends_with("  \"restore_on_display_change\": true\n}\n"));
}
