use quboid::config::{AppConfig, CONFIG_FILE_NAME, INSTALLED_DIRECTORY_NAME};
use quboid::document::ConfigStorageError;
use quboid::storage::{
    load_document, path_with_suffix, startup_command, unsupported_sections_path, InstalledConfigAdapter,
    PortableConfigAdapter, StorageLocation,
};
use std::path::Path;

#[test]
fn adapters_use_portable_and_installed_locations() {
    let directory = Path::new("settings-root");
    let portable = PortableConfigAdapter::new("settings-root");
    let installed = InstalledConfigAdapter::new("settings-root");

    assert_eq!(Path::new(portable.config_path()), directory.join(CONFIG_FILE_NAME));
    assert_eq!(
        Path::new(installed.config_path()),
        directory.join(INSTALLED_DIRECTORY_NAME).join(CONFIG_FILE_NAME)
    );
    assert_ne!(portable.config_path(), installed.config_path());
}

#[test]
fn the_sidecar_sits_next_to_the_document() {
    assert_eq!(unsupported_sections_path("dir/config.json"), "dir/config.json.unsupported.json");
    assert_eq!(path_with_suffix("dir/config.json", ".bak"), "dir/config.json.bak");
}

#[test]
fn missing_file_loads_defaults() {
    let imported = load_document(None).unwrap();
    assert_eq!(imported.config, AppConfig::default());
    assert!(imported.defaulted, "a load without a document must report that nothing was stored yet");
}

#[test]
fn a_stored_document_is_not_reported_as_defaulted() {
    let json = quboid::document::export_json(&AppConfig::default()).unwrap();
    let loaded = load_document(Some(&json)).unwrap();
    assert!(!loaded.defaulted);
    assert_eq!(loaded.config, AppConfig::default());
}

#[test]
fn an_oversized_document_is_refused_on_load() {
    let oversized = vec![b' '; quboid::config::MAX_CONFIG_BYTES + 1];
    assert!(matches!(load_document(Some(&oversized)), Err(ConfigStorageError::TooLarge { .. })));
}

#[test]
fn locations_answer_for_their_own_kind_only() {
    let portable = StorageLocation::Portable { directory: "app".to_owned() };
    let installed = StorageLocation::Installed { app_data: "roaming".to_owned() };
    assert_eq!(portable.portable_directory(), Some("app"));
    assert_eq!(portable.app_data_root(), None);
    assert_eq!(installed.app_data_root(), Some("roaming"));
    assert_eq!(installed.portable_directory(), None);
    assert_eq!(Path::new(&portable.log_directory_in(None, "Quboid").unwrap()), Path::new("app").join("logs"));
    assert_eq!(
        Path::new(&installed.log_directory_in(Some("local"), "Quboid").unwrap()),
        Path::new("local").join("Quboid").join("logs")
    );
    assert!(installed.log_directory_in(None, "Quboid").is_err());
}

#[test]
fn the_startup_entry_quotes_the_executable() {
    assert_eq!(startup_command("C:\\Apps\\Quboid\\quboid.exe"), "\"C:\\Apps\\Quboid\\quboid.exe\"");
}

#[test]
fn a_portable_flag_chooses_the_executable_directory() {
    assert_eq!(
        StorageLocation::location_for(true, "D:\\Tools\\Quboid", Some("C:\\Users\\me\\AppData\\Roaming")),
        Ok(StorageLocation::Portable { directory: "D:\\Tools\\Quboid".to_owned() })
    );
    assert_eq!(
        StorageLocation::location_for(true, "D:\\Tools\\Quboid", None),
        Ok(StorageLocation::Portable { directory: "D:\\Tools\\Quboid".to_owned() })
    );
}

#[test]
fn without_a_portable_flag_the_roaming_data_root_is_used() {
    assert_eq!(
        StorageLocation::location_for(false, "C:\\Program Files\\Quboid", Some("C:\\Users\\me\\AppData\\Roaming")),
        Ok(StorageLocation::Installed { app_data: "C:\\Users\\me\\AppData\\Roaming".to_owned() })
    );
    assert_eq!(
        StorageLocation::location_for(false, "C:\\Program Files\\Quboid", None),
        Err("APPDATA is not available".to_owned())
    );
}
