//! Where the settings document lives, what loading it gives, and the few
//! texts the shell derives from the product name and the locale.

use vstd::prelude::*;
use vstd::string::StringExecFns;

use crate::config::{
    default_config, AppConfig, Language, CONFIG_FILE_NAME, INSTALLED_DIRECTORY_NAME,
    UNSUPPORTED_SECTIONS_FILE_SUFFIX,
};
use crate::document::{
    import_document, imported_bytes, import_matches, names_of, ConfigImport, ConfigStorageError,
};

verus! {

/// The path `std::path::Path::join` makes of `base` and `name`, with the
/// separator of the platform it runs on.
pub uninterp spec fn joined_path(base: Seq<char>, name: Seq<char>) -> Seq<char>;

/// `Path::join` on paths held as text.
#[verifier::external_body]
fn join_path(base: &str, name: &str) -> (path: String)
    ensures
        path@ == joined_path(base@, name@),
{
    std::path::Path::new(base).join(name).to_string_lossy().into_owned()
}

/// The document of an installed copy: `Quboid/config.json` under the roaming
/// application data root.
pub open spec fn installed_path(app_data_root: Seq<char>) -> Seq<char> {
    joined_path(joined_path(app_data_root, INSTALLED_DIRECTORY_NAME@), CONFIG_FILE_NAME@)
}

/// The document of a portable copy: `config.json` next to the executable.
pub open spec fn portable_path(executable_directory: Seq<char>) -> Seq<char> {
    joined_path(executable_directory, CONFIG_FILE_NAME@)
}

/// The settings of an installed copy.
#[derive(Clone, Debug, PartialEq, Eq)]
pub struct InstalledConfigAdapter {
    path: String,
}

impl InstalledConfigAdapter {
    pub closed spec fn path_view(&self) -> Seq<char> {
        self.path@
    }

    pub fn new(app_data_root: &str) -> (adapter: Self)
        ensures
            adapter.path_view() == installed_path(app_data_root@),
    {
        let directory = join_path(app_data_root, INSTALLED_DIRECTORY_NAME);
        InstalledConfigAdapter { path: join_path(directory.as_str(), CONFIG_FILE_NAME) }
    }

    pub fn config_path(&self) -> (path: &str)
        ensures
            path@ == self.path_view(),
    {
        self.path.as_str()
    }
}

/// The settings of a portable copy.
#[derive(Clone, Debug, PartialEq, Eq)]
pub struct PortableConfigAdapter {
    path: String,
}

impl PortableConfigAdapter {
    pub closed spec fn path_view(&self) -> Seq<char> {
        self.path@
    }

    pub fn new(executable_directory: &str) -> (adapter: Self)
        ensures
            adapter.path_view() == portable_path(executable_directory@),
    {
        PortableConfigAdapter { path: join_path(executable_directory, CONFIG_FILE_NAME) }
    }

    pub fn config_path(&self) -> (path: &str)
        ensures
            path@ == self.path_view(),
    {
        self.path.as_str()
    }
}

/// `path` with `suffix` appended to its last component.
pub fn path_with_suffix(path: &str, suffix: &str) -> (named: String)
    ensures
        named@ == path@ + suffix@,
{
    let mut named = path.to_owned();
    named.append(suffix);
    named
}

/// The sidecar that keeps the sections of `config_path` this build cannot
/// represent.
pub fn unsupported_sections_path(config_path: &str) -> (path: String)
    ensures
        path@ == config_path@ + UNSUPPORTED_SECTIONS_FILE_SUFFIX@,
{
    path_with_suffix(config_path, UNSUPPORTED_SECTIONS_FILE_SUFFIX)
}

/// What loading the document gives: the built-in defaults, marked as such,
/// when there is none; otherwise what reading it gives.
pub fn load_document(document: Option<&[u8]>) -> (loaded: Result<ConfigImport, ConfigStorageError>)
    ensures
        match document {
            None => loaded matches Ok(imported) && imported.config@ == default_config()
                && imported.discarded_sections@.len() == 0 && imported.archived_sections is None
                && imported.defaulted,
            Some(json) => import_matches(loaded, imported_bytes(json@)),
        },
{
    match document {
        None => Ok(ConfigImport::new(AppConfig::default()).defaulted()),
        Some(json) => import_document(json),
    }
}

/// Where a distribution keeps its documents and logs.
#[derive(Clone, Debug, PartialEq, Eq)]
pub enum StorageLocation {
    /// Installed next to the user's roaming application data.
    Installed { app_data: String },
    /// Portable: everything lives next to the executable.
    Portable { directory: String },
}

impl StorageLocation {
    /// The location of a copy whose executable lies in `directory`: portable
    /// when a portable flag sits there, else installed under the roaming
    /// application data root, which must then be known.
    pub fn location_for(portable_flag: bool, directory: &str, app_data: Option<&str>) -> (location: Result<
        StorageLocation,
        String,
    >)
        ensures
            portable_flag ==> (location matches Ok(StorageLocation::Portable { directory: d }) && d@ == directory@),
            !portable_flag ==> match app_data {
                Some(root) => (location matches Ok(StorageLocation::Installed { app_data: a }) && a@ == root@),
                None => (location matches Err(message) && message@ == "APPDATA is not available"@),
            },
    {
        if portable_flag {
            return Ok(StorageLocation::Portable { directory: directory.to_owned() });
        }
        match app_data {
            Some(root) => Ok(StorageLocation::Installed { app_data: root.to_owned() }),
            None => Err("APPDATA is not available".to_owned()),
        }
    }

    /// The directory a portable document lives in, if this location is portable.
    pub fn portable_directory(&self) -> (directory: Option<&str>)
        ensures
            match self {
                StorageLocation::Portable { directory: d } => directory matches Some(found) && found@ == d@,
                StorageLocation::Installed { .. } => directory is None,
            },
    {
        match self {
            StorageLocation::Portable { directory } => Some(directory.as_str()),
            StorageLocation::Installed { .. } => None,
        }
    }

    /// The roaming application data root, if this location is an installation.
    pub fn app_data_root(&self) -> (root: Option<&str>)
        ensures
            match self {
                StorageLocation::Installed { app_data } => root matches Some(found) && found@ == app_data@,
                StorageLocation::Portable { .. } => root is None,
            },
    {
        match self {
            StorageLocation::Installed { app_data } => Some(app_data.as_str()),
            StorageLocation::Portable { .. } => None,
        }
    }

    /// The log directory for `product_directory`: `logs` next to a portable
    /// executable, or `<product_directory>/logs` under the local application
    /// data root of an installation, which must be known.
    pub fn log_directory_in(&self, local_app_data: Option<&str>, product_directory: &str) -> (directory: Result<
        String,
        String,
    >)
        ensures
            match self {
                StorageLocation::Portable { directory: d } => directory matches Ok(found) && found@ == joined_path(
                    d@,
                    "logs"@,
                ),
                StorageLocation::Installed { .. } => match local_app_data {
                    Some(root) => directory matches Ok(found) && found@ == joined_path(
                        joined_path(root@, product_directory@),
                        "logs"@,
                    ),
                    None => (directory matches Err(message) && message@ == "LOCALAPPDATA is not available"@),
                },
            },
    {
        match self {
            StorageLocation::Portable { directory } => Ok(join_path(directory.as_str(), "logs")),
            StorageLocation::Installed { .. } => match local_app_data {
                Some(root) => {
                    let product = join_path(root, product_directory);
                    Ok(join_path(product.as_str(), "logs"))
                },
                None => Err("LOCALAPPDATA is not available".to_owned()),
            },
        }
    }
}

/// The labels of the tray menu: opening the window, and leaving.
pub open spec fn tray_label_texts(language: Language, product: Seq<char>) -> (Seq<char>, Seq<char>) {
    match language {
        Language::Italian => ("Apri "@ + product, "Esci"@),
        Language::English => ("Open "@ + product, "Exit"@),
    }
}

pub fn tray_labels(language: Language, product: &str) -> (labels: (String, String))
    ensures
        (labels.0@, labels.1@) == tray_label_texts(language, product@),
{
    match language {
        Language::Italian => {
            let mut open = "Apri ".to_owned();
            open.append(product);
            (open, "Esci".to_owned())
        },
        Language::English => {
            let mut open = "Open ".to_owned();
            open.append(product);
            (open, "Exit".to_owned())
        },
    }
}

/// The interface language for the user locale Windows reports, English when
/// it reports none.
pub fn system_language(user_locale: Option<&str>) -> (language: Language)
    ensures
        language == match user_locale {
            Some(tag) => crate::config::language_of_tag(tag@),
            None => Language::English,
        },
{
    match user_locale {
        Some(tag) => Language::from_locale_tag(tag),
        None => Language::English,
    }
}

/// The command line the startup entry runs: the executable's path in quotes.
pub fn startup_command(executable: &str) -> (command: String)
    ensures
        command@ == "\""@ + executable@ + "\""@,
{
    let mut command = "\"".to_owned();
    command.append(executable);
    command.append("\"");
    command
}

} // verus!
