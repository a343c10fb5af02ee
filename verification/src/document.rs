//! Reading and writing settings documents: the size limit, the nested shape
//! another distribution writes, schema migration, and what is reported as
//! discarded along the way.

use vstd::prelude::*;
use vstd::multiset::Multiset;

use crate::config::{
    default_config, is_valid_config, legacy_default_hotkeys, legacy_defaults, rectangle_default_hotkeys,
    rectangle_defaults, validation, config_error_text, AppConfig, ConfigError, ConfigView, HotkeyBinding, CURRENT_SCHEMA_VERSION,
    DEFAULT_SNAP_THRESHOLD, MAX_CONFIG_BYTES,
};
use crate::json::{
    ascending_keys, canonical, distinct_keys, json_of_bytes, key_before, member_models, within_depth, models, parse_json,
    pretty_bytes, pretty_json, pretty_map, pretty_map_bytes, Json, JsonModel, JsonNumber, NumberModel,
};
use crate::members::{
    clone_json, find_member, get_member, insert_member, json_equal, lemma_lookup_beside_member,
    lemma_lookup_beside_removal, lemma_lookup_with_member,
    lemma_member_models,
    lemma_models,
    lemma_position_is_first, lemma_prefix_step, lookup, remove_member, same_text, with_member, without_member, Members,
};
use crate::keys::{decimal, push_decimal};
use vstd::string::StringExecFns;
use crate::schema::{
    binding_model, config_from, config_members, config_model, config_of, config_to_members, hotkeys_model, hotkeys_to_json,
    hotkeys_from, lemma_config_round_trip, lemma_fields_are_read, lemma_hotkeys_round_trip, unsigned,
};

verus! {

/// Sections that older documents stored alongside the Base settings and that
/// this build cannot represent, in the order they are looked for.
pub open spec fn unsupported_sections() -> Seq<Seq<char>> {
    seq!["layouts"@, "application_rules"@, "action_cycles"@]
}

/// Why a document could not be read or written.
#[derive(Clone, Debug, PartialEq, Eq)]
pub enum ConfigStorageError {
    /// Reading or writing the file failed.
    Io(String),
    /// The document is not JSON, or not the shape of a settings document.
    Json(String),
    /// The settings break a rule.
    InvalidConfig(ConfigError),
    /// The document is larger than a settings document may be.
    TooLarge { actual: u64, maximum: usize },
    /// The document has no usable `schema_version`.
    MissingSchemaVersion,
    /// The host refused the settings.
    Rejected(String),
}

/// How a failure is described to the user.
pub open spec fn storage_error_text(error: ConfigStorageError) -> Seq<char> {
    match error {
        ConfigStorageError::Io(message) => "configuration I/O failed: "@ + message@,
        ConfigStorageError::Json(message) => "configuration JSON is invalid: "@ + message@,
        ConfigStorageError::InvalidConfig(e) => config_error_text(e),
        ConfigStorageError::TooLarge { actual, maximum } => "configuration is "@ + decimal(actual as nat)
            + " bytes; maximum size is "@ + decimal(maximum as nat) + " bytes"@,
        ConfigStorageError::MissingSchemaVersion => "configuration has no valid schema_version"@,
        ConfigStorageError::Rejected(message) => "configuration was rejected: "@ + message@,
    }
}

impl ConfigStorageError {
    /// The description of the failure.
    pub fn message(&self) -> (message: String)
        ensures
            message@ == storage_error_text(*self),
    {
        match self {
            ConfigStorageError::Io(detail) => {
                let mut message = "configuration I/O failed: ".to_owned();
                message.append(detail.as_str());
                message
            },
            ConfigStorageError::Json(detail) => {
                let mut message = "configuration JSON is invalid: ".to_owned();
                message.append(detail.as_str());
                message
            },
            ConfigStorageError::InvalidConfig(error) => error.message(),
            ConfigStorageError::TooLarge { actual, maximum } => {
                let mut message = "configuration is ".to_owned();
                push_decimal(&mut message, *actual);
                message.append(" bytes; maximum size is ");
                push_decimal(&mut message, *maximum as u64);
                message.append(" bytes");
                message
            },
            ConfigStorageError::MissingSchemaVersion => "configuration has no valid schema_version".to_owned(),
            ConfigStorageError::Rejected(detail) => {
                let mut message = "configuration was rejected: ".to_owned();
                message.append(detail.as_str());
                message
            },
        }
    }
}

/// The kind of a failure, without the messages some of them carry.
pub enum Failure {
    Json,
    Invalid(ConfigError),
    TooLarge(nat),
    MissingSchemaVersion,
}

pub open spec fn failure_of(error: ConfigStorageError) -> Option<Failure> {
    match error {
        ConfigStorageError::Json(_) => Some(Failure::Json),
        ConfigStorageError::InvalidConfig(e) => Some(Failure::Invalid(e)),
        ConfigStorageError::TooLarge { actual, maximum } => if maximum == MAX_CONFIG_BYTES {
            Some(Failure::TooLarge(actual as nat))
        } else {
            None
        },
        ConfigStorageError::MissingSchemaVersion => Some(Failure::MissingSchemaVersion),
        _ => None,
    }
}

/// The outcome of reading a configuration document: the settings this build
/// understands, plus the sections it could not represent.
#[derive(Clone, Debug, PartialEq, Eq)]
pub struct ConfigImport {
    pub config: AppConfig,
    pub discarded_sections: Vec<String>,
    /// Where those sections were archived, when reading a stored document had
    /// to leave them behind. The archive is written once and never rewritten.
    pub archived_sections: Option<String>,
    /// Whether no document existed and the settings are the built-in defaults,
    /// the one moment a caller may still choose for the user.
    pub defaulted: bool,
}

pub open spec fn names_of(names: Seq<String>) -> Seq<Seq<char>> {
    names.map_values(|name: String| name@)
}

impl ConfigImport {
    pub fn new(config: AppConfig) -> (imported: Self)
        ensures
            imported.config@ == config@,
            imported.discarded_sections@.len() == 0,
            imported.archived_sections is None,
            !imported.defaulted,
    {
        ConfigImport { config, discarded_sections: Vec::new(), archived_sections: None, defaulted: false }
    }

    /// The same outcome, marked as built-in defaults.
    pub fn defaulted(self) -> (imported: Self)
        ensures
            imported.config@ == self.config@,
            imported.discarded_sections@ == self.discarded_sections@,
            imported.archived_sections == self.archived_sections,
            imported.defaulted,
    {
        ConfigImport { defaulted: true, ..self }
    }
}

/// A member that holds nothing: `null`, an empty array or an empty object.
pub open spec fn empty_section(value: JsonModel) -> bool {
    match value {
        JsonModel::Null => true,
        JsonModel::Array(items) => items.len() == 0,
        JsonModel::Object(members) => members.len() == 0,
        _ => false,
    }
}

/// Whether the document keeps the Base settings in a nested `base` object, the
/// shape another distribution writes when it stores its own settings beside them.
pub open spec fn is_nested(value: JsonModel) -> bool {
    match value {
        JsonModel::Object(members) => lookup(members, "base"@) matches Some(JsonModel::Object(_)),
        _ => false,
    }
}

/// The names of the members that belong to another distribution: every member
/// but the schema version and the empty ones.
pub open spec fn foreign_sections(members: Members) -> Seq<Seq<char>>
    decreases members.len(),
{
    if members.len() == 0 {
        Seq::empty()
    } else {
        let rest = foreign_sections(members.drop_last());
        let (name, value) = members.last();
        if name != "schema_version"@ && !empty_section(value) {
            rest.push(name)
        } else {
            rest
        }
    }
}

/// The Base settings of a nested document, and the sections stored beside them.
pub open spec fn split_nested(members: Members) -> (JsonModel, Seq<Seq<char>>) {
    (lookup(members, "base"@)->0, foreign_sections(without_member(members, "base"@)))
}

/// The `schema_version` of a document, which must be a number this build can
/// migrate from.
pub open spec fn schema_version_of(value: JsonModel) -> Result<u32, Failure> {
    match value {
        JsonModel::Object(members) => match lookup(members, "schema_version"@) {
            Some(JsonModel::Number(NumberModel::Unsigned(n))) => if n > u32::MAX {
                Err(Failure::MissingSchemaVersion)
            } else if n > CURRENT_SCHEMA_VERSION {
                Err(Failure::Invalid(ConfigError::FutureVersion(n as u32)))
            } else {
                Ok(n as u32)
            },
            _ => Err(Failure::MissingSchemaVersion),
        },
        _ => Err(Failure::MissingSchemaVersion),
    }
}

/// Version 2 adds the gap and the snap threshold, at their defaults.
pub open spec fn to_v2(members: Members) -> Members {
    with_member(
        with_member(with_member(members, "schema_version"@, unsigned(2)), "gap"@, unsigned(0)),
        "snap_threshold"@,
        unsigned(DEFAULT_SNAP_THRESHOLD as int),
    )
}

/// Version 3 replaces the first default shortcuts with the Rectangle set, and
/// keeps any other list of shortcuts.
pub open spec fn to_v3(members: Members) -> Members {
    let upgraded = if lookup(members, "hotkeys"@) == Some(hotkeys_model(legacy_defaults())) {
        with_member(members, "hotkeys"@, hotkeys_model(rectangle_defaults()))
    } else {
        members
    };
    with_member(upgraded, "schema_version"@, unsigned(3))
}

/// Drops one unsupported section, recording its name when it held something.
pub open spec fn drop_section(state: (Members, Seq<Seq<char>>), name: Seq<char>) -> (Members, Seq<Seq<char>>) {
    match lookup(state.0, name) {
        Some(value) => (
            without_member(state.0, name),
            if empty_section(value) {
                state.1
            } else {
                state.1.push(name)
            },
        ),
        None => state,
    }
}

/// Version 4 keeps only the settings this build owns; the sections that
/// belonged to other features are dropped and, when not empty, reported.
pub open spec fn to_v4(members: Members) -> (Members, Seq<Seq<char>>) {
    let names = unsupported_sections();
    let dropped = drop_section(drop_section(drop_section((members, Seq::empty()), names[0]), names[1]), names[2]);
    (with_member(dropped.0, "schema_version"@, unsigned(4)), dropped.1)
}

/// Version 5 records whether a display change puts windows back, on by default.
pub open spec fn to_v5(members: Members) -> Members {
    with_member(with_member(members, "restore_on_display_change"@, JsonModel::Bool(true)), "schema_version"@, unsigned(5))
}

/// One migration step from `version` to the next.
pub open spec fn migration_step(value: JsonModel, version: u32) -> Result<(JsonModel, Seq<Seq<char>>), Failure> {
    if version < 1 || version > 4 {
        Err(Failure::Invalid(ConfigError::UnsupportedVersion(version)))
    } else {
        match value {
            JsonModel::Object(members) => if version == 1 {
                Ok((JsonModel::Object(to_v2(members)), Seq::empty()))
            } else if version == 2 {
                Ok((JsonModel::Object(to_v3(members)), Seq::empty()))
            } else if version == 3 {
                Ok((JsonModel::Object(to_v4(members).0), to_v4(members).1))
            } else {
                Ok((JsonModel::Object(to_v5(members)), Seq::empty()))
            },
            _ => Err(Failure::MissingSchemaVersion),
        }
    }
}

/// Every step from `version` to the current one, with the sections they dropped.
pub open spec fn migrated(value: JsonModel, version: u32) -> Result<(JsonModel, Seq<Seq<char>>), Failure>
    decreases CURRENT_SCHEMA_VERSION - version,
{
    if version >= CURRENT_SCHEMA_VERSION {
        Ok((value, Seq::empty()))
    } else {
        match migration_step(value, version) {
            Err(e) => Err(e),
            Ok((next, dropped)) => match migrated(next, (version + 1) as u32) {
                Err(e) => Err(e),
                Ok((last, later)) => Ok((last, dropped + later)),
            },
        }
    }
}

/// What reading a parsed document gives: its settings and the sections left behind.
pub open spec fn imported(value: JsonModel) -> Result<(ConfigView, Seq<Seq<char>>), Failure> {
    let (base, foreign) = if is_nested(value) {
        match value {
            JsonModel::Object(members) => split_nested(members),
            _ => (value, Seq::empty()),
        }
    } else {
        (value, Seq::empty())
    };
    match schema_version_of(base) {
        Err(e) => Err(e),
        Ok(version) => match migrated(base, version) {
            Err(e) => Err(e),
            Ok((current, dropped)) => match config_from(current) {
                None => Err(Failure::Json),
                Some(config) => match validation(config) {
                    Err(e) => Err(Failure::Invalid(e)),
                    Ok(_) => Ok((config, foreign + dropped)),
                },
            },
        },
    }
}

/// What reading a document's bytes gives.
pub open spec fn imported_bytes(bytes: Seq<u8>) -> Result<(ConfigView, Seq<Seq<char>>), Failure> {
    if bytes.len() > MAX_CONFIG_BYTES {
        Err(Failure::TooLarge(bytes.len()))
    } else {
        match json_of_bytes(bytes) {
            None => Err(Failure::Json),
            Some(value) => imported(value),
        }
    }
}

/// `result` is the outcome `expected` describes.
pub open spec fn import_matches(
    result: Result<ConfigImport, ConfigStorageError>,
    expected: Result<(ConfigView, Seq<Seq<char>>), Failure>,
) -> bool {
    match (result, expected) {
        (Ok(imported), Ok((config, discarded))) => {
            &&& imported.config@ == config
            &&& names_of(imported.discarded_sections@) == discarded
            &&& imported.archived_sections is None
            &&& !imported.defaulted
        },
        (Err(error), Err(failure)) => failure_of(error) == Some(failure),
        _ => false,
    }
}

/// A shortcut is written with its keys in ascending order and integer numbers.
proof fn lemma_binding_model_is_canonical(binding: HotkeyBinding)
    ensures
        canonical(binding_model(binding)),
{
    reveal_strlit("action");
    reveal_strlit("modifiers");
    reveal_strlit("virtual_key");
    let keys = seq!["action"@, "modifiers"@, "virtual_key"@];
    assert(keys[0].len() > 0 && keys[1].len() > 0 && keys[2].len() > 0);
    assert(keys[0][0] == 'a' && keys[1][0] == 'm' && keys[2][0] == 'v');
    assert(('a' as u32) < ('m' as u32) && ('m' as u32) < ('v' as u32));
    let m = binding_model(binding)->Object_0;
    assert forall|i: int, j: int| 0 <= i < j < 3 implies key_before(#[trigger] m[i].0, #[trigger] m[j].0) by {
        assert(m[i].0 == keys[i] && m[j].0 == keys[j]);
    }
    assert forall|i: int| 0 <= i < 3 implies canonical(#[trigger] m[i].1) by {}
}

/// The value a written configuration is read back as holds no floating-point
/// number and lists the keys of every object in ascending order, each once.
pub proof fn lemma_config_model_is_canonical(config: ConfigView)
    ensures
        canonical(config_model(config)),
        within_depth(config_model(config), 127),
{
    reveal_strlit("drag_snap_enabled");
    reveal_strlit("gap");
    reveal_strlit("hotkeys");
    reveal_strlit("language");
    reveal_strlit("launch_at_login");
    reveal_strlit("restore_on_display_change");
    reveal_strlit("schema_version");
    reveal_strlit("snap_threshold");
    let d = "drag_snap_enabled"@;
    let g = "gap"@;
    let h = "hotkeys"@;
    let la = "language"@;
    let lu = "launch_at_login"@;
    let r = "restore_on_display_change"@;
    let sc = "schema_version"@;
    let sn = "snap_threshold"@;
    let keys = seq![d, g, h, la, lu, r, sc, sn];
    assert(d[0] == 'd' && g[0] == 'g' && h[0] == 'h' && la[0] == 'l' && lu[0] == 'l');
    assert(r[0] == 'r' && sc[0] == 's' && sn[0] == 's');
    assert forall|i: int| 0 <= i < 8 implies (#[trigger] keys[i]).len() > 1 by {}
    let la1 = la.drop_first();
    let lu1 = lu.drop_first();
    assert(la1.drop_first()[0] == 'n' && lu1.drop_first()[0] == 'u');
    assert(key_before(la1.drop_first(), lu1.drop_first()));
    assert(la1[0] == lu1[0]);
    assert(key_before(la1, lu1));
    assert(key_before(la, lu));
    assert(sc.drop_first()[0] == 'c' && sn.drop_first()[0] == 'n');
    assert(key_before(sc.drop_first(), sn.drop_first()));
    assert(key_before(sc, sn));
    assert forall|i: int, j: int| 0 <= i < j < 8 implies key_before(#[trigger] keys[i], #[trigger] keys[j]) by {
        if !(i == 3 && j == 4) && !(i == 6 && j == 7) {
            assert((keys[i][0] as u32) < (keys[j][0] as u32));
        }
    }
    let items = config.hotkeys.map_values(|binding: HotkeyBinding| binding_model(binding));
    assert forall|i: int| 0 <= i < items.len() implies canonical(#[trigger] items[i]) by {
        lemma_binding_model_is_canonical(config.hotkeys[i]);
    }
    let m = config_model(config)->Object_0;
    assert(canonical(hotkeys_model(config.hotkeys)));
    assert forall|i: int, j: int| 0 <= i < j < m.len() implies key_before(#[trigger] m[i].0, #[trigger] m[j].0) by {
        assert(m[i].0 == keys[i] && m[j].0 == keys[j]);
    }
    assert forall|i: int| 0 <= i < m.len() implies canonical(#[trigger] m[i].1) by {}
    assert forall|i: int| 0 <= i < items.len() implies within_depth(#[trigger] items[i], 125) by {
        let b = items[i]->Object_0;
        assert forall|j: int| 0 <= j < b.len() implies within_depth(#[trigger] b[j].1, 124) by {}
    }
    assert(within_depth(hotkeys_model(config.hotkeys), 126));
    assert forall|i: int| 0 <= i < m.len() implies within_depth(#[trigger] m[i].1, 126) by {}
}

/// The members a configuration is written as name each key once, hold no
/// floating-point number or object with keys out of order, nest well below
/// the parser's limit, and are, in ascending key order, the members of
/// `config_model`.
pub proof fn lemma_written_members_sort_to_config_model(config: ConfigView)
    ensures
        distinct_keys(config_members(config)),
        forall|i: int| 0 <= i < config_members(config).len() ==> canonical(#[trigger] config_members(config)[i].1)
            && within_depth(config_members(config)[i].1, 126),
        ascending_keys(config_model(config)->Object_0),
        config_model(config)->Object_0.to_multiset() == config_members(config).to_multiset(),
{
    lemma_config_model_is_canonical(config);
    reveal_strlit("drag_snap_enabled");
    reveal_strlit("gap");
    reveal_strlit("hotkeys");
    reveal_strlit("language");
    reveal_strlit("launch_at_login");
    reveal_strlit("restore_on_display_change");
    reveal_strlit("schema_version");
    reveal_strlit("snap_threshold");
    let w = config_members(config);
    let m = config_model(config)->Object_0;
    let place = seq![6int, 3, 4, 0, 2, 1, 7, 5];
    assert forall|i: int| 0 <= i < 8 implies #[trigger] w[i] == m[place[i]] by {}
    assert forall|i: int| 0 <= i < w.len() implies canonical(#[trigger] w[i].1) && within_depth(w[i].1, 126) by {
        assert(w[i] == m[place[i]]);
    }
    assert forall|i: int, j: int| 0 <= i < j < w.len() implies #[trigger] w[i].0 != #[trigger] w[j].0 by {
        if w[i].0.len() == w[j].0.len() {
            assert(w[i].0[0] != w[j].0[0] || w[i].0[1] != w[j].0[1]);
        }
    }
    broadcast use vstd::seq_lib::group_to_multiset_ensures;
    let e = Seq::<(Seq<char>, JsonModel)>::empty();
    let sorted = e.push(m[0]).push(m[1]).push(m[2]).push(m[3]).push(m[4]).push(m[5]).push(m[6]).push(m[7]);
    let written = e.push(m[6]).push(m[3]).push(m[4]).push(m[0]).push(m[2]).push(m[1]).push(m[7]).push(m[5]);
    assert(sorted =~= m);
    assert(written =~= w);
    let z = Multiset::<(Seq<char>, JsonModel)>::empty();
    assert(sorted.to_multiset() =~= z.insert(m[0]).insert(m[1]).insert(m[2]).insert(m[3]).insert(m[4]).insert(m[5])
        .insert(m[6]).insert(m[7]));
    assert(written.to_multiset() =~= z.insert(m[6]).insert(m[3]).insert(m[4]).insert(m[0]).insert(m[2]).insert(m[1])
        .insert(m[7]).insert(m[5]));
    assert(m.to_multiset() =~= w.to_multiset());
}

/// Reading the value a valid configuration is read back as gives that
/// configuration, with nothing discarded.
pub proof fn lemma_written_config_reads_back(config: ConfigView)
    requires
        validation(config) is Ok,
    ensures
        imported(config_model(config)) == Ok::<(ConfigView, Seq<Seq<char>>), Failure>((config, Seq::empty())),
{
    lemma_config_round_trip(config);
    reveal_strlit("drag_snap_enabled");
    reveal_strlit("gap");
    reveal_strlit("hotkeys");
    reveal_strlit("language");
    reveal_strlit("launch_at_login");
    reveal_strlit("restore_on_display_change");
    reveal_strlit("schema_version");
    reveal_strlit("snap_threshold");
    reveal_strlit("base");
    let m = config_model(config)->Object_0;
    assert(m.len() == 8);
    assert(forall|i: int| 0 <= i < 8 ==> (#[trigger] m[i].0).len() != 4);
    lemma_position_is_first(m, "base"@, 8);
    assert forall|j: int| 0 <= j < 6 implies (#[trigger] m[j].0) != "schema_version"@ by {
        assert(m[j].0.len() != 14 || m[j].0[1] != 'c');
    }
    lemma_position_is_first(m, "schema_version"@, 6);
    assert(!is_nested(config_model(config)));
    assert(schema_version_of(config_model(config)) == Ok::<u32, Failure>(CURRENT_SCHEMA_VERSION));
    assert(Seq::<Seq<char>>::empty() + Seq::<Seq<char>>::empty() =~= Seq::<Seq<char>>::empty());
}

/// The members a load left behind that `members` holds at its top level, in
/// the order of `sections`.
pub open spec fn carried_sections(members: Members, sections: Seq<Seq<char>>) -> Members
    decreases sections.len(),
{
    if sections.len() == 0 {
        Seq::empty()
    } else {
        let carried = carried_sections(members, sections.drop_last());
        match lookup(members, sections.last()) {
            Some(value) => with_member(carried, sections.last(), value),
            None => carried,
        }
    }
}

/// The document that keeps what a load left behind: the sections the document
/// holds, with its schema version; none when it holds none of them or is not
/// an object.
pub open spec fn archive_of(document: Option<JsonModel>, sections: Seq<Seq<char>>) -> Option<JsonModel> {
    match document {
        Some(JsonModel::Object(members)) => {
            let carried = carried_sections(members, sections);
            if carried.len() == 0 {
                None
            } else {
                Some(
                    JsonModel::Object(
                        match lookup(members, "schema_version"@) {
                            Some(version) => with_member(carried, "schema_version"@, version),
                            None => carried,
                        },
                    ),
                )
            }
        },
        _ => None,
    }
}

/// The bytes of the sidecar that keeps the sections of `json` this build
/// cannot represent, so that a later save does not lose them; `None` when there
/// is nothing to keep, or the sidecar would be larger than a document may be.
pub fn archive_document(json: &[u8], sections: &[String]) -> (archive: Option<Vec<u8>>)
    ensures
        match archive_of(json_of_bytes(json@), names_of(sections@)) {
            None => archive is None,
            Some(model) => if pretty_bytes(model).len() + 1 <= MAX_CONFIG_BYTES {
                (archive matches Some(bytes) && bytes@ == pretty_bytes(model).push(10u8))
            } else {
                archive is None
            },
        },
{
    let value = match parse_json(json) {
        Ok(value) => value,
        Err(_) => {
            return None;
        },
    };
    let members = match &value {
        Json::Object(members) => members,
        _ => {
            return None;
        },
    };
    let ghost m = member_models(members@);
    let mut carried: Vec<(String, Json)> = Vec::new();
    let mut i: usize = 0;
    assert(names_of(sections@).take(0) =~= Seq::<Seq<char>>::empty());
    assert(member_models(carried@) =~= Seq::<(Seq<char>, JsonModel)>::empty()) by {
        lemma_member_models(carried@);
    }
    while i < sections.len()
        invariant
            i <= sections@.len(),
            m == member_models(members@),
            member_models(carried@) == carried_sections(m, names_of(sections@).take(i as int)),
        decreases sections@.len() - i,
    {
        let ghost names = names_of(sections@);
        proof {
            assert(names.take(i + 1).drop_last() =~= names.take(i as int));
            assert(names.take(i + 1).last() == sections@[i as int]@);
        }
        match get_member(members, sections[i].as_str()) {
            Some(found) => {
                insert_member(&mut carried, sections[i].as_str(), clone_json(found));
            },
            None => {},
        }
        i = i + 1;
    }
    assert(names_of(sections@).take(i as int) =~= names_of(sections@));
    proof {
        lemma_member_models(carried@);
    }
    if carried.len() == 0 {
        return None;
    }
    match get_member(members, "schema_version") {
        Some(version) => {
            insert_member(&mut carried, "schema_version", clone_json(version));
        },
        None => {},
    }
    match serialize_document(&Json::Object(carried)) {
        Ok(bytes) => Some(bytes),
        Err(_) => None,
    }
}

/// The value a configuration is written as holds none of the sections this
/// build cannot represent: exporting never writes them back.
pub proof fn lemma_written_config_has_no_unsupported_section(config: ConfigView, k: int)
    requires
        0 <= k < 3,
    ensures
        lookup(config_members(config), unsupported_sections()[k]) is None,
{
    reveal_strlit("drag_snap_enabled");
    reveal_strlit("gap");
    reveal_strlit("hotkeys");
    reveal_strlit("language");
    reveal_strlit("launch_at_login");
    reveal_strlit("restore_on_display_change");
    reveal_strlit("schema_version");
    reveal_strlit("snap_threshold");
    reveal_strlit("layouts");
    reveal_strlit("application_rules");
    reveal_strlit("action_cycles");
    let m = config_members(config);
    let name = unsupported_sections()[k];
    assert(m.len() == 8);
    assert forall|j: int| 0 <= j < 8 implies (#[trigger] m[j].0) != name by {
        if m[j].0.len() == name.len() {
            assert(m[j].0[0] != name[0]);
        }
    }
    lemma_position_is_first(m, name, 8);
}

/// A migration from an older version ends with the flag for a display change
/// set to its default, whatever the document said of it before.
proof fn lemma_migration_sets_the_restore_default(value: JsonModel, version: u32)
    requires
        version < CURRENT_SCHEMA_VERSION,
        migrated(value, version) is Ok,
    ensures
        migrated(value, version)->Ok_0.0 matches JsonModel::Object(members) && lookup(members, "restore_on_display_change"@)
            == Some(JsonModel::Bool(default_config().restore_on_display_change)),
    decreases CURRENT_SCHEMA_VERSION - version,
{
    let next = migration_step(value, version)->Ok_0.0;
    assert(migrated(value, version)->Ok_0.0 == migrated(next, (version + 1) as u32)->Ok_0.0);
    if version + 1 < CURRENT_SCHEMA_VERSION {
        lemma_migration_sets_the_restore_default(next, (version + 1) as u32);
    } else {
        let members = value->Object_0;
        let key = "restore_on_display_change"@;
        let restored = with_member(members, key, JsonModel::Bool(true));
        lemma_lookup_with_member(members, key, JsonModel::Bool(true));
        reveal_strlit("restore_on_display_change");
        reveal_strlit("schema_version");
        assert(key.len() != "schema_version"@.len());
        lemma_lookup_beside_member(restored, "schema_version"@, unsigned(5), key);
        assert(next == JsonModel::Object(to_v5(members)));
        assert(migrated(next, (version + 1) as u32)->Ok_0.0 == next);
    }
}

/// A document written before the flag for a display change existed, or at
/// any older version, reads with that flag at its default: on.
pub proof fn lemma_older_documents_restore_by_default(value: JsonModel)
    requires
        imported(value) is Ok,
        schema_version_of(
            if is_nested(value) {
                split_nested(value->Object_0).0
            } else {
                value
            },
        ) matches Ok(version) && version < CURRENT_SCHEMA_VERSION,
    ensures
        imported(value)->Ok_0.0.restore_on_display_change == default_config().restore_on_display_change,
{
    let base = if is_nested(value) {
        split_nested(value->Object_0).0
    } else {
        value
    };
    let version = schema_version_of(base)->Ok_0;
    lemma_migration_sets_the_restore_default(base, version);
    let current = migrated(base, version)->Ok_0.0;
    let members = current->Object_0;
    lemma_fields_are_read(members);
}

/// The steps from version 2 on leave the gap and the snap threshold as they
/// found them, and those from version 3 on the shortcuts too.
proof fn lemma_later_steps_keep_member(value: JsonModel, version: u32, key: Seq<char>)
    requires
        2 <= version < CURRENT_SCHEMA_VERSION,
        migrated(value, version) is Ok,
        key == "gap"@ || key == "snap_threshold"@ || (key == "hotkeys"@ && version >= 3),
    ensures
        value matches JsonModel::Object(before) && migrated(value, version)->Ok_0.0 matches JsonModel::Object(after)
            && lookup(after, key) == lookup(before, key),
    decreases CURRENT_SCHEMA_VERSION - version,
{
    reveal_strlit("gap");
    reveal_strlit("snap_threshold");
    reveal_strlit("schema_version");
    reveal_strlit("hotkeys");
    reveal_strlit("restore_on_display_change");
    reveal_strlit("layouts");
    reveal_strlit("application_rules");
    reveal_strlit("action_cycles");
    assert("gap"@.len() == 3 && "snap_threshold"@.len() == 14 && "schema_version"@.len() == 14);
    assert("hotkeys"@.len() == 7 && "restore_on_display_change"@.len() == 25 && "layouts"@.len() == 7);
    assert("application_rules"@.len() == 17 && "action_cycles"@.len() == 13);
    assert("schema_version"@[1] != "snap_threshold"@[1]);
    assert("hotkeys"@[0] != "layouts"@[0]);
    let members = value->Object_0;
    let next = migration_step(value, version)->Ok_0.0;
    let stepped = next->Object_0;
    if version == 2 {
        let upgraded = if lookup(members, "hotkeys"@) == Some(hotkeys_model(legacy_defaults())) {
            with_member(members, "hotkeys"@, hotkeys_model(rectangle_defaults()))
        } else {
            members
        };
        lemma_lookup_beside_member(members, "hotkeys"@, hotkeys_model(rectangle_defaults()), key);
        lemma_lookup_beside_member(upgraded, "schema_version"@, unsigned(3), key);
    } else if version == 3 {
        let names = unsupported_sections();
        let first = drop_section((members, Seq::empty()), names[0]);
        let second = drop_section(first, names[1]);
        let third = drop_section(second, names[2]);
        lemma_lookup_beside_removal(members, names[0], key);
        lemma_lookup_beside_removal(first.0, names[1], key);
        lemma_lookup_beside_removal(second.0, names[2], key);
        lemma_lookup_beside_member(third.0, "schema_version"@, unsigned(4), key);
    } else {
        let restored = with_member(members, "restore_on_display_change"@, JsonModel::Bool(true));
        lemma_lookup_beside_member(members, "restore_on_display_change"@, JsonModel::Bool(true), key);
        lemma_lookup_beside_member(restored, "schema_version"@, unsigned(5), key);
    }
    assert(lookup(stepped, key) == lookup(members, key));
    assert(migrated(value, version)->Ok_0.0 == migrated(next, (version + 1) as u32)->Ok_0.0);
    if version + 1 < CURRENT_SCHEMA_VERSION {
        lemma_later_steps_keep_member(next, (version + 1) as u32, key);
    }
}

/// A document of the first version, which had no gap and no snap threshold,
/// reads with both at their defaults: no gap, and the default threshold.
pub proof fn lemma_first_version_documents_get_default_sizes(value: JsonModel)
    requires
        imported(value) is Ok,
        schema_version_of(
            if is_nested(value) {
                split_nested(value->Object_0).0
            } else {
                value
            },
        ) == Ok::<u32, Failure>(1),
    ensures
        imported(value)->Ok_0.0.gap == default_config().gap,
        imported(value)->Ok_0.0.snap_threshold == default_config().snap_threshold,
{
    let base = if is_nested(value) {
        split_nested(value->Object_0).0
    } else {
        value
    };
    reveal_strlit("gap");
    reveal_strlit("snap_threshold");
    reveal_strlit("schema_version");
    assert("gap"@.len() == 3 && "snap_threshold"@.len() == 14 && "schema_version"@.len() == 14);
    assert("schema_version"@[1] != "snap_threshold"@[1]);
    let members = base->Object_0;
    let next = migration_step(base, 1)->Ok_0.0;
    let versioned = with_member(members, "schema_version"@, unsigned(2));
    let gapped = with_member(versioned, "gap"@, unsigned(0));
    lemma_lookup_with_member(versioned, "gap"@, unsigned(0));
    lemma_lookup_beside_member(gapped, "snap_threshold"@, unsigned(DEFAULT_SNAP_THRESHOLD as int), "gap"@);
    lemma_lookup_with_member(gapped, "snap_threshold"@, unsigned(DEFAULT_SNAP_THRESHOLD as int));
    assert(next == JsonModel::Object(to_v2(members)));
    assert(migrated(base, 1)->Ok_0.0 == migrated(next, 2)->Ok_0.0);
    lemma_later_steps_keep_member(next, 2, "gap"@);
    lemma_later_steps_keep_member(next, 2, "snap_threshold"@);
    let current = migrated(base, 1)->Ok_0.0;
    lemma_fields_are_read(current->Object_0);
}

/// A document from before version 3 that still holds the first default
/// shortcuts reads with the Rectangle set in their place; one that holds any
/// other list of shortcuts reads with that list.
pub proof fn lemma_older_default_shortcuts_are_upgraded(value: JsonModel)
    requires
        imported(value) is Ok,
        schema_version_of(
            if is_nested(value) {
                split_nested(value->Object_0).0
            } else {
                value
            },
        ) matches Ok(version) && version < 3,
    ensures
        ({
            let base = if is_nested(value) {
                split_nested(value->Object_0).0
            } else {
                value
            };
            let written = lookup(base->Object_0, "hotkeys"@);
            &&& written == Some(hotkeys_model(legacy_defaults())) ==> imported(value)->Ok_0.0.hotkeys == rectangle_defaults()
            &&& written != Some(hotkeys_model(legacy_defaults())) ==> (written matches Some(list) && hotkeys_from(list)
                == Some(imported(value)->Ok_0.0.hotkeys))
        }),
{
    let base = if is_nested(value) {
        split_nested(value->Object_0).0
    } else {
        value
    };
    let version = schema_version_of(base)->Ok_0;
    reveal_strlit("gap");
    reveal_strlit("snap_threshold");
    reveal_strlit("schema_version");
    reveal_strlit("hotkeys");
    assert("gap"@.len() == 3 && "snap_threshold"@.len() == 14 && "schema_version"@.len() == 14 && "hotkeys"@.len() == 7);
    let hotkeys = "hotkeys"@;
    let members = base->Object_0;
    let written = lookup(members, hotkeys);
    let at_two = if version == 1 {
        migration_step(base, 1)->Ok_0.0
    } else {
        base
    };
    if version == 1 {
        let versioned = with_member(members, "schema_version"@, unsigned(2));
        let gapped = with_member(versioned, "gap"@, unsigned(0));
        lemma_lookup_beside_member(members, "schema_version"@, unsigned(2), hotkeys);
        lemma_lookup_beside_member(versioned, "gap"@, unsigned(0), hotkeys);
        lemma_lookup_beside_member(gapped, "snap_threshold"@, unsigned(DEFAULT_SNAP_THRESHOLD as int), hotkeys);
        assert(at_two == JsonModel::Object(to_v2(members)));
        assert(migrated(base, 1)->Ok_0.0 == migrated(at_two, 2)->Ok_0.0);
    }
    let two = at_two->Object_0;
    assert(lookup(two, hotkeys) == written);
    let upgraded = if written == Some(hotkeys_model(legacy_defaults())) {
        with_member(two, hotkeys, hotkeys_model(rectangle_defaults()))
    } else {
        two
    };
    lemma_lookup_with_member(two, hotkeys, hotkeys_model(rectangle_defaults()));
    lemma_lookup_beside_member(upgraded, "schema_version"@, unsigned(3), hotkeys);
    let at_three = migration_step(at_two, 2)->Ok_0.0;
    assert(at_three == JsonModel::Object(to_v3(two)));
    assert(migrated(at_two, 2)->Ok_0.0 == migrated(at_three, 3)->Ok_0.0);
    lemma_later_steps_keep_member(at_three, 3, hotkeys);
    let current = migrated(base, version)->Ok_0.0;
    assert(current == migrated(at_three, 3)->Ok_0.0);
    lemma_fields_are_read(current->Object_0);
    lemma_hotkeys_round_trip(rectangle_defaults());
}

/// A document that migrates at all ends at the current schema version: every
/// step records the version it reached, and the last one reaches the current.
pub proof fn lemma_migration_reaches_current_version(value: JsonModel, version: u32)
    requires
        version < CURRENT_SCHEMA_VERSION,
        migrated(value, version) is Ok,
    ensures
        migrated(value, version)->Ok_0.0 matches JsonModel::Object(members) && lookup(members, "schema_version"@)
            == Some(unsigned(CURRENT_SCHEMA_VERSION as int)),
    decreases CURRENT_SCHEMA_VERSION - version,
{
    assert(migration_step(value, version) is Ok);
    let next = migration_step(value, version)->Ok_0.0;
    assert(migrated(next, (version + 1) as u32) is Ok);
    assert(migrated(value, version)->Ok_0.0 == migrated(next, (version + 1) as u32)->Ok_0.0);
    if version + 1 < CURRENT_SCHEMA_VERSION {
        lemma_migration_reaches_current_version(next, (version + 1) as u32);
    } else {
        let members = value->Object_0;
        let restored = with_member(members, "restore_on_display_change"@, JsonModel::Bool(true));
        lemma_lookup_with_member(restored, "schema_version"@, unsigned(5));
        assert(next == JsonModel::Object(to_v5(members)));
        assert(migrated(next, (version + 1) as u32)->Ok_0.0 == next);
    }
}

/// Whether a member holds nothing.
pub fn is_empty_section(value: &Json) -> (empty: bool)
    ensures
        empty == empty_section(value.model()),
{
    match value {
        Json::Null => true,
        Json::Array(items) => {
            proof {
                lemma_models(items@);
            }
            items.len() == 0
        },
        Json::Object(members) => {
            proof {
                lemma_member_models(members@);
            }
            members.len() == 0
        },
        _ => false,
    }
}

/// Whether the document keeps the Base settings in a nested `base` object.
pub fn is_nested_document(value: &Json) -> (nested: bool)
    ensures
        nested == is_nested(value.model()),
{
    match value {
        Json::Object(members) => match get_member(members, "base") {
            Some(Json::Object(_)) => true,
            _ => false,
        },
        _ => false,
    }
}

/// Splits a nested document into its Base section and the names of the
/// sections stored beside it.
fn split_nested_document(members: Vec<(String, Json)>) -> (split: (Json, Vec<String>))
    requires
        lookup(member_models(members@), "base"@) matches Some(JsonModel::Object(_)),
    ensures
        split.0.model() == split_nested(member_models(members@)).0,
        names_of(split.1@) == split_nested(member_models(members@)).1,
{
    let mut members = members;
    let base = match remove_member(&mut members, "base") {
        Some(base) => base,
        None => Json::Null,
    };
    proof {
        lemma_member_models(members@);
    }
    let ghost m = member_models(members@);
    let mut foreign: Vec<String> = Vec::new();
    let mut i: usize = 0;
    assert(m.take(0) =~= Seq::<(Seq<char>, JsonModel)>::empty());
    assert(names_of(foreign@) =~= Seq::<Seq<char>>::empty());
    while i < members.len()
        invariant
            i <= members@.len(),
            m == member_models(members@),
            m.len() == members@.len(),
            forall|k: int| 0 <= k < members@.len() ==> #[trigger] m[k] == (members@[k].0@, members@[k].1.model()),
            names_of(foreign@) == foreign_sections(m.take(i as int)),
        decreases members@.len() - i,
    {
        proof {
            lemma_prefix_step(m, i as int);
        }
        let ghost before = foreign@;
        if !same_text(&members[i].0, "schema_version") && !is_empty_section(&members[i].1) {
            foreign.push(members[i].0.clone());
            assert(names_of(foreign@) =~= names_of(before).push(members@[i as int].0@));
        }
        i = i + 1;
    }
    assert(m.take(i as int) =~= m);
    (base, foreign)
}

/// Reads the `schema_version` of a configuration document.
pub fn schema_version(value: &Json) -> (version: Result<u32, ConfigStorageError>)
    ensures
        match (version, schema_version_of(value.model())) {
            (Ok(v), Ok(w)) => v == w,
            (Err(e), Err(f)) => failure_of(e) == Some(f),
            _ => false,
        },
{
    match value {
        Json::Object(members) => match get_member(members, "schema_version") {
            Some(Json::Number(JsonNumber::Unsigned(n))) => {
                if *n > u32::MAX as u64 {
                    Err(ConfigStorageError::MissingSchemaVersion)
                } else if *n > CURRENT_SCHEMA_VERSION as u64 {
                    Err(ConfigStorageError::InvalidConfig(ConfigError::FutureVersion(*n as u32)))
                } else {
                    Ok(*n as u32)
                }
            },
            _ => Err(ConfigStorageError::MissingSchemaVersion),
        },
        _ => Err(ConfigStorageError::MissingSchemaVersion),
    }
}

fn unsigned_json(value: u64) -> (json: Json)
    ensures
        json.model() == unsigned(value as int),
{
    Json::Number(JsonNumber::Unsigned(value))
}

fn migrate_to_v2(members: &mut Vec<(String, Json)>)
    ensures
        member_models(final(members)@) == to_v2(member_models(old(members)@)),
{
    insert_member(members, "schema_version", unsigned_json(2));
    insert_member(members, "gap", unsigned_json(0));
    insert_member(members, "snap_threshold", unsigned_json(DEFAULT_SNAP_THRESHOLD as u64));
}

fn migrate_to_v3(members: &mut Vec<(String, Json)>)
    ensures
        member_models(final(members)@) == to_v3(member_models(old(members)@)),
{
    let legacy = hotkeys_to_json(&legacy_default_hotkeys());
    let is_legacy = match get_member(members, "hotkeys") {
        Some(hotkeys) => json_equal(hotkeys, &legacy),
        None => false,
    };
    if is_legacy {
        insert_member(members, "hotkeys", hotkeys_to_json(&rectangle_default_hotkeys()));
    }
    insert_member(members, "schema_version", unsigned_json(3));
}

fn drop_unsupported_section(members: &mut Vec<(String, Json)>, name: &str, dropped: &mut Vec<String>)
    ensures
        (member_models(final(members)@), names_of(final(dropped)@)) == drop_section(
            (member_models(old(members)@), names_of(old(dropped)@)),
            name@,
        ),
{
    let ghost before = dropped@;
    match remove_member(members, name) {
        Some(removed) => {
            if !is_empty_section(&removed) {
                dropped.push(name.to_owned());
                assert(names_of(dropped@) =~= names_of(before).push(name@));
            }
        },
        None => {},
    }
}

fn migrate_to_v4(members: &mut Vec<(String, Json)>) -> (dropped: Vec<String>)
    ensures
        (member_models(final(members)@), names_of(dropped@)) == to_v4(member_models(old(members)@)),
{
    let mut dropped: Vec<String> = Vec::new();
    assert(names_of(dropped@) =~= Seq::<Seq<char>>::empty());
    drop_unsupported_section(members, "layouts", &mut dropped);
    drop_unsupported_section(members, "application_rules", &mut dropped);
    drop_unsupported_section(members, "action_cycles", &mut dropped);
    insert_member(members, "schema_version", unsigned_json(4));
    dropped
}

fn migrate_to_v5(members: &mut Vec<(String, Json)>)
    ensures
        member_models(final(members)@) == to_v5(member_models(old(members)@)),
{
    insert_member(members, "restore_on_display_change", Json::Bool(true));
    insert_member(members, "schema_version", unsigned_json(5));
}

fn migration_error(version: u32) -> (error: ConfigStorageError)
    ensures
        failure_of(error) == Some(Failure::Invalid(ConfigError::UnsupportedVersion(version))),
{
    ConfigStorageError::InvalidConfig(ConfigError::UnsupportedVersion(version))
}

/// Migrates a document from `version` to the current schema, step by step,
/// reporting the sections the steps dropped.
pub fn migrate(value: Json, version: u32) -> (migrated_value: Result<(Json, Vec<String>), ConfigStorageError>)
    ensures
        match (migrated_value, migrated(value.model(), version)) {
            (Ok((v, dropped)), Ok((w, names))) => v.model() == w && names_of(dropped@) == names,
            (Err(e), Err(f)) => failure_of(e) == Some(f),
            _ => false,
        },
{
    let ghost initial = value.model();
    let ghost first = version;
    let mut current = value;
    let mut step = version;
    let mut dropped: Vec<String> = Vec::new();
    assert(names_of(dropped@) =~= Seq::<Seq<char>>::empty());
    while step < CURRENT_SCHEMA_VERSION
        invariant
            initial == value.model(),
            first == version,
            match migrated(current.model(), step) {
                Ok((last, later)) => migrated(initial, first) == Ok::<(JsonModel, Seq<Seq<char>>), Failure>((last, names_of(dropped@) + later)),
                Err(f) => migrated(initial, first) == Err::<(JsonModel, Seq<Seq<char>>), Failure>(f),
            },
        decreases CURRENT_SCHEMA_VERSION - step,
    {
        if step < 1 || step > 4 {
            return Err(migration_error(step));
        }
        let ghost old_model = current.model();
        let ghost old_step = step;
        let mut members = match current {
            Json::Object(members) => members,
            _ => {
                return Err(ConfigStorageError::MissingSchemaVersion);
            },
        };
        let ghost before = member_models(members@);
        let ghost names_before = names_of(dropped@);
        if step == 1 {
            migrate_to_v2(&mut members);
        } else if step == 2 {
            migrate_to_v3(&mut members);
        } else if step == 3 {
            let removed = migrate_to_v4(&mut members);
            let mut j: usize = 0;
            while j < removed.len()
                invariant
                    j <= removed@.len(),
                    names_of(dropped@) == names_before + names_of(removed@).take(j as int),
                decreases removed@.len() - j,
            {
                let ghost previous = dropped@;
                dropped.push(removed[j].clone());
                assert(names_of(dropped@) =~= names_of(previous).push(removed@[j as int]@));
                assert(names_of(removed@).take(j + 1) =~= names_of(removed@).take(j as int).push(removed@[j as int]@));
                j = j + 1;
            }
            assert(names_of(removed@).take(j as int) =~= names_of(removed@));
        } else {
            migrate_to_v5(&mut members);
        }
        current = Json::Object(members);
        step = step + 1;
        proof {
            let d = migration_step(old_model, old_step)->Ok_0.1;
            assert(old_model == JsonModel::Object(before));
            assert(names_of(dropped@) =~= names_before + d);
            assert(migration_step(old_model, old_step) == Ok::<(JsonModel, Seq<Seq<char>>), Failure>((current.model(), d)));
            match migrated(current.model(), step) {
                Ok((last, later)) => {
                    assert(names_before + (d + later) =~= (names_before + d) + later);
                },
                Err(_) => {},
            }
        }
    }
    Ok((current, dropped))
}

fn append_names(names: &mut Vec<String>, more: Vec<String>)
    ensures
        names_of(final(names)@) == names_of(old(names)@) + names_of(more@),
{
    let ghost start = names_of(names@);
    let mut j: usize = 0;
    while j < more.len()
        invariant
            j <= more@.len(),
            names_of(names@) == start + names_of(more@).take(j as int),
        decreases more@.len() - j,
    {
        let ghost previous = names@;
        names.push(more[j].clone());
        assert(names_of(names@) =~= names_of(previous).push(more@[j as int]@));
        assert(names_of(more@).take(j + 1) =~= names_of(more@).take(j as int).push(more@[j as int]@));
        j = j + 1;
    }
    assert(names_of(more@).take(j as int) =~= names_of(more@));
}

/// Reads an already parsed configuration document.
///
/// A document that keeps the Base settings in a `base` object is read from
/// that object, and everything stored next to it is reported as discarded
/// instead of failing as an unknown field. Older schemas are migrated, and the
/// sections a migration drops are reported too.
pub fn import_value(value: Json) -> (result: Result<ConfigImport, ConfigStorageError>)
    ensures
        import_matches(result, imported(value.model())),
{
    let ghost model = value.model();
    let (base, mut discarded) = if is_nested_document(&value) {
        match value {
            Json::Object(members) => split_nested_document(members),
            other => (other, Vec::new()),
        }
    } else {
        (value, Vec::new())
    };
    assert(names_of(Seq::<String>::empty()) =~= Seq::<Seq<char>>::empty());
    let version = match schema_version(&base) {
        Ok(version) => version,
        Err(error) => {
            return Err(error);
        },
    };
    let (migrated_value, dropped) = match migrate(base, version) {
        Ok(result) => result,
        Err(error) => {
            return Err(error);
        },
    };
    append_names(&mut discarded, dropped);
    let config = match config_of(&migrated_value) {
        Some(config) => config,
        None => {
            return Err(ConfigStorageError::Json(
                "configuration does not match the settings document format".to_owned(),
            ));
        },
    };
    match config.validate() {
        Ok(()) => {},
        Err(error) => {
            return Err(ConfigStorageError::InvalidConfig(error));
        },
    }
    Ok(ConfigImport { config, discarded_sections: discarded, archived_sections: None, defaulted: false })
}

/// Parses a configuration document after enforcing the shared size limit.
pub fn parse_document(json: &[u8]) -> (parsed: Result<Json, ConfigStorageError>)
    ensures
        json@.len() > MAX_CONFIG_BYTES ==> (parsed matches Err(e) && failure_of(e) == Some(
            Failure::TooLarge(json@.len()),
        )),
        json@.len() <= MAX_CONFIG_BYTES ==> match parsed {
            Ok(value) => json_of_bytes(json@) == Some(value.model()),
            Err(e) => failure_of(e) == Some(Failure::Json) && json_of_bytes(json@) is None,
        },
{
    if json.len() > MAX_CONFIG_BYTES {
        return Err(ConfigStorageError::TooLarge { actual: json.len() as u64, maximum: MAX_CONFIG_BYTES });
    }
    match parse_json(json) {
        Ok(value) => Ok(value),
        Err(message) => Err(ConfigStorageError::Json(message)),
    }
}

/// Reads a Base configuration document, migrating older versions and reporting
/// the sections this build cannot represent.
pub fn import_document(json: &[u8]) -> (result: Result<ConfigImport, ConfigStorageError>)
    ensures
        import_matches(result, imported_bytes(json@)),
{
    match parse_document(json) {
        Ok(value) => import_value(value),
        Err(error) => Err(error),
    }
}

/// Serializes a document with the shared formatting, a final newline, and the
/// shared size limit.
pub fn serialize_document(document: &Json) -> (bytes: Result<Vec<u8>, ConfigStorageError>)
    ensures
        pretty_bytes(document.model()).len() + 1 <= MAX_CONFIG_BYTES ==> (bytes matches Ok(b) && b@
            == pretty_bytes(document.model()).push(10u8)),
        pretty_bytes(document.model()).len() + 1 > MAX_CONFIG_BYTES ==> (bytes matches Err(e) && failure_of(e)
            == Some(Failure::TooLarge((pretty_bytes(document.model()).len() + 1) as nat))),
        canonical(document.model()) && within_depth(document.model(), 127) ==> (bytes matches Ok(b) ==> json_of_bytes(
            b@,
        ) == Some(document.model())),
{
    let mut json = pretty_json(document);
    json.push(10u8);
    if json.len() > MAX_CONFIG_BYTES {
        return Err(ConfigStorageError::TooLarge { actual: json.len() as u64, maximum: MAX_CONFIG_BYTES });
    }
    Ok(json)
}

/// Serializes the members of a document, in the order given, with the shared
/// formatting, a final newline, and the shared size limit.
fn serialize_members(members: &Vec<(String, Json)>) -> (bytes: Result<Vec<u8>, ConfigStorageError>)
    ensures
        ({
            let written = pretty_map_bytes(member_models(members@));
            &&& written.len() + 1 <= MAX_CONFIG_BYTES ==> (bytes matches Ok(b) && b@ == written.push(10u8))
            &&& written.len() + 1 > MAX_CONFIG_BYTES ==> (bytes matches Err(e) && failure_of(e) == Some(
                Failure::TooLarge((written.len() + 1) as nat),
            ))
        }),
        ({
            let m = member_models(members@);
            distinct_keys(m) && (forall|i: int| 0 <= i < m.len() ==> canonical(#[trigger] m[i].1) && within_depth(m[i].1, 126))
                ==> forall|s: Seq<(Seq<char>, JsonModel)>| ascending_keys(s) && #[trigger] s.to_multiset() == m.to_multiset()
                ==> (bytes matches Ok(b) ==> json_of_bytes(b@) == Some(JsonModel::Object(s)))
        }),
{
    let mut json = pretty_map(members);
    json.push(10u8);
    if json.len() > MAX_CONFIG_BYTES {
        return Err(ConfigStorageError::TooLarge { actual: json.len() as u64, maximum: MAX_CONFIG_BYTES });
    }
    Ok(json)
}

/// The document a configuration is exported and saved as, once it is valid.
pub fn export_json(config: &AppConfig) -> (bytes: Result<Vec<u8>, ConfigStorageError>)
    ensures
        match validation(config@) {
            Err(e) => (bytes matches Err(error) && failure_of(error) == Some(Failure::Invalid(e))),
            Ok(_) => if pretty_map_bytes(config_members(config@)).len() + 1 <= MAX_CONFIG_BYTES {
                (bytes matches Ok(b) && b@ == pretty_map_bytes(config_members(config@)).push(10u8))
            } else {
                (bytes matches Err(error) && failure_of(error) == Some(
                    Failure::TooLarge((pretty_map_bytes(config_members(config@)).len() + 1) as nat),
                ))
            },
        },
        bytes matches Ok(b) ==> imported_bytes(b@) == Ok::<(ConfigView, Seq<Seq<char>>), Failure>(
            (config@, Seq::empty()),
        ),
{
    match config.validate() {
        Ok(()) => {},
        Err(error) => {
            return Err(ConfigStorageError::InvalidConfig(error));
        },
    }
    let members = config_to_members(config);
    let bytes = serialize_members(&members);
    proof {
        lemma_written_members_sort_to_config_model(config@);
        lemma_written_config_reads_back(config@);
        assert(config_model(config@)->Object_0.to_multiset() == member_models(members@).to_multiset());
    }
    bytes
}

} // verus!
