//! The settings document format: how a configuration is written as a JSON
//! value and read back from one.
//!
//! Reading follows the rules the document has always been read by: fields
//! are matched by name, an unknown or repeated field is an error, the three
//! newer fields fall back to their defaults, and a shortcut may also be
//! written as the array `[action, modifiers, virtual_key]`. An enum value is
//! its snake_case name, or an object whose single member is that name with
//! `null` as its value.

use vstd::prelude::*;

use crate::action::Action;
use crate::config::{
    AppConfig, ConfigView, HotkeyBinding, Language, DEFAULT_SNAP_THRESHOLD,
};
use crate::json::{member_models, models, Json, JsonModel, JsonNumber, NumberModel};
use crate::members::{
    lemma_member_models, lemma_models, lemma_position_is_first, lemma_position_of, lemma_prefix_step, lookup, position_of,
    same_text, Members,
};

verus! {

pub open spec fn u32_from(value: JsonModel) -> Option<u32> {
    match value {
        JsonModel::Number(NumberModel::Unsigned(n)) => if n <= u32::MAX { Some(n as u32) } else { None },
        JsonModel::Number(NumberModel::Negative(n)) => if 0 <= n <= u32::MAX { Some(n as u32) } else { None },
        _ => None,
    }
}

pub open spec fn u16_from(value: JsonModel) -> Option<u16> {
    match value {
        JsonModel::Number(NumberModel::Unsigned(n)) => if n <= u16::MAX { Some(n as u16) } else { None },
        JsonModel::Number(NumberModel::Negative(n)) => if 0 <= n <= u16::MAX { Some(n as u16) } else { None },
        _ => None,
    }
}

pub open spec fn bool_from(value: JsonModel) -> Option<bool> {
    match value {
        JsonModel::Bool(flag) => Some(flag),
        _ => None,
    }
}

/// The action a document names.
pub open spec fn action_named(name: Seq<char>) -> Option<Action> {
    if name == "left_half"@ { Some(Action::LeftHalf) }
    else if name == "right_half"@ { Some(Action::RightHalf) }
    else if name == "top_half"@ { Some(Action::TopHalf) }
    else if name == "bottom_half"@ { Some(Action::BottomHalf) }
    else if name == "top_left"@ { Some(Action::TopLeft) }
    else if name == "top_right"@ { Some(Action::TopRight) }
    else if name == "bottom_left"@ { Some(Action::BottomLeft) }
    else if name == "bottom_right"@ { Some(Action::BottomRight) }
    else if name == "first_third"@ { Some(Action::FirstThird) }
    else if name == "center_third"@ { Some(Action::CenterThird) }
    else if name == "last_third"@ { Some(Action::LastThird) }
    else if name == "first_two_thirds"@ { Some(Action::FirstTwoThirds) }
    else if name == "center_two_thirds"@ { Some(Action::CenterTwoThirds) }
    else if name == "last_two_thirds"@ { Some(Action::LastTwoThirds) }
    else if name == "center_half"@ { Some(Action::CenterHalf) }
    else if name == "center"@ { Some(Action::Center) }
    else if name == "almost_maximize"@ { Some(Action::AlmostMaximize) }
    else if name == "maximize_height"@ { Some(Action::MaximizeHeight) }
    else if name == "grow"@ { Some(Action::Grow) }
    else if name == "shrink"@ { Some(Action::Shrink) }
    else if name == "move_left"@ { Some(Action::MoveLeft) }
    else if name == "move_right"@ { Some(Action::MoveRight) }
    else if name == "move_up"@ { Some(Action::MoveUp) }
    else if name == "move_down"@ { Some(Action::MoveDown) }
    else if name == "maximize"@ { Some(Action::Maximize) }
    else if name == "restore"@ { Some(Action::Restore) }
    else if name == "undo"@ { Some(Action::Undo) }
    else if name == "next_monitor"@ { Some(Action::NextMonitor) }
    else if name == "previous_monitor"@ { Some(Action::PreviousMonitor) }
    else if name == "show_shortcuts"@ { Some(Action::ShowShortcuts) }
    else { None }
}

pub open spec fn language_key(language: Language) -> Seq<char> {
    match language {
        Language::Italian => "italian"@,
        Language::English => "english"@,
    }
}

pub open spec fn language_named(name: Seq<char>) -> Option<Language> {
    if name == "italian"@ {
        Some(Language::Italian)
    } else if name == "english"@ {
        Some(Language::English)
    } else {
        None
    }
}

/// The variant name an enum value is written as: its name as a string, or an
/// object whose only member is the name with a `null` value.
pub open spec fn variant_name(value: JsonModel) -> Option<Seq<char>> {
    match value {
        JsonModel::String(name) => Some(name),
        JsonModel::Object(members) => if members.len() == 1 && members[0].1 is Null {
            Some(members[0].0)
        } else {
            None
        },
        _ => None,
    }
}

pub open spec fn action_from(value: JsonModel) -> Option<Action> {
    match variant_name(value) {
        Some(name) => action_named(name),
        None => None,
    }
}

pub open spec fn language_from(value: JsonModel) -> Option<Language> {
    match variant_name(value) {
        Some(name) => language_named(name),
        None => None,
    }
}

/// The fields of a shortcut read so far.
pub struct BindingFields {
    pub action: Option<Action>,
    pub modifiers: Option<u32>,
    pub virtual_key: Option<u32>,
}

pub open spec fn no_binding_fields() -> BindingFields {
    BindingFields { action: None, modifiers: None, virtual_key: None }
}

/// Reads one member of a shortcut object: `None` for an unknown or repeated
/// name, or a value of the wrong kind.
pub open spec fn take_binding_field(fields: BindingFields, name: Seq<char>, value: JsonModel) -> Option<BindingFields> {
    if name == "action"@ {
        if fields.action is Some { None } else {
            match action_from(value) {
                Some(a) => Some(BindingFields { action: Some(a), ..fields }),
                None => None,
            }
        }
    } else if name == "modifiers"@ {
        if fields.modifiers is Some { None } else {
            match u32_from(value) {
                Some(m) => Some(BindingFields { modifiers: Some(m), ..fields }),
                None => None,
            }
        }
    } else if name == "virtual_key"@ {
        if fields.virtual_key is Some { None } else {
            match u32_from(value) {
                Some(k) => Some(BindingFields { virtual_key: Some(k), ..fields }),
                None => None,
            }
        }
    } else {
        None
    }
}

pub open spec fn binding_fields(members: Members) -> Option<BindingFields>
    decreases members.len(),
{
    if members.len() == 0 {
        Some(no_binding_fields())
    } else {
        match binding_fields(members.drop_last()) {
            Some(fields) => take_binding_field(fields, members.last().0, members.last().1),
            None => None,
        }
    }
}

/// The shortcut a document value describes.
pub open spec fn binding_from(value: JsonModel) -> Option<HotkeyBinding> {
    match value {
        JsonModel::Object(members) => match binding_fields(members) {
            Some(BindingFields { action: Some(action), modifiers: Some(modifiers), virtual_key: Some(virtual_key) }) =>
                Some(HotkeyBinding { action, modifiers, virtual_key }),
            _ => None,
        },
        JsonModel::Array(items) => if items.len() == 3 && action_from(items[0]) is Some && u32_from(items[1]) is Some
            && u32_from(items[2]) is Some {
            Some(HotkeyBinding {
                action: action_from(items[0])->0,
                modifiers: u32_from(items[1])->0,
                virtual_key: u32_from(items[2])->0,
            })
        } else {
            None
        },
        _ => None,
    }
}

pub open spec fn hotkeys_from(value: JsonModel) -> Option<Seq<HotkeyBinding>> {
    match value {
        JsonModel::Array(items) => if forall|i: int| 0 <= i < items.len() ==> (#[trigger] binding_from(items[i])) is Some {
            Some(Seq::new(items.len(), |i: int| binding_from(items[i])->0))
        } else {
            None
        },
        _ => None,
    }
}

/// The fields of a configuration read so far.
pub struct ConfigFields {
    pub schema_version: Option<u32>,
    pub language: Option<Language>,
    pub launch_at_login: Option<bool>,
    pub drag_snap_enabled: Option<bool>,
    pub hotkeys: Option<Seq<HotkeyBinding>>,
    pub gap: Option<u16>,
    pub snap_threshold: Option<u16>,
    pub restore_on_display_change: Option<bool>,
}

pub open spec fn no_config_fields() -> ConfigFields {
    ConfigFields {
        schema_version: None,
        language: None,
        launch_at_login: None,
        drag_snap_enabled: None,
        hotkeys: None,
        gap: None,
        snap_threshold: None,
        restore_on_display_change: None,
    }
}

/// Reads one member of a configuration object: `None` for an unknown or
/// repeated name, or a value of the wrong kind.
pub open spec fn take_config_field(f: ConfigFields, name: Seq<char>, value: JsonModel) -> Option<ConfigFields> {
    if name == "schema_version"@ {
        if f.schema_version is Some { None } else {
            match u32_from(value) { Some(v) => Some(ConfigFields { schema_version: Some(v), ..f }), None => None }
        }
    } else if name == "language"@ {
        if f.language is Some { None } else {
            match language_from(value) { Some(v) => Some(ConfigFields { language: Some(v), ..f }), None => None }
        }
    } else if name == "launch_at_login"@ {
        if f.launch_at_login is Some { None } else {
            match bool_from(value) { Some(v) => Some(ConfigFields { launch_at_login: Some(v), ..f }), None => None }
        }
    } else if name == "drag_snap_enabled"@ {
        if f.drag_snap_enabled is Some { None } else {
            match bool_from(value) { Some(v) => Some(ConfigFields { drag_snap_enabled: Some(v), ..f }), None => None }
        }
    } else if name == "hotkeys"@ {
        if f.hotkeys is Some { None } else {
            match hotkeys_from(value) { Some(v) => Some(ConfigFields { hotkeys: Some(v), ..f }), None => None }
        }
    } else if name == "gap"@ {
        if f.gap is Some { None } else {
            match u16_from(value) { Some(v) => Some(ConfigFields { gap: Some(v), ..f }), None => None }
        }
    } else if name == "snap_threshold"@ {
        if f.snap_threshold is Some { None } else {
            match u16_from(value) { Some(v) => Some(ConfigFields { snap_threshold: Some(v), ..f }), None => None }
        }
    } else if name == "restore_on_display_change"@ {
        if f.restore_on_display_change is Some { None } else {
            match bool_from(value) { Some(v) => Some(ConfigFields { restore_on_display_change: Some(v), ..f }), None => None }
        }
    } else {
        None
    }
}

pub open spec fn config_fields(members: Members) -> Option<ConfigFields>
    decreases members.len(),
{
    if members.len() == 0 {
        Some(no_config_fields())
    } else {
        match config_fields(members.drop_last()) {
            Some(fields) => take_config_field(fields, members.last().0, members.last().1),
            None => None,
        }
    }
}

/// Looking a key up in `members` finds what it finds in all but the last
/// member, unless only the last member holds the key.
proof fn lemma_lookup_drop_last(members: Members, key: Seq<char>)
    requires
        members.len() > 0,
    ensures
        members.last().0 != key ==> lookup(members, key) == lookup(members.drop_last(), key),
        members.last().0 == key && lookup(members.drop_last(), key) is None ==> lookup(members, key) == Some(
            members.last().1,
        ),
{
    let rest = members.drop_last();
    lemma_position_of(rest, key);
    lemma_position_of(members, key);
    match position_of(rest, key) {
        Some(i) => {
            assert forall|j: int| 0 <= j < i implies #[trigger] members[j].0 != key by {
                assert(members[j] == rest[j]);
            }
            assert(members[i] == rest[i]);
            lemma_position_is_first(members, key, i);
        },
        None => {
            assert forall|j: int| 0 <= j < rest.len() implies #[trigger] members[j].0 != key by {
                assert(members[j] == rest[j]);
            }
            if members.last().0 == key {
                lemma_position_is_first(members, key, rest.len() as int);
            } else {
                lemma_position_is_first(members, key, members.len() as int);
            }
        },
    }
}

/// Reading a configuration object takes the shortcuts, and each of the three
/// fields that have a default, from the member of that name, when there is one.
pub proof fn lemma_fields_are_read(members: Members)
    requires
        config_fields(members) is Some,
    ensures
        config_fields(members)->0.gap == match lookup(members, "gap"@) {
            Some(value) => u16_from(value),
            None => None::<u16>,
        },
        lookup(members, "gap"@) matches Some(value) ==> u16_from(value) is Some,
        config_fields(members)->0.snap_threshold == match lookup(members, "snap_threshold"@) {
            Some(value) => u16_from(value),
            None => None::<u16>,
        },
        lookup(members, "snap_threshold"@) matches Some(value) ==> u16_from(value) is Some,
        config_fields(members)->0.restore_on_display_change == match lookup(members, "restore_on_display_change"@) {
            Some(value) => bool_from(value),
            None => None::<bool>,
        },
        lookup(members, "restore_on_display_change"@) matches Some(value) ==> bool_from(value) is Some,
        config_fields(members)->0.hotkeys == match lookup(members, "hotkeys"@) {
            Some(value) => hotkeys_from(value),
            None => None::<Seq<HotkeyBinding>>,
        },
        lookup(members, "hotkeys"@) matches Some(value) ==> hotkeys_from(value) is Some,
    decreases members.len(),
{
    let gap = "gap"@;
    let threshold = "snap_threshold"@;
    let restore = "restore_on_display_change"@;
    let hotkeys = "hotkeys"@;
    if members.len() == 0 {
        lemma_position_of(members, hotkeys);
        lemma_position_of(members, gap);
        lemma_position_of(members, threshold);
        lemma_position_of(members, restore);
    } else {
        lemma_fields_are_read(members.drop_last());
        lemma_lookup_drop_last(members, hotkeys);
        lemma_lookup_drop_last(members, gap);
        lemma_lookup_drop_last(members, threshold);
        lemma_lookup_drop_last(members, restore);
        reveal_strlit("restore_on_display_change");
        reveal_strlit("schema_version");
        reveal_strlit("language");
        reveal_strlit("launch_at_login");
        reveal_strlit("drag_snap_enabled");
        reveal_strlit("hotkeys");
        reveal_strlit("gap");
        reveal_strlit("snap_threshold");
        assert("restore_on_display_change"@.len() == 25 && "schema_version"@.len() == 14 && "language"@.len() == 8);
        assert("launch_at_login"@.len() == 15 && "drag_snap_enabled"@.len() == 17 && "hotkeys"@.len() == 7);
        assert("gap"@.len() == 3 && "snap_threshold"@.len() == 14);
        assert("schema_version"@[1] != "snap_threshold"@[1]);
        let rest = members.drop_last();
        let (name, value) = members.last();
        let before = config_fields(rest)->0;
        let after = config_fields(members)->0;
        assert(take_config_field(before, name, value) == Some(after));
        if name == gap {
            assert(before.gap is None);
            assert(lookup(rest, gap) is None);
            assert(lookup(members, gap) == Some(value));
        } else {
            assert(lookup(members, gap) == lookup(rest, gap));
        }
        if name == threshold {
            assert(name != "schema_version"@);
            assert(before.snap_threshold is None);
            assert(lookup(rest, threshold) is None);
            assert(lookup(members, threshold) == Some(value));
        } else {
            assert(lookup(members, threshold) == lookup(rest, threshold));
        }
        if name == restore {
            assert(before.restore_on_display_change is None);
            assert(lookup(rest, restore) is None);
            assert(lookup(members, restore) == Some(value));
        } else {
            assert(lookup(members, restore) == lookup(rest, restore));
        }
        if name == hotkeys {
            assert(before.hotkeys is None);
            assert(lookup(rest, hotkeys) is None);
            assert(lookup(members, hotkeys) == Some(value));
        } else {
            assert(lookup(members, hotkeys) == lookup(rest, hotkeys));
        }
    }
}

pub open spec fn unwrap_or<T>(value: Option<T>, fallback: T) -> T {
    match value {
        Some(v) => v,
        None => fallback,
    }
}

/// The configuration a document object describes: every required field
/// present, the optional ones defaulted.
pub open spec fn config_from(value: JsonModel) -> Option<ConfigView> {
    match value {
        JsonModel::Object(members) => match config_fields(members) {
            Some(f) => if f.schema_version is Some && f.language is Some && f.launch_at_login is Some
                && f.drag_snap_enabled is Some && f.hotkeys is Some {
                Some(ConfigView {
                    schema_version: f.schema_version->0,
                    language: f.language->0,
                    launch_at_login: f.launch_at_login->0,
                    drag_snap_enabled: f.drag_snap_enabled->0,
                    hotkeys: f.hotkeys->0,
                    gap: unwrap_or(f.gap, 0u16),
                    snap_threshold: unwrap_or(f.snap_threshold, DEFAULT_SNAP_THRESHOLD),
                    restore_on_display_change: unwrap_or(f.restore_on_display_change, true),
                })
            } else {
                None
            },
            None => None,
        },
        _ => None,
    }
}

pub open spec fn unsigned(n: int) -> JsonModel {
    JsonModel::Number(NumberModel::Unsigned(n as u64))
}

/// How a shortcut is written: its fields in ascending name order.
pub open spec fn binding_model(binding: HotkeyBinding) -> JsonModel {
    JsonModel::Object(
        seq![
            ("action"@, JsonModel::String(binding.action.key())),
            ("modifiers"@, unsigned(binding.modifiers as int)),
            ("virtual_key"@, unsigned(binding.virtual_key as int)),
        ],
    )
}

pub open spec fn hotkeys_model(hotkeys: Seq<HotkeyBinding>) -> JsonModel {
    JsonModel::Array(hotkeys.map_values(|binding: HotkeyBinding| binding_model(binding)))
}

/// How a configuration is written: its fields in the order `AppConfig`
/// declares them.
pub open spec fn config_members(config: ConfigView) -> Seq<(Seq<char>, JsonModel)> {
    seq![
        ("schema_version"@, unsigned(config.schema_version as int)),
        ("language"@, JsonModel::String(language_key(config.language))),
        ("launch_at_login"@, JsonModel::Bool(config.launch_at_login)),
        ("drag_snap_enabled"@, JsonModel::Bool(config.drag_snap_enabled)),
        ("hotkeys"@, hotkeys_model(config.hotkeys)),
        ("gap"@, unsigned(config.gap as int)),
        ("snap_threshold"@, unsigned(config.snap_threshold as int)),
        ("restore_on_display_change"@, JsonModel::Bool(config.restore_on_display_change)),
    ]
}

/// What a written configuration is read back as: the same members, in the
/// ascending key order of the parser's map.
pub open spec fn config_model(config: ConfigView) -> JsonModel {
    JsonModel::Object(
        seq![
            ("drag_snap_enabled"@, JsonModel::Bool(config.drag_snap_enabled)),
            ("gap"@, unsigned(config.gap as int)),
            ("hotkeys"@, hotkeys_model(config.hotkeys)),
            ("language"@, JsonModel::String(language_key(config.language))),
            ("launch_at_login"@, JsonModel::Bool(config.launch_at_login)),
            ("restore_on_display_change"@, JsonModel::Bool(config.restore_on_display_change)),
            ("schema_version"@, unsigned(config.schema_version as int)),
            ("snap_threshold"@, unsigned(config.snap_threshold as int)),
        ],
    )
}

fn text(value: &str) -> (text: String)
    ensures
        text@ == value@,
{
    value.to_owned()
}

fn number(value: u64) -> (json: Json)
    ensures
        json.model() == JsonModel::Number(NumberModel::Unsigned(value)),
{
    Json::Number(JsonNumber::Unsigned(value))
}

pub fn action_name(action: Action) -> (name: String)
    ensures
        name@ == action.key(),
{
    text(action.label_key())
}

pub fn language_name(language: Language) -> (name: String)
    ensures
        name@ == language_key(language),
{
    match language {
        Language::Italian => text("italian"),
        Language::English => text("english"),
    }
}

/// The JSON value a shortcut is written as.
pub fn binding_to_json(binding: &HotkeyBinding) -> (json: Json)
    ensures
        json.model() == binding_model(*binding),
{
    let mut members: Vec<(String, Json)> = Vec::new();
    members.push((text("action"), Json::String(action_name(binding.action))));
    members.push((text("modifiers"), number(binding.modifiers as u64)));
    members.push((text("virtual_key"), number(binding.virtual_key as u64)));
    let json = Json::Object(members);
    proof {
        lemma_member_models(members@);
        assert(member_models(members@) =~= seq![
            ("action"@, JsonModel::String(binding.action.key())),
            ("modifiers"@, unsigned(binding.modifiers as int)),
            ("virtual_key"@, unsigned(binding.virtual_key as int)),
        ]);
    }
    json
}

/// The JSON value a list of shortcuts is written as.
pub fn hotkeys_to_json(hotkeys: &Vec<HotkeyBinding>) -> (json: Json)
    ensures
        json.model() == hotkeys_model(hotkeys@),
{
    let mut items: Vec<Json> = Vec::new();
    let mut i: usize = 0;
    while i < hotkeys.len()
        invariant
            i <= hotkeys@.len(),
            items@.len() == i,
            forall|k: int| 0 <= k < i ==> (#[trigger] items@[k]).model() == binding_model(hotkeys@[k]),
        decreases hotkeys@.len() - i,
    {
        items.push(binding_to_json(&hotkeys[i]));
        i = i + 1;
    }
    proof {
        lemma_models(items@);
        assert(models(items@) =~= hotkeys@.map_values(|binding: HotkeyBinding| binding_model(binding)));
    }
    Json::Array(items)
}

/// The members a configuration is written as, in the order of `config_members`.
pub fn config_to_members(config: &AppConfig) -> (members: Vec<(String, Json)>)
    ensures
        member_models(members@) == config_members(config@),
{
    let mut members: Vec<(String, Json)> = Vec::new();
    members.push((text("schema_version"), number(config.schema_version as u64)));
    members.push((text("language"), Json::String(language_name(config.language))));
    members.push((text("launch_at_login"), Json::Bool(config.launch_at_login)));
    members.push((text("drag_snap_enabled"), Json::Bool(config.drag_snap_enabled)));
    members.push((text("hotkeys"), hotkeys_to_json(&config.hotkeys)));
    members.push((text("gap"), number(config.gap as u64)));
    members.push((text("snap_threshold"), number(config.snap_threshold as u64)));
    members.push((text("restore_on_display_change"), Json::Bool(config.restore_on_display_change)));
    proof {
        lemma_member_models(members@);
        assert(member_models(members@) =~= config_members(config@));
    }
    members
}

pub fn u32_of(json: &Json) -> (value: Option<u32>)
    ensures
        value == u32_from(json.model()),
{
    match json {
        Json::Number(JsonNumber::Unsigned(n)) => if *n <= u32::MAX as u64 { Some(*n as u32) } else { None },
        Json::Number(JsonNumber::Negative(n)) => if 0 <= *n && *n <= u32::MAX as i64 { Some(*n as u32) } else { None },
        _ => None,
    }
}

pub fn u16_of(json: &Json) -> (value: Option<u16>)
    ensures
        value == u16_from(json.model()),
{
    match json {
        Json::Number(JsonNumber::Unsigned(n)) => if *n <= u16::MAX as u64 { Some(*n as u16) } else { None },
        Json::Number(JsonNumber::Negative(n)) => if 0 <= *n && *n <= u16::MAX as i64 { Some(*n as u16) } else { None },
        _ => None,
    }
}

pub fn bool_of(json: &Json) -> (value: Option<bool>)
    ensures
        value == bool_from(json.model()),
{
    match json {
        Json::Bool(flag) => Some(*flag),
        _ => None,
    }
}

pub fn variant_of(json: &Json) -> (name: Option<&String>)
    ensures
        variant_name(json.model()) == (match name {
            Some(n) => Some(n@),
            None => None::<Seq<char>>,
        }),
{
    match json {
        Json::String(name) => Some(name),
        Json::Object(members) => {
            proof {
                lemma_member_models(members@);
            }
            if members.len() == 1 {
                match &members[0].1 {
                    Json::Null => Some(&members[0].0),
                    _ => None,
                }
            } else {
                None
            }
        },
        _ => None,
    }
}

pub fn action_of_name(name: &String) -> (action: Option<Action>)
    ensures
        action == action_named(name@),
{
    if same_text(name, "left_half") { Some(Action::LeftHalf) }
    else if same_text(name, "right_half") { Some(Action::RightHalf) }
    else if same_text(name, "top_half") { Some(Action::TopHalf) }
    else if same_text(name, "bottom_half") { Some(Action::BottomHalf) }
    else if same_text(name, "top_left") { Some(Action::TopLeft) }
    else if same_text(name, "top_right") { Some(Action::TopRight) }
    else if same_text(name, "bottom_left") { Some(Action::BottomLeft) }
    else if same_text(name, "bottom_right") { Some(Action::BottomRight) }
    else if same_text(name, "first_third") { Some(Action::FirstThird) }
    else if same_text(name, "center_third") { Some(Action::CenterThird) }
    else if same_text(name, "last_third") { Some(Action::LastThird) }
    else if same_text(name, "first_two_thirds") { Some(Action::FirstTwoThirds) }
    else if same_text(name, "center_two_thirds") { Some(Action::CenterTwoThirds) }
    else if same_text(name, "last_two_thirds") { Some(Action::LastTwoThirds) }
    else if same_text(name, "center_half") { Some(Action::CenterHalf) }
    else if same_text(name, "center") { Some(Action::Center) }
    else if same_text(name, "almost_maximize") { Some(Action::AlmostMaximize) }
    else if same_text(name, "maximize_height") { Some(Action::MaximizeHeight) }
    else if same_text(name, "grow") { Some(Action::Grow) }
    else if same_text(name, "shrink") { Some(Action::Shrink) }
    else if same_text(name, "move_left") { Some(Action::MoveLeft) }
    else if same_text(name, "move_right") { Some(Action::MoveRight) }
    else if same_text(name, "move_up") { Some(Action::MoveUp) }
    else if same_text(name, "move_down") { Some(Action::MoveDown) }
    else if same_text(name, "maximize") { Some(Action::Maximize) }
    else if same_text(name, "restore") { Some(Action::Restore) }
    else if same_text(name, "undo") { Some(Action::Undo) }
    else if same_text(name, "next_monitor") { Some(Action::NextMonitor) }
    else if same_text(name, "previous_monitor") { Some(Action::PreviousMonitor) }
    else if same_text(name, "show_shortcuts") { Some(Action::ShowShortcuts) }
    else { None }
}

pub fn action_of(json: &Json) -> (action: Option<Action>)
    ensures
        action == action_from(json.model()),
{
    match variant_of(json) {
        Some(name) => action_of_name(name),
        None => None,
    }
}

pub fn language_of(json: &Json) -> (language: Option<Language>)
    ensures
        language == language_from(json.model()),
{
    match variant_of(json) {
        Some(name) => if same_text(name, "italian") {
            Some(Language::Italian)
        } else if same_text(name, "english") {
            Some(Language::English)
        } else {
            None
        },
        None => None,
    }
}

proof fn lemma_binding_fields_stay_failed(m: Members, n: int, k: int)
    requires
        0 <= n <= k <= m.len(),
        binding_fields(m.take(n)) is None,
    ensures
        binding_fields(m.take(k)) is None,
    decreases k - n,
{
    if n < k {
        lemma_binding_fields_stay_failed(m, n, k - 1);
        lemma_prefix_step(m, k - 1);
    }
}

proof fn lemma_config_fields_stay_failed(m: Members, n: int, k: int)
    requires
        0 <= n <= k <= m.len(),
        config_fields(m.take(n)) is None,
    ensures
        config_fields(m.take(k)) is None,
    decreases k - n,
{
    if n < k {
        lemma_config_fields_stay_failed(m, n, k - 1);
        lemma_prefix_step(m, k - 1);
    }
}

/// The shortcut a JSON value describes.
pub fn binding_of(json: &Json) -> (binding: Option<HotkeyBinding>)
    ensures
        binding == binding_from(json.model()),
{
    match json {
        Json::Object(members) => {
            proof {
                lemma_member_models(members@);
            }
            let ghost m = member_models(members@);
            let mut action: Option<Action> = None;
            let mut modifiers: Option<u32> = None;
            let mut virtual_key: Option<u32> = None;
            let mut i: usize = 0;
            assert(m.take(0) =~= Seq::<(Seq<char>, JsonModel)>::empty());
            while i < members.len()
                invariant
                    i <= members@.len(),
                    m == member_models(members@),
                    m.len() == members@.len(),
                    forall|k: int| 0 <= k < members@.len() ==> #[trigger] m[k] == (members@[k].0@, members@[k].1.model()),
                    json.model() == JsonModel::Object(m),
                    binding_fields(m.take(i as int)) == Some(BindingFields { action, modifiers, virtual_key }),
                decreases members@.len() - i,
            {
                proof {
                    lemma_prefix_step(m, i as int);
                    if binding_fields(m.take(i + 1)) is None {
                        lemma_binding_fields_stay_failed(m, i + 1, m.len() as int);
                        assert(m.take(m.len() as int) =~= m);
                    }
                }
                let (name, value) = (&members[i].0, &members[i].1);
                if same_text(name, "action") {
                    if action.is_some() {
                        return None;
                    }
                    match action_of(value) {
                        Some(a) => action = Some(a),
                        None => return None,
                    }
                } else if same_text(name, "modifiers") {
                    if modifiers.is_some() {
                        return None;
                    }
                    match u32_of(value) {
                        Some(v) => modifiers = Some(v),
                        None => return None,
                    }
                } else if same_text(name, "virtual_key") {
                    if virtual_key.is_some() {
                        return None;
                    }
                    match u32_of(value) {
                        Some(v) => virtual_key = Some(v),
                        None => return None,
                    }
                } else {
                    return None;
                }
                i = i + 1;
            }
            assert(m.take(i as int) =~= m);
            match (action, modifiers, virtual_key) {
                (Some(action), Some(modifiers), Some(virtual_key)) => Some(HotkeyBinding { action, modifiers, virtual_key }),
                _ => None,
            }
        },
        Json::Array(items) => {
            proof {
                lemma_models(items@);
            }
            if items.len() != 3 {
                return None;
            }
            match (action_of(&items[0]), u32_of(&items[1]), u32_of(&items[2])) {
                (Some(action), Some(modifiers), Some(virtual_key)) => Some(HotkeyBinding { action, modifiers, virtual_key }),
                _ => None,
            }
        },
        _ => None,
    }
}

/// The shortcuts a JSON value lists.
pub fn hotkeys_of(json: &Json) -> (hotkeys: Option<Vec<HotkeyBinding>>)
    ensures
        hotkeys_from(json.model()) == (match hotkeys {
            Some(h) => Some(h@),
            None => None::<Seq<HotkeyBinding>>,
        }),
{
    match json {
        Json::Array(items) => {
            proof {
                lemma_models(items@);
            }
            let ghost m = models(items@);
            let mut hotkeys: Vec<HotkeyBinding> = Vec::new();
            let mut i: usize = 0;
            while i < items.len()
                invariant
                    i <= items@.len(),
                    m == models(items@),
                    m.len() == items@.len(),
                    forall|k: int| 0 <= k < items@.len() ==> #[trigger] m[k] == items@[k].model(),
                    json.model() == JsonModel::Array(m),
                    hotkeys@.len() == i,
                    forall|k: int| 0 <= k < i ==> binding_from(#[trigger] m[k]) == Some(hotkeys@[k]),
                decreases items@.len() - i,
            {
                match binding_of(&items[i]) {
                    Some(binding) => hotkeys.push(binding),
                    None => {
                        assert(binding_from(m[i as int]) is None);
                        return None;
                    },
                }
                i = i + 1;
            }
            assert(Seq::new(m.len(), |k: int| binding_from(m[k])->0) =~= hotkeys@);
            Some(hotkeys)
        },
        _ => None,
    }
}

/// The configuration a JSON object describes, or `None` when it breaks the format.
pub fn config_of(json: &Json) -> (config: Option<AppConfig>)
    ensures
        config_from(json.model()) == (match config {
            Some(c) => Some(c@),
            None => None::<ConfigView>,
        }),
{
    let members = match json {
        Json::Object(members) => members,
        _ => {
            return None;
        },
    };
    proof {
        lemma_member_models(members@);
    }
    let ghost m = member_models(members@);
    let mut schema_version: Option<u32> = None;
    let mut language: Option<Language> = None;
    let mut launch_at_login: Option<bool> = None;
    let mut drag_snap_enabled: Option<bool> = None;
    let mut hotkeys: Option<Vec<HotkeyBinding>> = None;
    let mut gap: Option<u16> = None;
    let mut snap_threshold: Option<u16> = None;
    let mut restore_on_display_change: Option<bool> = None;
    let mut i: usize = 0;
    assert(m.take(0) =~= Seq::<(Seq<char>, JsonModel)>::empty());
    while i < members.len()
        invariant
            i <= members@.len(),
            m == member_models(members@),
            m.len() == members@.len(),
            forall|k: int| 0 <= k < members@.len() ==> #[trigger] m[k] == (members@[k].0@, members@[k].1.model()),
            json.model() == JsonModel::Object(m),
            config_fields(m.take(i as int)) == Some(ConfigFields {
                schema_version,
                language,
                launch_at_login,
                drag_snap_enabled,
                hotkeys: match hotkeys {
                    Some(h) => Some(h@),
                    None => None,
                },
                gap,
                snap_threshold,
                restore_on_display_change,
            }),
        decreases members@.len() - i,
    {
        proof {
            lemma_prefix_step(m, i as int);
            if config_fields(m.take(i + 1)) is None {
                lemma_config_fields_stay_failed(m, i + 1, m.len() as int);
                assert(m.take(m.len() as int) =~= m);
            }
        }
        let (name, value) = (&members[i].0, &members[i].1);
        if same_text(name, "schema_version") {
            if schema_version.is_some() {
                return None;
            }
            match u32_of(value) {
                Some(v) => schema_version = Some(v),
                None => return None,
            }
        } else if same_text(name, "language") {
            if language.is_some() {
                return None;
            }
            match language_of(value) {
                Some(v) => language = Some(v),
                None => return None,
            }
        } else if same_text(name, "launch_at_login") {
            if launch_at_login.is_some() {
                return None;
            }
            match bool_of(value) {
                Some(v) => launch_at_login = Some(v),
                None => return None,
            }
        } else if same_text(name, "drag_snap_enabled") {
            if drag_snap_enabled.is_some() {
                return None;
            }
            match bool_of(value) {
                Some(v) => drag_snap_enabled = Some(v),
                None => return None,
            }
        } else if same_text(name, "hotkeys") {
            if hotkeys.is_some() {
                return None;
            }
            match hotkeys_of(value) {
                Some(v) => hotkeys = Some(v),
                None => return None,
            }
        } else if same_text(name, "gap") {
            if gap.is_some() {
                return None;
            }
            match u16_of(value) {
                Some(v) => gap = Some(v),
                None => return None,
            }
        } else if same_text(name, "snap_threshold") {
            if snap_threshold.is_some() {
                return None;
            }
            match u16_of(value) {
                Some(v) => snap_threshold = Some(v),
                None => return None,
            }
        } else if same_text(name, "restore_on_display_change") {
            if restore_on_display_change.is_some() {
                return None;
            }
            match bool_of(value) {
                Some(v) => restore_on_display_change = Some(v),
                None => return None,
            }
        } else {
            return None;
        }
        i = i + 1;
    }
    assert(m.take(i as int) =~= m);
    match (schema_version, language, launch_at_login, drag_snap_enabled, hotkeys) {
        (Some(schema_version), Some(language), Some(launch_at_login), Some(drag_snap_enabled), Some(hotkeys)) => {
            Some(AppConfig {
                schema_version,
                language,
                launch_at_login,
                drag_snap_enabled,
                hotkeys,
                gap: match gap {
                    Some(v) => v,
                    None => 0,
                },
                snap_threshold: match snap_threshold {
                    Some(v) => v,
                    None => DEFAULT_SNAP_THRESHOLD,
                },
                restore_on_display_change: match restore_on_display_change {
                    Some(v) => v,
                    None => true,
                },
            })
        },
        _ => None,
    }
}

/// Every action is read back from the name it is written as.
pub proof fn lemma_action_names_round_trip(action: Action)
    ensures
        action_named(action.key()) == Some(action),
{
    reveal_strlit("left_half");
    reveal_strlit("right_half");
    reveal_strlit("top_half");
    reveal_strlit("bottom_half");
    reveal_strlit("top_left");
    reveal_strlit("top_right");
    reveal_strlit("bottom_left");
    reveal_strlit("bottom_right");
    reveal_strlit("first_third");
    reveal_strlit("center_third");
    reveal_strlit("last_third");
    reveal_strlit("first_two_thirds");
    reveal_strlit("center_two_thirds");
    reveal_strlit("last_two_thirds");
    reveal_strlit("center_half");
    reveal_strlit("center");
    reveal_strlit("almost_maximize");
    reveal_strlit("maximize_height");
    reveal_strlit("grow");
    reveal_strlit("shrink");
    reveal_strlit("move_left");
    reveal_strlit("move_right");
    reveal_strlit("move_up");
    reveal_strlit("move_down");
    reveal_strlit("maximize");
    reveal_strlit("restore");
    reveal_strlit("undo");
    reveal_strlit("next_monitor");
    reveal_strlit("previous_monitor");
    reveal_strlit("show_shortcuts");
    assert("left_half"@.len() == 9);
    assert("right_half"@.len() == 10);
    assert("top_half"@.len() == 8);
    assert("bottom_half"@.len() == 11);
    assert("top_left"@.len() == 8);
    assert("top_right"@.len() == 9);
    assert("bottom_left"@.len() == 11);
    assert("bottom_right"@.len() == 12);
    assert("first_third"@.len() == 11);
    assert("center_third"@.len() == 12);
    assert("last_third"@.len() == 10);
    assert("first_two_thirds"@.len() == 16);
    assert("center_two_thirds"@.len() == 17);
    assert("last_two_thirds"@.len() == 15);
    assert("center_half"@.len() == 11);
    assert("center"@.len() == 6);
    assert("almost_maximize"@.len() == 15);
    assert("maximize_height"@.len() == 15);
    assert("grow"@.len() == 4);
    assert("shrink"@.len() == 6);
    assert("move_left"@.len() == 9);
    assert("move_right"@.len() == 10);
    assert("move_up"@.len() == 7);
    assert("move_down"@.len() == 9);
    assert("maximize"@.len() == 8);
    assert("restore"@.len() == 7);
    assert("undo"@.len() == 4);
    assert("next_monitor"@.len() == 12);
    assert("previous_monitor"@.len() == 16);
    assert("show_shortcuts"@.len() == 14);
    assert("almost_maximize"@[0] == 'a');
    assert("bottom_half"@[0] == 'b');
    assert("bottom_half"@[7] == 'h');
    assert("bottom_left"@[0] == 'b');
    assert("bottom_left"@[7] == 'l');
    assert("bottom_right"@[0] == 'b');
    assert("center"@[0] == 'c');
    assert("center_half"@[0] == 'c');
    assert("center_third"@[0] == 'c');
    assert("first_third"@[0] == 'f');
    assert("first_two_thirds"@[0] == 'f');
    assert("grow"@[0] == 'g');
    assert("last_third"@[0] == 'l');
    assert("last_two_thirds"@[0] == 'l');
    assert("left_half"@[0] == 'l');
    assert("maximize"@[0] == 'm');
    assert("maximize_height"@[0] == 'm');
    assert("move_down"@[0] == 'm');
    assert("move_down"@[5] == 'd');
    assert("move_left"@[0] == 'm');
    assert("move_left"@[5] == 'l');
    assert("move_right"@[0] == 'm');
    assert("move_up"@[0] == 'm');
    assert("next_monitor"@[0] == 'n');
    assert("previous_monitor"@[0] == 'p');
    assert("restore"@[0] == 'r');
    assert("right_half"@[0] == 'r');
    assert("shrink"@[0] == 's');
    assert("top_half"@[0] == 't');
    assert("top_half"@[4] == 'h');
    assert("top_left"@[0] == 't');
    assert("top_left"@[4] == 'l');
    assert("top_right"@[0] == 't');
    assert("undo"@[0] == 'u');
}

proof fn lemma_language_names_round_trip(language: Language)
    ensures
        language_named(language_key(language)) == Some(language),
{
    reveal_strlit("italian");
    reveal_strlit("english");
    assert("italian"@[0] == 'i');
    assert("english"@[0] == 'e');
}

/// Every shortcut is read back from the value it is written as.
pub proof fn lemma_binding_round_trip(binding: HotkeyBinding)
    ensures
        binding_from(binding_model(binding)) == Some(binding),
{
    lemma_action_names_round_trip(binding.action);
    reveal_strlit("action");
    reveal_strlit("modifiers");
    reveal_strlit("virtual_key");
    assert("action"@.len() == 6);
    assert("modifiers"@.len() == 9);
    assert("virtual_key"@.len() == 11);
    let members = seq![
        ("action"@, JsonModel::String(binding.action.key())),
        ("modifiers"@, unsigned(binding.modifiers as int)),
        ("virtual_key"@, unsigned(binding.virtual_key as int)),
    ];
    assert(members.drop_last() =~= seq![
        ("action"@, JsonModel::String(binding.action.key())),
        ("modifiers"@, unsigned(binding.modifiers as int)),
    ]);
    assert(members.drop_last().drop_last() =~= seq![("action"@, JsonModel::String(binding.action.key()))]);
    assert(members.drop_last().drop_last().drop_last() =~= Seq::<(Seq<char>, JsonModel)>::empty());
    reveal_with_fuel(binding_fields, 4);
}

pub proof fn lemma_hotkeys_round_trip(hotkeys: Seq<HotkeyBinding>)
    ensures
        hotkeys_from(hotkeys_model(hotkeys)) == Some(hotkeys),
{
    let items = hotkeys.map_values(|binding: HotkeyBinding| binding_model(binding));
    assert forall|i: int| 0 <= i < items.len() implies (#[trigger] binding_from(items[i])) == Some(hotkeys[i]) by {
        lemma_binding_round_trip(hotkeys[i]);
    }
    assert(Seq::new(items.len(), |i: int| binding_from(items[i])->0) =~= hotkeys);
}

/// Every configuration is read back from the value it is written as.
pub proof fn lemma_config_round_trip(config: ConfigView)
    ensures
        config_from(config_model(config)) == Some(config),
{
    lemma_hotkeys_round_trip(config.hotkeys);
    lemma_language_names_round_trip(config.language);
    reveal_strlit("drag_snap_enabled");
    reveal_strlit("gap");
    reveal_strlit("hotkeys");
    reveal_strlit("language");
    reveal_strlit("launch_at_login");
    reveal_strlit("restore_on_display_change");
    reveal_strlit("schema_version");
    reveal_strlit("snap_threshold");
    assert("drag_snap_enabled"@.len() == 17);
    assert("gap"@.len() == 3);
    assert("hotkeys"@.len() == 7);
    assert("language"@.len() == 8);
    assert("launch_at_login"@.len() == 15);
    assert("restore_on_display_change"@.len() == 25);
    assert("schema_version"@.len() == 14);
    assert("snap_threshold"@.len() == 14);
    assert("schema_version"@[1] == 'c');
    assert("snap_threshold"@[1] == 'n');
    let m = seq![
        ("drag_snap_enabled"@, JsonModel::Bool(config.drag_snap_enabled)),
        ("gap"@, unsigned(config.gap as int)),
        ("hotkeys"@, hotkeys_model(config.hotkeys)),
        ("language"@, JsonModel::String(language_key(config.language))),
        ("launch_at_login"@, JsonModel::Bool(config.launch_at_login)),
        ("restore_on_display_change"@, JsonModel::Bool(config.restore_on_display_change)),
        ("schema_version"@, unsigned(config.schema_version as int)),
        ("snap_threshold"@, unsigned(config.snap_threshold as int)),
    ];
    assert(config_model(config) == JsonModel::Object(m));
    assert(m.len() == 8);
    assert forall|k: int| 0 <= k < 8 implies #[trigger] m.take(k).len() == k by {}
    assert(m.take(8) =~= m);
    assert(m.take(1).drop_last() =~= m.take(0) && m.take(1).last() == m[0]);
    assert(m.take(2).drop_last() =~= m.take(1) && m.take(2).last() == m[1]);
    assert(m.take(3).drop_last() =~= m.take(2) && m.take(3).last() == m[2]);
    assert(m.take(4).drop_last() =~= m.take(3) && m.take(4).last() == m[3]);
    assert(m.take(5).drop_last() =~= m.take(4) && m.take(5).last() == m[4]);
    assert(m.take(6).drop_last() =~= m.take(5) && m.take(6).last() == m[5]);
    assert(m.take(7).drop_last() =~= m.take(6) && m.take(7).last() == m[6]);
    assert(m.take(8).drop_last() =~= m.take(7) && m.take(8).last() == m[7]);
    assert(m.take(0) =~= Seq::<(Seq<char>, JsonModel)>::empty());
    assert(config_fields(m.take(0)) == Some(no_config_fields()));
    assert(config_fields(m.take(1)) is Some);
    assert(config_fields(m.take(2)) is Some);
    assert(config_fields(m.take(3)) is Some);
    assert(config_fields(m.take(4)) is Some);
    assert(config_fields(m.take(5)) is Some);
    assert(config_fields(m.take(6)) is Some);
    assert(config_fields(m.take(7)) is Some);
    assert(config_fields(m.take(8)) is Some);
}

} // verus!
