use vstd::prelude::*;

use crate::action::Action;
use crate::geometry::NORMALIZED_SCALE;
use crate::keys::{decimal, push_decimal};
use vstd::string::StringExecFns;

verus! {

pub const CURRENT_SCHEMA_VERSION: u32 = 5;

pub const MAX_CONFIG_BYTES: usize = 1048576;

pub const CONFIG_FILE_NAME: &'static str = "config.json";

pub const INSTALLED_DIRECTORY_NAME: &'static str = "Quboid";

/// Suffix of the sidecar that keeps the sections a load had to leave behind, so
/// that the settings of another distribution survive the first Base save.
pub const UNSUPPORTED_SECTIONS_FILE_SUFFIX: &'static str = ".unsupported.json";

pub const DEFAULT_SNAP_THRESHOLD: u16 = 500;

/// Modifier bits, as `RegisterHotKey` reads them.
pub const MOD_ALT: u32 = 1;

pub const MOD_CONTROL: u32 = 2;

pub const MOD_SHIFT: u32 = 4;

pub const MOD_WIN: u32 = 8;

#[derive(Clone, Copy, Debug, Default, PartialEq, Eq, Structural)]
pub enum Language {
    Italian,
    #[default]
    English,
}

pub open spec fn is_subtag_separator(c: char) -> bool {
    c == '-' || c == '_'
}

/// The length of the primary subtag of a locale tag: everything before the
/// first `-` or `_`.
pub open spec fn primary_subtag_len(tag: Seq<char>) -> nat
    decreases tag.len(),
{
    if tag.len() == 0 || is_subtag_separator(tag[0]) {
        0
    } else {
        1 + primary_subtag_len(tag.drop_first())
    }
}

/// `c` with ASCII upper case turned into lower case, as `to_ascii_lowercase` does.
pub open spec fn ascii_lower(c: char) -> char {
    if 'A' <= c <= 'Z' {
        ((c as u32) + 32) as char
    } else {
        c
    }
}

/// The language a locale tag asks for: Italian for the primary subtag `it`, in
/// any ASCII case, and English for everything else.
pub open spec fn language_of_tag(tag: Seq<char>) -> Language {
    if primary_subtag_len(tag) == 2 && ascii_lower(tag[0]) == 'i' && ascii_lower(tag[1]) == 't' {
        Language::Italian
    } else {
        Language::English
    }
}

proof fn lemma_primary_subtag(tag: Seq<char>, i: int)
    requires
        0 <= i <= tag.len(),
        forall|k: int| 0 <= k < i ==> !is_subtag_separator(#[trigger] tag[k]),
    ensures
        primary_subtag_len(tag) >= i,
        i < tag.len() && is_subtag_separator(tag[i]) ==> primary_subtag_len(tag) == i,
        i == tag.len() ==> primary_subtag_len(tag) == i,
    decreases i,
{
    if i > 0 {
        let rest = tag.drop_first();
        assert forall|k: int| 0 <= k < i - 1 implies !is_subtag_separator(#[trigger] rest[k]) by {
            assert(rest[k] == tag[k + 1]);
        }
        lemma_primary_subtag(rest, i - 1);
    }
}

impl Language {
    /// The interface language a BCP 47 locale tag asks for, such as the
    /// `it-CH` Windows reports for its user locale.
    ///
    /// Only the primary subtag is read, and anything not translated falls back
    /// to English.
    pub fn from_locale_tag(tag: &str) -> (language: Self)
        ensures
            language == language_of_tag(tag@),
    {
        let length = tag.unicode_len();
        let mut i: usize = 0;
        while i < length
            invariant
                length == tag@.len(),
                i <= length,
                forall|k: int| 0 <= k < i ==> !is_subtag_separator(#[trigger] tag@[k]),
            ensures
                i <= length,
                forall|k: int| 0 <= k < i ==> !is_subtag_separator(#[trigger] tag@[k]),
                i < length ==> is_subtag_separator(tag@[i as int]),
            decreases length - i,
        {
            let c = tag.get_char(i);
            if c == '-' || c == '_' {
                break;
            }
            i = i + 1;
        }
        proof {
            lemma_primary_subtag(tag@, i as int);
        }
        if i != 2 {
            return Language::English;
        }
        let first = lower_ascii(tag.get_char(0));
        let second = lower_ascii(tag.get_char(1));
        if first == 'i' && second == 't' {
            Language::Italian
        } else {
            Language::English
        }
    }
}

fn lower_ascii(c: char) -> (lower: char)
    ensures
        lower == ascii_lower(c),
{
    if 'A' <= c && c <= 'Z' {
        ((c as u8) + 32) as char
    } else {
        c
    }
}

/// A global shortcut: the modifier bits and the virtual key that run `action`.
#[derive(Clone, Copy, Debug, PartialEq, Eq, Structural)]
pub struct HotkeyBinding {
    pub action: Action,
    pub modifiers: u32,
    pub virtual_key: u32,
}

pub open spec fn binding(action: Action, modifiers: u32, virtual_key: u32) -> HotkeyBinding {
    HotkeyBinding { action, modifiers, virtual_key }
}

/// The settings of one installation.
#[derive(Clone, Debug, PartialEq, Eq)]
pub struct AppConfig {
    pub schema_version: u32,
    pub language: Language,
    pub launch_at_login: bool,
    pub drag_snap_enabled: bool,
    pub hotkeys: Vec<HotkeyBinding>,
    pub gap: u16,
    pub snap_threshold: u16,
    /// Whether placed windows are put back where they were once the monitors
    /// change, which is what a dock or an undock does to them.
    pub restore_on_display_change: bool,
}

/// What a configuration says, with its shortcuts as a sequence.
pub struct ConfigView {
    pub schema_version: u32,
    pub language: Language,
    pub launch_at_login: bool,
    pub drag_snap_enabled: bool,
    pub hotkeys: Seq<HotkeyBinding>,
    pub gap: u16,
    pub snap_threshold: u16,
    pub restore_on_display_change: bool,
}

impl View for AppConfig {
    type V = ConfigView;

    open spec fn view(&self) -> ConfigView {
        ConfigView {
            schema_version: self.schema_version,
            language: self.language,
            launch_at_login: self.launch_at_login,
            drag_snap_enabled: self.drag_snap_enabled,
            hotkeys: self.hotkeys@,
            gap: self.gap,
            snap_threshold: self.snap_threshold,
            restore_on_display_change: self.restore_on_display_change,
        }
    }
}

/// The settings a new installation starts with.
pub open spec fn default_config() -> ConfigView {
    ConfigView {
        schema_version: CURRENT_SCHEMA_VERSION,
        language: Language::English,
        launch_at_login: false,
        drag_snap_enabled: true,
        hotkeys: rectangle_defaults(),
        gap: 0,
        snap_threshold: DEFAULT_SNAP_THRESHOLD,
        restore_on_display_change: true,
    }
}

/// Why a configuration cannot be used.
#[derive(Clone, Copy, Debug, PartialEq, Eq, Structural)]
pub enum ConfigError {
    /// The schema version is newer than this build supports.
    FutureVersion(u32),
    /// The schema version is older than the one this build reads directly.
    UnsupportedVersion(u32),
    /// The shortcut at this index has no key.
    InvalidHotkey(usize),
    /// The shortcut at this index repeats the combination of an earlier one.
    DuplicateHotkey(usize),
    /// The gap is outside the normalized range.
    InvalidGap(u16),
    /// The snap threshold is outside the normalized range.
    InvalidSnapThreshold(u16),
}

pub open spec fn same_combination(a: HotkeyBinding, b: HotkeyBinding) -> bool {
    a.modifiers == b.modifiers && a.virtual_key == b.virtual_key
}

/// What is wrong with the shortcut at index `i`, given the ones before it.
pub open spec fn hotkey_fault(hotkeys: Seq<HotkeyBinding>, i: int) -> Option<ConfigError> {
    if hotkeys[i].virtual_key == 0 {
        Some(ConfigError::InvalidHotkey(i as usize))
    } else if exists|j: int| 0 <= j < i && same_combination(#[trigger] hotkeys[j], hotkeys[i]) {
        Some(ConfigError::DuplicateHotkey(i as usize))
    } else {
        None
    }
}

/// The fault of the first faulty shortcut among the first `n`.
pub open spec fn first_hotkey_fault(hotkeys: Seq<HotkeyBinding>, n: nat) -> Option<ConfigError>
    decreases n,
{
    if n == 0 {
        None
    } else {
        match first_hotkey_fault(hotkeys, (n - 1) as nat) {
            Some(error) => Some(error),
            None => hotkey_fault(hotkeys, n - 1),
        }
    }
}

/// The first rule a configuration breaks, checked in a fixed order.
pub open spec fn validation(config: ConfigView) -> Result<(), ConfigError> {
    if config.schema_version > CURRENT_SCHEMA_VERSION {
        Err(ConfigError::FutureVersion(config.schema_version))
    } else if config.schema_version != CURRENT_SCHEMA_VERSION {
        Err(ConfigError::UnsupportedVersion(config.schema_version))
    } else if config.gap > NORMALIZED_SCALE {
        Err(ConfigError::InvalidGap(config.gap))
    } else if config.snap_threshold > NORMALIZED_SCALE {
        Err(ConfigError::InvalidSnapThreshold(config.snap_threshold))
    } else {
        match first_hotkey_fault(config.hotkeys, config.hotkeys.len()) {
            Some(error) => Err(error),
            None => Ok(()),
        }
    }
}

/// How a broken rule is described to the user.
pub open spec fn config_error_text(error: ConfigError) -> Seq<char> {
    match error {
        ConfigError::FutureVersion(v) => "configuration schema version "@ + decimal(v as nat)
            + " is newer than this build supports"@,
        ConfigError::UnsupportedVersion(v) => "configuration schema version "@ + decimal(v as nat) + " is not supported"@,
        ConfigError::InvalidHotkey(i) => "hotkey at index "@ + decimal(i as nat) + " has no key"@,
        ConfigError::DuplicateHotkey(i) => "hotkey at index "@ + decimal(i as nat) + " duplicates an earlier binding"@,
        ConfigError::InvalidGap(g) => "gap "@ + decimal(g as nat) + " is outside the normalized range"@,
        ConfigError::InvalidSnapThreshold(t) => "snap threshold "@ + decimal(t as nat)
            + " is outside the normalized range"@,
    }
}

impl ConfigError {
    /// The description of the broken rule.
    pub fn message(&self) -> (message: String)
        ensures
            message@ == config_error_text(*self),
    {
        let (prefix, value, suffix): (&str, u64, &str) = match self {
            ConfigError::FutureVersion(v) => (
                "configuration schema version ",
                *v as u64,
                " is newer than this build supports",
            ),
            ConfigError::UnsupportedVersion(v) => ("configuration schema version ", *v as u64, " is not supported"),
            ConfigError::InvalidHotkey(i) => ("hotkey at index ", *i as u64, " has no key"),
            ConfigError::DuplicateHotkey(i) => ("hotkey at index ", *i as u64, " duplicates an earlier binding"),
            ConfigError::InvalidGap(g) => ("gap ", *g as u64, " is outside the normalized range"),
            ConfigError::InvalidSnapThreshold(t) => ("snap threshold ", *t as u64, " is outside the normalized range"),
        };
        let mut message = prefix.to_owned();
        push_decimal(&mut message, value);
        message.append(suffix);
        message
    }
}

/// Once a fault is found among the first `n` shortcuts, looking at more of them
/// reports the same fault.
proof fn lemma_first_fault_is_kept(hotkeys: Seq<HotkeyBinding>, n: nat, m: nat)
    requires
        n <= m,
        first_hotkey_fault(hotkeys, n) is Some,
    ensures
        first_hotkey_fault(hotkeys, m) == first_hotkey_fault(hotkeys, n),
    decreases m - n,
{
    if n < m {
        lemma_first_fault_is_kept(hotkeys, n, (m - 1) as nat);
    }
}

pub open spec fn is_valid_config(config: ConfigView) -> bool {
    validation(config) is Ok
}

/// The settings a new installation starts with pass validation.
pub proof fn lemma_default_config_is_valid()
    ensures
        is_valid_config(default_config()),
{
    let hotkeys = rectangle_defaults();
    assert forall|i: int| 0 <= i < hotkeys.len() implies #[trigger] hotkey_fault(hotkeys, i) is None by {
        assert forall|j: int| 0 <= j < i implies !same_combination(#[trigger] hotkeys[j], hotkeys[i]) by {}
    }
    reveal_with_fuel(first_hotkey_fault, 23);
}

pub fn default_snap_threshold() -> (threshold: u16)
    ensures
        threshold == DEFAULT_SNAP_THRESHOLD,
{
    DEFAULT_SNAP_THRESHOLD
}

pub fn default_restore_on_display_change() -> (restore: bool)
    ensures
        restore,
{
    true
}

/// The shortcuts a new installation starts with, the ones Rectangle uses.
pub open spec fn rectangle_defaults() -> Seq<HotkeyBinding> {
    let control_alt: u32 = 3;
    seq![
        binding(Action::LeftHalf, control_alt, 0x25),
        binding(Action::RightHalf, control_alt, 0x27),
        binding(Action::TopHalf, control_alt, 0x26),
        binding(Action::BottomHalf, control_alt, 0x28),
        binding(Action::TopLeft, control_alt, 0x55),
        binding(Action::TopRight, control_alt, 0x49),
        binding(Action::BottomLeft, control_alt, 0x4A),
        binding(Action::BottomRight, control_alt, 0x4B),
        binding(Action::FirstThird, control_alt, 0x44),
        binding(Action::FirstTwoThirds, control_alt, 0x45),
        binding(Action::CenterThird, control_alt, 0x46),
        binding(Action::CenterTwoThirds, control_alt, 0x52),
        binding(Action::LastTwoThirds, control_alt, 0x54),
        binding(Action::LastThird, control_alt, 0x47),
        binding(Action::Maximize, control_alt, 0x0D),
        binding(Action::MaximizeHeight, 7, 0x26),
        binding(Action::Grow, control_alt, 0xBB),
        binding(Action::Shrink, control_alt, 0xBD),
        binding(Action::Center, control_alt, 0x43),
        binding(Action::Restore, control_alt, 0x2E),
        binding(Action::PreviousMonitor, 11, 0x25),
        binding(Action::NextMonitor, 11, 0x27),
    ]
}

/// The shortcuts the first versions started with, before the Rectangle set.
pub open spec fn legacy_defaults() -> Seq<HotkeyBinding> {
    seq![
        binding(Action::LeftHalf, 3, 0x25),
        binding(Action::RightHalf, 3, 0x27),
        binding(Action::Maximize, 3, 0x26),
        binding(Action::Restore, 3, 0x28),
    ]
}

pub fn rectangle_default_hotkeys() -> (hotkeys: Vec<HotkeyBinding>)
    ensures
        hotkeys@ == rectangle_defaults(),
{
    let control_alt: u32 = MOD_CONTROL | MOD_ALT;
    assert(control_alt == 3) by (bit_vector)
        requires
            control_alt == 2u32 | 1u32,
    ;
    let control_alt_shift: u32 = control_alt | MOD_SHIFT;
    assert(control_alt_shift == 7) by (bit_vector)
        requires
            control_alt_shift == 3u32 | 4u32,
    ;
    let control_alt_win: u32 = control_alt | MOD_WIN;
    assert(control_alt_win == 11) by (bit_vector)
        requires
            control_alt_win == 3u32 | 8u32,
    ;
    let table: [(Action, u32, u32); 22] = [
        (Action::LeftHalf, control_alt, 0x25),
        (Action::RightHalf, control_alt, 0x27),
        (Action::TopHalf, control_alt, 0x26),
        (Action::BottomHalf, control_alt, 0x28),
        (Action::TopLeft, control_alt, 0x55),
        (Action::TopRight, control_alt, 0x49),
        (Action::BottomLeft, control_alt, 0x4A),
        (Action::BottomRight, control_alt, 0x4B),
        (Action::FirstThird, control_alt, 0x44),
        (Action::FirstTwoThirds, control_alt, 0x45),
        (Action::CenterThird, control_alt, 0x46),
        (Action::CenterTwoThirds, control_alt, 0x52),
        (Action::LastTwoThirds, control_alt, 0x54),
        (Action::LastThird, control_alt, 0x47),
        (Action::Maximize, control_alt, 0x0D),
        (Action::MaximizeHeight, control_alt_shift, 0x26),
        (Action::Grow, control_alt, 0xBB),
        (Action::Shrink, control_alt, 0xBD),
        (Action::Center, control_alt, 0x43),
        (Action::Restore, control_alt, 0x2E),
        (Action::PreviousMonitor, control_alt_win, 0x25),
        (Action::NextMonitor, control_alt_win, 0x27),
    ];
    bindings_from_table(&table)
}

pub fn legacy_default_hotkeys() -> (hotkeys: Vec<HotkeyBinding>)
    ensures
        hotkeys@ == legacy_defaults(),
{
    let control_alt: u32 = MOD_CONTROL | MOD_ALT;
    assert(control_alt == 3) by (bit_vector)
        requires
            control_alt == 2u32 | 1u32,
    ;
    let table: [(Action, u32, u32); 4] = [
        (Action::LeftHalf, control_alt, 0x25),
        (Action::RightHalf, control_alt, 0x27),
        (Action::Maximize, control_alt, 0x26),
        (Action::Restore, control_alt, 0x28),
    ];
    bindings_from_table(&table)
}

impl AppConfig {
    /// A copy of the settings.
    pub fn copy(&self) -> (copy: AppConfig)
        ensures
            copy@ == self@,
    {
        let mut hotkeys: Vec<HotkeyBinding> = Vec::new();
        let mut i: usize = 0;
        while i < self.hotkeys.len()
            invariant
                i <= self.hotkeys@.len(),
                hotkeys@ == self.hotkeys@.take(i as int),
            decreases self.hotkeys@.len() - i,
        {
            hotkeys.push(self.hotkeys[i]);
            i = i + 1;
            assert(hotkeys@ =~= self.hotkeys@.take(i as int));
        }
        assert(self.hotkeys@.take(i as int) =~= self.hotkeys@);
        AppConfig {
            schema_version: self.schema_version,
            language: self.language,
            launch_at_login: self.launch_at_login,
            drag_snap_enabled: self.drag_snap_enabled,
            hotkeys,
            gap: self.gap,
            snap_threshold: self.snap_threshold,
            restore_on_display_change: self.restore_on_display_change,
        }
    }

    pub fn validate(&self) -> (result: Result<(), ConfigError>)
        ensures
            result == validation(self@),
    {
        if self.schema_version > CURRENT_SCHEMA_VERSION {
            return Err(ConfigError::FutureVersion(self.schema_version));
        }
        if self.schema_version != CURRENT_SCHEMA_VERSION {
            return Err(ConfigError::UnsupportedVersion(self.schema_version));
        }
        if self.gap > NORMALIZED_SCALE {
            return Err(ConfigError::InvalidGap(self.gap));
        }
        if self.snap_threshold > NORMALIZED_SCALE {
            return Err(ConfigError::InvalidSnapThreshold(self.snap_threshold));
        }
        let hotkeys = &self.hotkeys;
        let mut index: usize = 0;
        while index < hotkeys.len()
            invariant
                index <= hotkeys@.len(),
                hotkeys@ == self.hotkeys@,
                self.schema_version == CURRENT_SCHEMA_VERSION,
                self.gap <= NORMALIZED_SCALE,
                self.snap_threshold <= NORMALIZED_SCALE,
                first_hotkey_fault(hotkeys@, index as nat) is None,
            decreases hotkeys@.len() - index,
        {
            let current = hotkeys[index];
            if current.virtual_key == 0 {
                proof {
                    assert(first_hotkey_fault(hotkeys@, (index + 1) as nat) == Some(ConfigError::InvalidHotkey(index)));
                    lemma_first_fault_is_kept(hotkeys@, (index + 1) as nat, hotkeys@.len());
                }
                return Err(ConfigError::InvalidHotkey(index));
            }
            let mut earlier: usize = 0;
            while earlier < index
                invariant
                    index < hotkeys@.len(),
                    earlier <= index,
                    current == hotkeys@[index as int],
                    current.virtual_key != 0,
                    hotkeys@ == self.hotkeys@,
                    self.schema_version == CURRENT_SCHEMA_VERSION,
                    self.gap <= NORMALIZED_SCALE,
                    self.snap_threshold <= NORMALIZED_SCALE,
                    first_hotkey_fault(hotkeys@, index as nat) is None,
                    forall|j: int| 0 <= j < earlier ==> !same_combination(#[trigger] hotkeys@[j], current),
                decreases index - earlier,
            {
                let other = hotkeys[earlier];
                if other.modifiers == current.modifiers && other.virtual_key == current.virtual_key {
                    proof {
                        assert(same_combination(hotkeys@[earlier as int], hotkeys@[index as int]));
                        assert(first_hotkey_fault(hotkeys@, (index + 1) as nat) == Some(ConfigError::DuplicateHotkey(index)));
                        lemma_first_fault_is_kept(hotkeys@, (index + 1) as nat, hotkeys@.len());
                    }
                    return Err(ConfigError::DuplicateHotkey(index));
                }
                earlier = earlier + 1;
            }
            index = index + 1;
        }
        Ok(())
    }
}

impl Default for AppConfig {
    fn default() -> (config: Self)
        ensures
            config@ == default_config(),
    {
        AppConfig {
            schema_version: CURRENT_SCHEMA_VERSION,
            language: Language::English,
            launch_at_login: false,
            drag_snap_enabled: true,
            hotkeys: rectangle_default_hotkeys(),
            gap: 0,
            snap_threshold: DEFAULT_SNAP_THRESHOLD,
            restore_on_display_change: true,
        }
    }
}

fn bindings_from_table(table: &[(Action, u32, u32)]) -> (hotkeys: Vec<HotkeyBinding>)
    ensures
        hotkeys@.len() == table@.len(),
        forall|i: int|
            0 <= i < table@.len() ==> #[trigger] hotkeys@[i] == binding(table@[i].0, table@[i].1, table@[i].2),
{
    let mut hotkeys: Vec<HotkeyBinding> = Vec::new();
    let mut i: usize = 0;
    while i < table.len()
        invariant
            i <= table@.len(),
            hotkeys@.len() == i,
            forall|k: int| 0 <= k < i ==> #[trigger] hotkeys@[k] == binding(table@[k].0, table@[k].1, table@[k].2),
        decreases table@.len() - i,
    {
        let (action, modifiers, virtual_key) = table[i];
        hotkeys.push(HotkeyBinding { action, modifiers, virtual_key });
        i = i + 1;
    }
    hotkeys
}


} // verus!
