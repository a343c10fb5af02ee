//! What the settings window decides without drawing anything: the labels it
//! shows in either language, the names of keys and shortcuts, the pages a host
//! contributes, and the values it generates.

use vstd::prelude::*;

use crate::action::Action;
use crate::config::{AppConfig, Language};
use crate::geometry::NormalizedRect;
use crate::keys::decimal;
use vstd::string::StringExecFns;

verus! {

/// What the user asked for through the settings window.
#[derive(Clone, Debug)]
pub enum UiIntent {
    Apply(Action),
    /// Places the active window on the given fraction of its work area.
    ApplyArea(NormalizedRect),
    Save(AppConfig),
    SetShortcutCaptureActive(bool),
    Import,
    Export(AppConfig),
    Hide,
}

pub open spec fn pick<T>(language: Language, italian: T, english: T) -> T {
    match language {
        Language::Italian => italian,
        Language::English => english,
    }
}

/// Picks the string matching the interface language.
pub fn text<'a>(language: Language, italian: &'a str, english: &'a str) -> (chosen: &'a str)
    ensures
        chosen@ == pick(language, italian@, english@),
{
    match language {
        Language::Italian => italian,
        Language::English => english,
    }
}

/// The Italian name of an action.
pub open spec fn italian_action_name(action: Action) -> Seq<char> {
    match action {
        Action::LeftHalf => "Metà sinistra"@,
        Action::RightHalf => "Metà destra"@,
        Action::TopHalf => "Metà superiore"@,
        Action::BottomHalf => "Metà inferiore"@,
        Action::TopLeft => "Alto sinistra"@,
        Action::TopRight => "Alto destra"@,
        Action::BottomLeft => "Basso sinistra"@,
        Action::BottomRight => "Basso destra"@,
        Action::FirstThird => "Primo terzo"@,
        Action::CenterThird => "Terzo centrale"@,
        Action::LastThird => "Ultimo terzo"@,
        Action::FirstTwoThirds => "Primi 2/3"@,
        Action::CenterTwoThirds => "2/3 centrali"@,
        Action::LastTwoThirds => "Ultimi 2/3"@,
        Action::CenterHalf => "Metà centrale"@,
        Action::Center => "Centra"@,
        Action::AlmostMaximize => "Quasi massimizza"@,
        Action::MaximizeHeight => "Massimizza altezza"@,
        Action::Grow => "Ingrandisci"@,
        Action::Shrink => "Riduci"@,
        Action::MoveLeft => "Sposta a sinistra"@,
        Action::MoveRight => "Sposta a destra"@,
        Action::MoveUp => "Sposta in alto"@,
        Action::MoveDown => "Sposta in basso"@,
        Action::Maximize => "Massimizza"@,
        Action::Restore => "Ripristina"@,
        Action::Undo => "Annulla"@,
        Action::NextMonitor => "Monitor successivo"@,
        Action::PreviousMonitor => "Monitor precedente"@,
        Action::ShowShortcuts => "Mostra scorciatoie"@,
    }
}

/// The English name of an action.
pub open spec fn english_action_name(action: Action) -> Seq<char> {
    match action {
        Action::LeftHalf => "Left half"@,
        Action::RightHalf => "Right half"@,
        Action::TopHalf => "Top half"@,
        Action::BottomHalf => "Bottom half"@,
        Action::TopLeft => "Top left"@,
        Action::TopRight => "Top right"@,
        Action::BottomLeft => "Bottom left"@,
        Action::BottomRight => "Bottom right"@,
        Action::FirstThird => "First third"@,
        Action::CenterThird => "Center third"@,
        Action::LastThird => "Last third"@,
        Action::FirstTwoThirds => "First 2/3"@,
        Action::CenterTwoThirds => "Center 2/3"@,
        Action::LastTwoThirds => "Last 2/3"@,
        Action::CenterHalf => "Center half"@,
        Action::Center => "Center"@,
        Action::AlmostMaximize => "Almost maximize"@,
        Action::MaximizeHeight => "Maximize height"@,
        Action::Grow => "Grow"@,
        Action::Shrink => "Shrink"@,
        Action::MoveLeft => "Move left"@,
        Action::MoveRight => "Move right"@,
        Action::MoveUp => "Move up"@,
        Action::MoveDown => "Move down"@,
        Action::Maximize => "Maximize"@,
        Action::Restore => "Restore"@,
        Action::Undo => "Undo"@,
        Action::NextMonitor => "Next monitor"@,
        Action::PreviousMonitor => "Previous monitor"@,
        Action::ShowShortcuts => "Show shortcuts"@,
    }
}

fn italian_name(action: Action) -> (name: &'static str)
    ensures
        name@ == italian_action_name(action),
{
    match action {
        Action::LeftHalf => "Metà sinistra",
        Action::RightHalf => "Metà destra",
        Action::TopHalf => "Metà superiore",
        Action::BottomHalf => "Metà inferiore",
        Action::TopLeft => "Alto sinistra",
        Action::TopRight => "Alto destra",
        Action::BottomLeft => "Basso sinistra",
        Action::BottomRight => "Basso destra",
        Action::FirstThird => "Primo terzo",
        Action::CenterThird => "Terzo centrale",
        Action::LastThird => "Ultimo terzo",
        Action::FirstTwoThirds => "Primi 2/3",
        Action::CenterTwoThirds => "2/3 centrali",
        Action::LastTwoThirds => "Ultimi 2/3",
        Action::CenterHalf => "Metà centrale",
        Action::Center => "Centra",
        Action::AlmostMaximize => "Quasi massimizza",
        Action::MaximizeHeight => "Massimizza altezza",
        Action::Grow => "Ingrandisci",
        Action::Shrink => "Riduci",
        Action::MoveLeft => "Sposta a sinistra",
        Action::MoveRight => "Sposta a destra",
        Action::MoveUp => "Sposta in alto",
        Action::MoveDown => "Sposta in basso",
        Action::Maximize => "Massimizza",
        Action::Restore => "Ripristina",
        Action::Undo => "Annulla",
        Action::NextMonitor => "Monitor successivo",
        Action::PreviousMonitor => "Monitor precedente",
        Action::ShowShortcuts => "Mostra scorciatoie",
    }
}

fn english_name(action: Action) -> (name: &'static str)
    ensures
        name@ == english_action_name(action),
{
    match action {
        Action::LeftHalf => "Left half",
        Action::RightHalf => "Right half",
        Action::TopHalf => "Top half",
        Action::BottomHalf => "Bottom half",
        Action::TopLeft => "Top left",
        Action::TopRight => "Top right",
        Action::BottomLeft => "Bottom left",
        Action::BottomRight => "Bottom right",
        Action::FirstThird => "First third",
        Action::CenterThird => "Center third",
        Action::LastThird => "Last third",
        Action::FirstTwoThirds => "First 2/3",
        Action::CenterTwoThirds => "Center 2/3",
        Action::LastTwoThirds => "Last 2/3",
        Action::CenterHalf => "Center half",
        Action::Center => "Center",
        Action::AlmostMaximize => "Almost maximize",
        Action::MaximizeHeight => "Maximize height",
        Action::Grow => "Grow",
        Action::Shrink => "Shrink",
        Action::MoveLeft => "Move left",
        Action::MoveRight => "Move right",
        Action::MoveUp => "Move up",
        Action::MoveDown => "Move down",
        Action::Maximize => "Maximize",
        Action::Restore => "Restore",
        Action::Undo => "Undo",
        Action::NextMonitor => "Next monitor",
        Action::PreviousMonitor => "Previous monitor",
        Action::ShowShortcuts => "Show shortcuts",
    }
}

/// The localized name of a standard action.
pub fn action_name(language: Language, action: Action) -> (name: &'static str)
    ensures
        name@ == pick(language, italian_action_name(action), english_action_name(action)),
{
    text(language, italian_name(action), english_name(action))
}

/// A label available in both interface languages.
#[derive(Clone, Copy, Debug, PartialEq, Eq)]
pub struct LocalizedText {
    pub italian: &'static str,
    pub english: &'static str,
}

impl LocalizedText {
    pub fn new(italian: &'static str, english: &'static str) -> (localized: Self)
        ensures
            localized.italian == italian,
            localized.english == english,
    {
        LocalizedText { italian, english }
    }

    pub fn resolve(self, language: Language) -> (resolved: &'static str)
        ensures
            resolved == pick(language, self.italian, self.english),
    {
        match language {
            Language::Italian => self.italian,
            Language::English => self.english,
        }
    }
}

/// The shapes the navigation rail can draw. Pages pick one; the settings window draws it.
#[derive(Clone, Copy, Debug, Default, PartialEq, Eq, Structural)]
pub enum PageIcon {
    /// Two panels side by side.
    #[default]
    Panels,
    /// A key row.
    Keys,
    /// A four-cell grid.
    Grid,
    /// Two stacked cards.
    Stack,
    /// A dial.
    Dial,
}

/// A page contributed by a host.
#[derive(Clone, Copy, Debug, PartialEq, Eq)]
pub struct ExtensionPage {
    /// Stable identifier, also used as the id salt of its widgets.
    pub id: &'static str,
    pub icon: PageIcon,
    pub label: LocalizedText,
    pub title: LocalizedText,
    pub description: LocalizedText,
}

/// What a hosted page changed while it was drawn.
///
/// A continuous edit reports `Live` while it lasts and `Persist` once: only the
/// write to disk waits for the end of the interaction.
#[derive(Clone, Copy, Debug, Default, PartialEq, Eq, Structural, PartialOrd, Ord)]
pub enum ExtensionChange {
    /// Nothing changed.
    #[default]
    Unchanged,
    /// The settings changed but must not be written yet.
    Live,
    /// The settings changed and should be written now.
    Persist,
}

impl ExtensionChange {
    /// How strong a change is, in the order the variants are declared.
    pub open spec fn rank(self) -> int {
        match self {
            ExtensionChange::Unchanged => 0,
            ExtensionChange::Live => 1,
            ExtensionChange::Persist => 2,
        }
    }

    /// The stronger of two changes reported while drawing the same page.
    pub fn merge(self, other: Self) -> (merged: Self)
        ensures
            merged.rank() == if self.rank() >= other.rank() { self.rank() } else { other.rank() },
            merged == self || merged == other,
    {
        let a: u8 = match self {
            ExtensionChange::Unchanged => 0,
            ExtensionChange::Live => 1,
            ExtensionChange::Persist => 2,
        };
        let b: u8 = match other {
            ExtensionChange::Unchanged => 0,
            ExtensionChange::Live => 1,
            ExtensionChange::Persist => 2,
        };
        if a >= b {
            self
        } else {
            other
        }
    }

    /// Whether anything changed at all.
    pub fn changed(self) -> (changed: bool)
        ensures
            changed == (self != ExtensionChange::Unchanged),
    {
        !matches!(self, ExtensionChange::Unchanged)
    }

    /// Whether the change should be written now.
    pub fn persists(self) -> (persists: bool)
        ensures
            persists == (self == ExtensionChange::Persist),
    {
        matches!(self, ExtensionChange::Persist)
    }
}

impl From<bool> for ExtensionChange {
    /// A change reported by a widget that is edited in one step.
    fn from(changed: bool) -> (change: Self) {
        if changed {
            ExtensionChange::Persist
        } else {
            ExtensionChange::Unchanged
        }
    }
}

impl vstd::std_specs::convert::FromSpecImpl<bool> for ExtensionChange {
    open spec fn obeys_from_spec() -> bool {
        true
    }

    open spec fn from_spec(changed: bool) -> Self {
        if changed {
            ExtensionChange::Persist
        } else {
            ExtensionChange::Unchanged
        }
    }
}

/// Whether `c` is white space as `char::is_whitespace` defines it: the Unicode
/// `White_Space` property.
pub open spec fn is_white_space(c: char) -> bool {
    let u = c as u32;
    ||| 0x09 <= u <= 0x0D
    ||| u == 0x20 || u == 0x85 || u == 0xA0 || u == 0x1680
    ||| 0x2000 <= u <= 0x200A
    ||| u == 0x2028 || u == 0x2029 || u == 0x202F || u == 0x205F || u == 0x3000
}

pub open spec fn trim_start(text: Seq<char>) -> Seq<char>
    decreases text.len(),
{
    if text.len() > 0 && is_white_space(text[0]) {
        trim_start(text.drop_first())
    } else {
        text
    }
}

pub open spec fn trim_end(text: Seq<char>) -> Seq<char>
    decreases text.len(),
{
    if text.len() > 0 && is_white_space(text.last()) {
        trim_end(text.drop_last())
    } else {
        text
    }
}

/// `text` without its leading and trailing white space.
pub open spec fn trimmed(text: Seq<char>) -> Seq<char> {
    trim_end(trim_start(text))
}

/// What `str::to_lowercase` makes of `text`.
pub uninterp spec fn lowercased(text: Seq<char>) -> Seq<char>;

/// `str::trim`, which the standard library documents as removing the leading
/// and trailing characters with the Unicode `White_Space` property.
#[verifier::external_body]
fn trim_text(text: &str) -> (trimmed_text: &str)
    ensures
        trimmed_text@ == trimmed(text@),
{
    text.trim()
}

/// `str::to_lowercase`; its result is named, not stated: it follows the
/// Unicode case tables.
#[verifier::external_body]
fn lowercase_text(text: &str) -> (lower: String)
    ensures
        lower@ == lowercased(text@),
{
    text.to_lowercase()
}

/// The form in which generated values are compared: trimmed, in lower case.
pub open spec fn normalized(text: Seq<char>) -> Seq<char> {
    lowercased(trimmed(text))
}

pub open spec fn taken_values(existing: Seq<&str>) -> Seq<Seq<char>> {
    existing.map_values(|value: &str| normalized(value@))
}

fn normalize(text: &str) -> (normal: String)
    ensures
        normal@ == normalized(text@),
{
    lowercase_text(trim_text(text))
}

fn is_taken(value: &String, taken: &Vec<String>) -> (found: bool)
    ensures
        found == taken@.map_values(|t: String| t@).contains(value@),
{
    let mut i: usize = 0;
    while i < taken.len()
        invariant
            i <= taken@.len(),
            forall|k: int| 0 <= k < i ==> taken@[k]@ != value@,
        decreases taken@.len() - i,
    {
        if taken[i] == *value {
            assert(taken@.map_values(|t: String| t@)[i as int] == value@);
            return true;
        }
        i = i + 1;
    }
    proof {
        let views = taken@.map_values(|t: String| t@);
        if views.contains(value@) {
            let k = choose|k: int| 0 <= k < views.len() && views[k] == value@;
            assert(taken@[k]@ == value@);
        }
    }
    false
}

fn taken_list(existing: &[&str]) -> (taken: Vec<String>)
    ensures
        taken@.map_values(|t: String| t@) == taken_values(existing@),
{
    let mut taken: Vec<String> = Vec::new();
    let mut i: usize = 0;
    while i < existing.len()
        invariant
            i <= existing@.len(),
            taken@.len() == i,
            forall|k: int| 0 <= k < i ==> (#[trigger] taken@[k])@ == normalized(existing@[k]@),
        decreases existing@.len() - i,
    {
        taken.push(normalize(existing[i]));
        i = i + 1;
    }
    assert(taken@.map_values(|t: String| t@) =~= taken_values(existing@));
    taken
}

/// The calls `1..=tried.len()` of `candidate` may have given `tried`, and each
/// of those values was taken.
pub open spec fn all_taken<F: Fn(usize) -> String>(candidate: F, taken: Seq<Seq<char>>, tried: Seq<String>) -> bool {
    forall|j: int|
        0 <= j < tried.len() ==> candidate.ensures(((j + 1) as usize,), #[trigger] tried[j]) && taken.contains(
            normalized(tried[j]@),
        )
}

/// Builds a value from a numbered pattern that does not collide with `existing`.
///
/// The comparison is made on the complete value, so a page that decorates the
/// number (`application-1.exe`) must decorate the candidates too. Values that
/// differ only in case, or in white space around them, count as taken. The
/// numbers `1..=existing.len() + 1` are tried in turn; should all of them be
/// taken, the next number is used as it is.
pub fn unique_value<F: Fn(usize) -> String>(candidate: F, existing: &[&str]) -> (value: String)
    requires
        existing@.len() + 2 <= usize::MAX,
        forall|n: usize| #[trigger] candidate.requires((n,)),
    ensures
        exists|tried: Seq<String>|
            #[trigger] all_taken(candidate, taken_values(existing@), tried) && {
                ||| tried.len() <= existing@.len() && candidate.ensures(((tried.len() + 1) as usize,), value)
                    && !taken_values(existing@).contains(normalized(value@))
                ||| tried.len() == existing@.len() + 1 && candidate.ensures(((tried.len() + 1) as usize,), value)
            },
{
    let taken = taken_list(existing);
    let ghost views = taken_values(existing@);
    let attempts = existing.len() + 1;
    let ghost mut tried: Seq<String> = Seq::empty();
    let mut number: usize = 1;
    while number <= attempts
        invariant
            attempts == existing@.len() + 1,
            attempts + 1 <= usize::MAX,
            1 <= number <= attempts + 1,
            tried.len() == number - 1,
            taken@.map_values(|t: String| t@) == views,
            views == taken_values(existing@),
            forall|n: usize| #[trigger] candidate.requires((n,)),
            all_taken(candidate, views, tried),
        decreases attempts + 1 - number,
    {
        let value = candidate(number);
        let lower = normalize(value.as_str());
        if !is_taken(&lower, &taken) {
            assert(all_taken(candidate, taken_values(existing@), tried));
            return value;
        }
        proof {
            let before = tried;
            tried = tried.push(value);
            assert forall|j: int| 0 <= j < tried.len() implies candidate.ensures(((j + 1) as usize,), #[trigger] tried[j])
                && views.contains(normalized(tried[j]@)) by {
                if j < before.len() {
                    assert(tried[j] == before[j]);
                }
            }
        }
        number = number + 1;
    }
    let value = candidate(attempts + 1);
    assert(all_taken(candidate, taken_values(existing@), tried));
    value
}

/// `prefix`, a hyphen and `number`.
pub open spec fn numbered_id(prefix: Seq<char>, number: nat) -> Seq<char> {
    prefix + "-"@ + decimal(number)
}

/// Builds an identifier that does not collide with `existing`, shared with
/// host-provided pages: `prefix`, a hyphen and the first number that gives a
/// free identifier.
pub fn unique_id(prefix: &str, existing: &[&str]) -> (id: String)
    requires
        existing@.len() + 2 <= usize::MAX,
    ensures
        exists|k: nat|
            1 <= k <= existing@.len() + 2 && #[trigger] numbered_id(prefix@, k) == id@ && (forall|j: nat|
                1 <= j < k ==> taken_values(existing@).contains(normalized(#[trigger] numbered_id(prefix@, j))))
                && (k <= existing@.len() + 1 ==> !taken_values(existing@).contains(normalized(id@))),
{
    let taken = taken_list(existing);
    let ghost views = taken_values(existing@);
    let attempts = existing.len() + 1;
    let mut number: usize = 1;
    while number <= attempts
        invariant
            attempts == existing@.len() + 1,
            attempts + 1 <= usize::MAX,
            1 <= number <= attempts + 1,
            taken@.map_values(|t: String| t@) == views,
            views == taken_values(existing@),
            forall|j: nat| 1 <= j < number ==> views.contains(normalized(#[trigger] numbered_id(prefix@, j))),
        decreases attempts + 1 - number,
    {
        let id = numbered(prefix, number);
        let lower = normalize(id.as_str());
        if !is_taken(&lower, &taken) {
            assert(numbered_id(prefix@, number as nat) == id@);
            return id;
        }
        number = number + 1;
    }
    let id = numbered(prefix, attempts + 1);
    assert(numbered_id(prefix@, (attempts + 1) as nat) == id@);
    id
}

fn numbered(prefix: &str, number: usize) -> (id: String)
    ensures
        id@ == numbered_id(prefix@, number as nat),
{
    let mut id = prefix.to_owned();
    id.append("-");
    crate::keys::push_decimal(&mut id, number as u64);
    id
}

/// A group of actions on the actions page: its id, its title in either language, and its actions.
#[derive(Clone, Debug)]
pub struct ActionGroup {
    pub id: &'static str,
    pub italian: &'static str,
    pub english: &'static str,
    pub actions: Vec<Action>,
}

/// The groups of the actions page, in the order they are shown.
pub open spec fn action_group_table() -> Seq<(Seq<char>, Seq<char>, Seq<char>, Seq<Action>)> {
    seq![
        ("halves"@, "Metà"@, "Halves"@, seq![Action::LeftHalf, Action::RightHalf, Action::TopHalf, Action::BottomHalf, Action::CenterHalf]),
        ("corners"@, "Angoli"@, "Corners"@, seq![Action::TopLeft, Action::TopRight, Action::BottomLeft, Action::BottomRight]),
        ("thirds"@, "Terzi"@, "Thirds"@, seq![Action::FirstThird, Action::CenterThird, Action::LastThird, Action::FirstTwoThirds, Action::CenterTwoThirds, Action::LastTwoThirds]),
        ("window"@, "Dimensione e stato"@, "Size and state"@, seq![Action::Maximize, Action::AlmostMaximize, Action::MaximizeHeight, Action::Center, Action::Grow, Action::Shrink, Action::Restore]),
        ("move"@, "Monitor e movimento"@, "Displays and movement"@, seq![Action::PreviousMonitor, Action::NextMonitor, Action::MoveLeft, Action::MoveRight, Action::MoveUp, Action::MoveDown]),
    ]
}

pub open spec fn group_view(group: ActionGroup) -> (Seq<char>, Seq<char>, Seq<char>, Seq<Action>) {
    (group.id@, group.italian@, group.english@, group.actions@)
}

fn group(id: &'static str, italian: &'static str, english: &'static str, actions: Vec<Action>) -> (made: ActionGroup)
    ensures
        made.id == id && made.italian == italian && made.english == english && made.actions == actions,
{
    ActionGroup { id, italian, english, actions }
}

pub fn action_groups() -> (groups: Vec<ActionGroup>)
    ensures
        groups@.map_values(|g: ActionGroup| group_view(g)) == action_group_table(),
{
    let mut groups: Vec<ActionGroup> = Vec::new();
    groups.push(group("halves", "Metà", "Halves", vec![Action::LeftHalf, Action::RightHalf, Action::TopHalf, Action::BottomHalf, Action::CenterHalf]));
    groups.push(group("corners", "Angoli", "Corners", vec![Action::TopLeft, Action::TopRight, Action::BottomLeft, Action::BottomRight]));
    groups.push(group("thirds", "Terzi", "Thirds", vec![Action::FirstThird, Action::CenterThird, Action::LastThird, Action::FirstTwoThirds, Action::CenterTwoThirds, Action::LastTwoThirds]));
    groups.push(group("window", "Dimensione e stato", "Size and state", vec![Action::Maximize, Action::AlmostMaximize, Action::MaximizeHeight, Action::Center, Action::Grow, Action::Shrink, Action::Restore]));
    groups.push(group("move", "Monitor e movimento", "Displays and movement", vec![Action::PreviousMonitor, Action::NextMonitor, Action::MoveLeft, Action::MoveRight, Action::MoveUp, Action::MoveDown]));
    assert(groups@.map_values(|g: ActionGroup| group_view(g)) =~= action_group_table());
    groups
}

} // verus!
