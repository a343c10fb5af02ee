//! The Windows appearance settings the interface follows: the app theme and the
//! accent colour, decoded from the registry values that hold them.

use vstd::prelude::*;

verus! {

/// The accent Windows shows when the user never picked one.
pub open spec fn windows_blue_spec() -> RgbColor {
    RgbColor { red: 0x00, green: 0x67, blue: 0xC0 }
}

/// The accent Windows shows when the user never picked one.
pub fn windows_blue() -> (color: RgbColor)
    ensures
        color == windows_blue_spec(),
{
    RgbColor { red: 0x00, green: 0x67, blue: 0xC0 }
}

#[derive(Clone, Copy, Debug, PartialEq, Eq, Structural)]
pub enum WindowsTheme {
    Dark,
    Light,
}

#[derive(Clone, Copy, Debug, PartialEq, Eq, Structural)]
pub struct RgbColor {
    pub red: u8,
    pub green: u8,
    pub blue: u8,
}

impl RgbColor {
    pub fn new(red: u8, green: u8, blue: u8) -> (color: Self)
        ensures
            color == (RgbColor { red, green, blue }),
    {
        RgbColor { red, green, blue }
    }
}

/// Why a registry value could not be used.
#[derive(Clone, Debug, PartialEq, Eq)]
pub enum RegistryIssue {
    /// The key or the value does not exist.
    Missing,
    /// Reading it failed, with the message the system gave.
    Unreadable(String),
    /// The value exists but means nothing documented.
    InvalidDword(u32),
}

/// A registry-backed setting: its value, or why there is none.
#[derive(Clone, Debug, PartialEq, Eq)]
pub enum RegistrySetting<T> {
    Value(T),
    Unavailable(RegistryIssue),
}

impl<T> RegistrySetting<T> {
    pub open spec fn known(&self) -> Option<T> {
        match self {
            RegistrySetting::Value(value) => Some(*value),
            RegistrySetting::Unavailable(_) => None,
        }
    }

    pub fn value(&self) -> (value: Option<&T>)
        ensures
            match value {
                Some(v) => self.known() == Some(*v),
                None => self.known() is None,
            },
    {
        match self {
            RegistrySetting::Value(value) => Some(value),
            RegistrySetting::Unavailable(_) => None,
        }
    }

    /// The setting with `transform` applied to its value; an issue stays as it is.
    pub fn map<U, F: FnOnce(T) -> U>(self, transform: F) -> (mapped: RegistrySetting<U>)
        requires
            self matches RegistrySetting::Value(v) ==> transform.requires((v,)),
        ensures
            match self {
                RegistrySetting::Value(v) => mapped matches RegistrySetting::Value(u) && transform.ensures((v,), u),
                RegistrySetting::Unavailable(issue) => mapped == RegistrySetting::<U>::Unavailable(issue),
            },
    {
        match self {
            RegistrySetting::Value(value) => RegistrySetting::Value(transform(value)),
            RegistrySetting::Unavailable(issue) => RegistrySetting::Unavailable(issue),
        }
    }

    /// The setting `transform` makes of the value; an issue stays as it is.
    pub fn and_then<U, F: FnOnce(T) -> RegistrySetting<U>>(self, transform: F) -> (chained: RegistrySetting<U>)
        requires
            self matches RegistrySetting::Value(v) ==> transform.requires((v,)),
        ensures
            match self {
                RegistrySetting::Value(v) => transform.ensures((v,), chained),
                RegistrySetting::Unavailable(issue) => chained == RegistrySetting::<U>::Unavailable(issue),
            },
    {
        match self {
            RegistrySetting::Value(value) => transform(value),
            RegistrySetting::Unavailable(issue) => RegistrySetting::Unavailable(issue),
        }
    }
}

#[derive(Clone, Debug, PartialEq, Eq)]
pub struct WindowsAppearance {
    pub theme: RegistrySetting<WindowsTheme>,
    pub accent: RegistrySetting<RgbColor>,
}

impl WindowsAppearance {
    /// The theme Windows reports, or `fallback` when it reports none.
    pub fn theme_or(&self, fallback: WindowsTheme) -> (theme: WindowsTheme)
        ensures
            theme == match self.theme.known() {
                Some(t) => t,
                None => fallback,
            },
    {
        match self.theme.value() {
            Some(theme) => *theme,
            None => fallback,
        }
    }

    /// The accent Windows reports, or Windows blue when it reports none.
    pub fn accent_or_default(&self) -> (accent: RgbColor)
        ensures
            accent == match self.accent.known() {
                Some(c) => c,
                None => windows_blue_spec(),
            },
    {
        match self.accent.value() {
            Some(accent) => *accent,
            None => windows_blue(),
        }
    }
}

/// `AppsUseLightTheme`: 0 asks for the dark theme, 1 for the light one.
pub open spec fn theme_of(value: u32) -> RegistrySetting<WindowsTheme> {
    if value == 0 {
        RegistrySetting::Value(WindowsTheme::Dark)
    } else if value == 1 {
        RegistrySetting::Value(WindowsTheme::Light)
    } else {
        RegistrySetting::Unavailable(RegistryIssue::InvalidDword(value))
    }
}

/// `ColorizationColor` is an ARGB word: the colour is its three low bytes.
pub open spec fn color_of(argb: u32) -> RgbColor {
    RgbColor { red: ((argb / 0x10000) % 0x100) as u8, green: ((argb / 0x100) % 0x100) as u8, blue: (argb % 0x100) as u8 }
}

pub fn decode_theme(value: u32) -> (theme: RegistrySetting<WindowsTheme>)
    ensures
        theme == theme_of(value),
{
    match value {
        0 => RegistrySetting::Value(WindowsTheme::Dark),
        1 => RegistrySetting::Value(WindowsTheme::Light),
        value => RegistrySetting::Unavailable(RegistryIssue::InvalidDword(value)),
    }
}

pub fn decode_colorization_color(argb: u32) -> (color: RgbColor)
    ensures
        color == color_of(argb),
{
    let red = (argb >> 16) & 0xff;
    let green = (argb >> 8) & 0xff;
    let blue = argb & 0xff;
    assert(red == (argb / 0x10000) % 0x100 && red < 0x100) by (bit_vector)
        requires
            red == (argb >> 16) & 0xff,
    ;
    assert(green == (argb / 0x100) % 0x100 && green < 0x100) by (bit_vector)
        requires
            green == (argb >> 8) & 0xff,
    ;
    assert(blue == argb % 0x100 && blue < 0x100) by (bit_vector)
        requires
            blue == argb & 0xff,
    ;
    RgbColor::new(red as u8, green as u8, blue as u8)
}

/// The setting a failed registry read leaves: missing when the system said the
/// key or value is not there, unreadable with its message otherwise.
pub fn unavailable<T>(not_found: bool, message: String) -> (setting: RegistrySetting<T>)
    ensures
        not_found ==> setting == RegistrySetting::<T>::Unavailable(RegistryIssue::Missing),
        !not_found ==> setting == RegistrySetting::<T>::Unavailable(RegistryIssue::Unreadable(message)),
{
    if not_found {
        RegistrySetting::Unavailable(RegistryIssue::Missing)
    } else {
        RegistrySetting::Unavailable(RegistryIssue::Unreadable(message))
    }
}

/// Reads the appearance settings of the current user.
#[derive(Clone, Copy, Debug, Default)]
pub struct WindowsAppearanceProvider;

impl WindowsAppearanceProvider {
    pub fn new() -> (provider: Self) {
        WindowsAppearanceProvider
    }

    /// The appearance the two registry words describe: the theme from
    /// `AppsUseLightTheme`, the accent from `ColorizationColor`.
    pub fn decode(&self, theme: RegistrySetting<u32>, accent: RegistrySetting<u32>) -> (appearance: WindowsAppearance)
        ensures
            appearance.theme == match theme {
                RegistrySetting::Value(v) => theme_of(v),
                RegistrySetting::Unavailable(issue) => RegistrySetting::<WindowsTheme>::Unavailable(issue),
            },
            appearance.accent == match accent {
                RegistrySetting::Value(v) => RegistrySetting::Value(color_of(v)),
                RegistrySetting::Unavailable(issue) => RegistrySetting::<RgbColor>::Unavailable(issue),
            },
    {
        let theme = theme.and_then(decode_theme);
        let accent = accent.map(decode_colorization_color);
        WindowsAppearance { theme, accent }
    }
}

} // verus!
