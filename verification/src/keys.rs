//! How keys and shortcuts are named in the settings window, and which virtual
//! key a captured key registers as.

use vstd::prelude::*;
use vstd::string::StringExecFns;

use crate::config::{HotkeyBinding, Language, MOD_ALT, MOD_CONTROL, MOD_SHIFT, MOD_WIN};
use crate::ui::{pick, text};
use crate::action::Action;

verus! {

/// The character of a decimal digit.
pub open spec fn digit_char(d: nat) -> char {
    (48 + d) as char
}

/// `n` in decimal, without leading zeros.
pub open spec fn decimal(n: nat) -> Seq<char>
    decreases n,
{
    if n < 10 {
        seq![digit_char(n)]
    } else {
        decimal(n / 10).push(digit_char(n % 10))
    }
}

/// The character of a hexadecimal digit, upper case.
pub open spec fn hex_char(d: nat) -> char {
    if d < 10 {
        (48 + d) as char
    } else {
        (55 + d) as char
    }
}

/// `n` in upper-case hexadecimal, without leading zeros.
pub open spec fn hex(n: nat) -> Seq<char>
    decreases n,
{
    if n < 16 {
        seq![hex_char(n)]
    } else {
        hex(n / 16).push(hex_char(n % 16))
    }
}

/// `n` in upper-case hexadecimal, padded to at least two digits.
pub open spec fn hex2(n: nat) -> Seq<char> {
    if n < 16 {
        seq!['0', hex_char(n)]
    } else {
        hex(n)
    }
}

/// The text of one character, as `char::to_string` writes it.
#[verifier::external_body]
fn char_text(c: char) -> (text: String)
    ensures
        text@ == seq![c],
{
    c.to_string()
}

/// Appends `n` in decimal.
pub(crate) fn push_decimal(out: &mut String, n: u64)
    ensures
        final(out)@ == old(out)@ + decimal(n as nat),
    decreases n,
{
    if n >= 10 {
        push_decimal(out, n / 10);
    }
    let digit = ((n % 10) as u8 + 48) as char;
    let digit_text = char_text(digit);
    out.append(digit_text.as_str());
}

/// Appends `n` in upper-case hexadecimal.
fn push_hex(out: &mut String, n: u64)
    ensures
        final(out)@ == old(out)@ + hex(n as nat),
    decreases n,
{
    if n >= 16 {
        push_hex(out, n / 16);
    }
    let d = (n % 16) as u8;
    let digit = if d < 10 {
        (d + 48) as char
    } else {
        (d + 55) as char
    };
    let digit_text = char_text(digit);
    out.append(digit_text.as_str());
}

/// The name of a key that has no name of its own: its code in hexadecimal.
pub open spec fn unknown_key_label(virtual_key: u32, language: Language) -> Seq<char> {
    pick(language, "Tasto sconosciuto"@, "Unknown key"@) + " (0x"@ + hex2(virtual_key as nat) + ")"@
}

pub fn unknown_key_name(virtual_key: u32, language: Language) -> (name: String)
    ensures
        name@ == unknown_key_label(virtual_key, language),
{
    let mut name = text(language, "Tasto sconosciuto", "Unknown key").to_owned();
    name.append(" (0x");
    if virtual_key < 16 {
        name.append("0");
        proof {
            reveal_strlit("0");
        }
    }
    push_hex(&mut name, virtual_key as u64);
    name.append(")");
    proof {
        if virtual_key < 16 {
            assert(hex(virtual_key as nat) == seq![hex_char(virtual_key as nat)]);
            assert("0"@ + hex(virtual_key as nat) =~= hex2(virtual_key as nat));
        }
        assert(name@ =~= unknown_key_label(virtual_key, language));
    }
    name
}

/// The name a virtual key is shown with.
pub open spec fn key_label(virtual_key: u32, language: Language) -> Seq<char> {
    if virtual_key == 0x08 {
        "Backspace"@
    } else if virtual_key == 0x09 {
        "Tab"@
    } else if virtual_key == 0x0D {
        pick(language, "Invio"@, "Enter"@)
    } else if virtual_key == 0x13 {
        pick(language, "Pausa"@, "Pause"@)
    } else if virtual_key == 0x14 {
        pick(language, "Bloc Maiusc"@, "Caps Lock"@)
    } else if virtual_key == 0x1B {
        "Esc"@
    } else if virtual_key == 0x20 {
        pick(language, "Spazio"@, "Space"@)
    } else if virtual_key == 0x21 {
        pick(language, "Pagina su"@, "Page Up"@)
    } else if virtual_key == 0x22 {
        pick(language, "Pagina giù"@, "Page Down"@)
    } else if virtual_key == 0x23 {
        pick(language, "Fine"@, "End"@)
    } else if virtual_key == 0x24 {
        "Home"@
    } else if virtual_key == 0x25 {
        pick(language, "Freccia sinistra"@, "Left Arrow"@)
    } else if virtual_key == 0x26 {
        pick(language, "Freccia su"@, "Up Arrow"@)
    } else if virtual_key == 0x27 {
        pick(language, "Freccia destra"@, "Right Arrow"@)
    } else if virtual_key == 0x28 {
        pick(language, "Freccia giù"@, "Down Arrow"@)
    } else if virtual_key == 0x2C {
        pick(language, "Stamp"@, "Print Screen"@)
    } else if virtual_key == 0x2D {
        pick(language, "Ins"@, "Insert"@)
    } else if virtual_key == 0x2E {
        pick(language, "Canc"@, "Delete"@)
    } else if 0x60 <= virtual_key <= 0x69 {
        "Numpad "@ + decimal((virtual_key - 0x60) as nat)
    } else if virtual_key == 0x6A {
        pick(language, "Numpad Moltiplica"@, "Numpad Multiply"@)
    } else if virtual_key == 0x6B {
        pick(language, "Numpad Più"@, "Numpad Add"@)
    } else if virtual_key == 0x6D {
        pick(language, "Numpad Meno"@, "Numpad Subtract"@)
    } else if virtual_key == 0x6E {
        pick(language, "Numpad Decimale"@, "Numpad Decimal"@)
    } else if virtual_key == 0x6F {
        pick(language, "Numpad Dividi"@, "Numpad Divide"@)
    } else if 0x70 <= virtual_key <= 0x87 {
        "F"@ + decimal((virtual_key - 0x6F) as nat)
    } else if virtual_key == 0x90 {
        "Num Lock"@
    } else if virtual_key == 0x91 {
        "Scroll Lock"@
    } else if virtual_key == 0xA6 {
        pick(language, "Browser indietro"@, "Browser Back"@)
    } else if virtual_key == 0xA7 {
        pick(language, "Browser avanti"@, "Browser Forward"@)
    } else if virtual_key == 0xAD {
        pick(language, "Disattiva audio"@, "Volume Mute"@)
    } else if virtual_key == 0xAE {
        pick(language, "Volume giù"@, "Volume Down"@)
    } else if virtual_key == 0xAF {
        pick(language, "Volume su"@, "Volume Up"@)
    } else if virtual_key == 0xB0 {
        pick(language, "Traccia successiva"@, "Next Track"@)
    } else if virtual_key == 0xB1 {
        pick(language, "Traccia precedente"@, "Previous Track"@)
    } else if virtual_key == 0xB2 {
        pick(language, "Arresta contenuto"@, "Stop Media"@)
    } else if virtual_key == 0xB3 {
        pick(language, "Riproduci/Pausa"@, "Play/Pause"@)
    } else if virtual_key == 0xBA {
        ";"@
    } else if virtual_key == 0xBB {
        "+"@
    } else if virtual_key == 0xBC {
        ","@
    } else if virtual_key == 0xBD {
        "-"@
    } else if virtual_key == 0xBE {
        "."@
    } else if virtual_key == 0xBF {
        "/"@
    } else if virtual_key == 0xC0 {
        "`"@
    } else if virtual_key == 0xDB {
        "["@
    } else if virtual_key == 0xDC {
        "\\"@
    } else if virtual_key == 0xDD {
        "]"@
    } else if virtual_key == 0xDE {
        "'"@
    } else if virtual_key == 0xE2 {
        pick(language, "Tasto ISO"@, "ISO key"@)
    } else if 0x30 <= virtual_key <= 0x39 || 0x41 <= virtual_key <= 0x5A {
        seq![virtual_key as char]
    } else {
        unknown_key_label(virtual_key, language)
    }
}

/// The name a virtual key is shown with.
pub fn key_name(virtual_key: u32, language: Language) -> (name: String)
    ensures
        name@ == key_label(virtual_key, language),
{
    if virtual_key == 0x08 {
        "Backspace".to_owned()
    } else if virtual_key == 0x09 {
        "Tab".to_owned()
    } else if virtual_key == 0x0D {
        text(language, "Invio", "Enter").to_owned()
    } else if virtual_key == 0x13 {
        text(language, "Pausa", "Pause").to_owned()
    } else if virtual_key == 0x14 {
        text(language, "Bloc Maiusc", "Caps Lock").to_owned()
    } else if virtual_key == 0x1B {
        "Esc".to_owned()
    } else if virtual_key == 0x20 {
        text(language, "Spazio", "Space").to_owned()
    } else if virtual_key == 0x21 {
        text(language, "Pagina su", "Page Up").to_owned()
    } else if virtual_key == 0x22 {
        text(language, "Pagina giù", "Page Down").to_owned()
    } else if virtual_key == 0x23 {
        text(language, "Fine", "End").to_owned()
    } else if virtual_key == 0x24 {
        "Home".to_owned()
    } else if virtual_key == 0x25 {
        text(language, "Freccia sinistra", "Left Arrow").to_owned()
    } else if virtual_key == 0x26 {
        text(language, "Freccia su", "Up Arrow").to_owned()
    } else if virtual_key == 0x27 {
        text(language, "Freccia destra", "Right Arrow").to_owned()
    } else if virtual_key == 0x28 {
        text(language, "Freccia giù", "Down Arrow").to_owned()
    } else if virtual_key == 0x2C {
        text(language, "Stamp", "Print Screen").to_owned()
    } else if virtual_key == 0x2D {
        text(language, "Ins", "Insert").to_owned()
    } else if virtual_key == 0x2E {
        text(language, "Canc", "Delete").to_owned()
    } else if 0x60 <= virtual_key && virtual_key <= 0x69 {
        let mut name = "Numpad ".to_owned();
        push_decimal(&mut name, (virtual_key - 0x60) as u64);
        name
    } else if virtual_key == 0x6A {
        text(language, "Numpad Moltiplica", "Numpad Multiply").to_owned()
    } else if virtual_key == 0x6B {
        text(language, "Numpad Più", "Numpad Add").to_owned()
    } else if virtual_key == 0x6D {
        text(language, "Numpad Meno", "Numpad Subtract").to_owned()
    } else if virtual_key == 0x6E {
        text(language, "Numpad Decimale", "Numpad Decimal").to_owned()
    } else if virtual_key == 0x6F {
        text(language, "Numpad Dividi", "Numpad Divide").to_owned()
    } else if 0x70 <= virtual_key && virtual_key <= 0x87 {
        let mut name = "F".to_owned();
        push_decimal(&mut name, (virtual_key - 0x6F) as u64);
        name
    } else if virtual_key == 0x90 {
        "Num Lock".to_owned()
    } else if virtual_key == 0x91 {
        "Scroll Lock".to_owned()
    } else if virtual_key == 0xA6 {
        text(language, "Browser indietro", "Browser Back").to_owned()
    } else if virtual_key == 0xA7 {
        text(language, "Browser avanti", "Browser Forward").to_owned()
    } else if virtual_key == 0xAD {
        text(language, "Disattiva audio", "Volume Mute").to_owned()
    } else if virtual_key == 0xAE {
        text(language, "Volume giù", "Volume Down").to_owned()
    } else if virtual_key == 0xAF {
        text(language, "Volume su", "Volume Up").to_owned()
    } else if virtual_key == 0xB0 {
        text(language, "Traccia successiva", "Next Track").to_owned()
    } else if virtual_key == 0xB1 {
        text(language, "Traccia precedente", "Previous Track").to_owned()
    } else if virtual_key == 0xB2 {
        text(language, "Arresta contenuto", "Stop Media").to_owned()
    } else if virtual_key == 0xB3 {
        text(language, "Riproduci/Pausa", "Play/Pause").to_owned()
    } else if virtual_key == 0xBA {
        ";".to_owned()
    } else if virtual_key == 0xBB {
        "+".to_owned()
    } else if virtual_key == 0xBC {
        ",".to_owned()
    } else if virtual_key == 0xBD {
        "-".to_owned()
    } else if virtual_key == 0xBE {
        ".".to_owned()
    } else if virtual_key == 0xBF {
        "/".to_owned()
    } else if virtual_key == 0xC0 {
        "`".to_owned()
    } else if virtual_key == 0xDB {
        "[".to_owned()
    } else if virtual_key == 0xDC {
        "\\".to_owned()
    } else if virtual_key == 0xDD {
        "]".to_owned()
    } else if virtual_key == 0xDE {
        "'".to_owned()
    } else if virtual_key == 0xE2 {
        text(language, "Tasto ISO", "ISO key").to_owned()
    } else if (0x30 <= virtual_key && virtual_key <= 0x39) || (0x41 <= virtual_key && virtual_key <= 0x5A) {
        char_text((virtual_key as u8) as char)
    } else {
        unknown_key_name(virtual_key, language)
    }
}


/// The modifier keys held while a key is pressed.
#[derive(Clone, Copy, Debug, Default, PartialEq, Eq, Structural)]
pub struct KeyModifiers {
    pub alt: bool,
    pub ctrl: bool,
    pub shift: bool,
}

/// The modifier bits a capture registers for the held keys; the Windows key is
/// tracked apart, since the windowing layer does not report it.
pub open spec fn modifier_mask(modifiers: KeyModifiers) -> u32 {
    (if modifiers.ctrl { MOD_CONTROL } else { 0u32 }) | (if modifiers.alt { MOD_ALT } else { 0u32 }) | (if modifiers.shift {
        MOD_SHIFT
    } else {
        0u32
    })
}

pub fn modifier_bits(modifiers: KeyModifiers) -> (bits: u32)
    ensures
        bits == modifier_mask(modifiers),
        bits & MOD_CONTROL != 0 <==> modifiers.ctrl,
        bits & MOD_ALT != 0 <==> modifiers.alt,
        bits & MOD_SHIFT != 0 <==> modifiers.shift,
        bits & MOD_WIN == 0,
{
    let ctrl: u32 = if modifiers.ctrl { MOD_CONTROL } else { 0 };
    let alt: u32 = if modifiers.alt { MOD_ALT } else { 0 };
    let shift: u32 = if modifiers.shift { MOD_SHIFT } else { 0 };
    let bits = ctrl | alt | shift;
    assert((bits & 2 != 0 <==> ctrl == 2) && (bits & 1 != 0 <==> alt == 1) && (bits & 4 != 0 <==> shift == 4)
        && bits & 8 == 0) by (bit_vector)
        requires
            bits == ctrl | alt | shift,
            ctrl == 0 || ctrl == 2,
            alt == 0 || alt == 1,
            shift == 0 || shift == 4,
    ;
    bits
}

/// How a shortcut is shown: the held modifiers, then the key, joined by ` + `.
pub open spec fn shortcut_label(binding: HotkeyBinding, language: Language) -> Seq<char> {
    (if binding.modifiers & MOD_CONTROL != 0 { "Ctrl + "@ } else { Seq::empty() }) + (if binding.modifiers & MOD_ALT != 0 {
        "Alt + "@
    } else {
        Seq::empty()
    }) + (if binding.modifiers & MOD_SHIFT != 0 { "Shift + "@ } else { Seq::empty() }) + (if binding.modifiers & MOD_WIN
        != 0 {
        "Win + "@
    } else {
        Seq::empty()
    }) + key_label(binding.virtual_key, language)
}

pub fn format_shortcut(binding: &HotkeyBinding, language: Language) -> (label: String)
    ensures
        label@ == shortcut_label(*binding, language),
{
    let mut label = String::new();
    let ghost start = label@;
    if binding.modifiers & MOD_CONTROL != 0 {
        label.append("Ctrl + ");
    }
    let ghost a = label@;
    if binding.modifiers & MOD_ALT != 0 {
        label.append("Alt + ");
    }
    let ghost b = label@;
    if binding.modifiers & MOD_SHIFT != 0 {
        label.append("Shift + ");
    }
    let ghost c = label@;
    if binding.modifiers & MOD_WIN != 0 {
        label.append("Win + ");
    }
    let key = key_name(binding.virtual_key, language);
    label.append(key.as_str());
    proof {
        assert(start =~= Seq::<char>::empty());
        assert(label@ =~= shortcut_label(*binding, language));
    }
    label
}

/// The first shortcut bound to `action`.
pub open spec fn first_binding_for(bindings: Seq<HotkeyBinding>, action: Action, n: nat) -> Option<HotkeyBinding>
    decreases n,
{
    if n == 0 {
        None
    } else {
        match first_binding_for(bindings, action, (n - 1) as nat) {
            Some(found) => Some(found),
            None => if bindings[n - 1].action == action {
                Some(bindings[n - 1])
            } else {
                None
            },
        }
    }
}

/// How the first shortcut bound to `action` is shown, if there is one.
pub fn shortcut_for(bindings: &[HotkeyBinding], action: Action, language: Language) -> (label: Option<String>)
    ensures
        match first_binding_for(bindings@, action, bindings@.len()) {
            Some(binding) => label matches Some(l) && l@ == shortcut_label(binding, language),
            None => label is None,
        },
{
    let mut i: usize = 0;
    while i < bindings.len()
        invariant
            i <= bindings@.len(),
            first_binding_for(bindings@, action, i as nat) is None,
        decreases bindings@.len() - i,
    {
        if bindings[i].action == action {
            proof {
                lemma_first_binding_stays(bindings@, action, (i + 1) as nat, bindings@.len());
            }
            return Some(format_shortcut(&bindings[i], language));
        }
        i = i + 1;
    }
    None
}

proof fn lemma_first_binding_stays(bindings: Seq<HotkeyBinding>, action: Action, n: nat, m: nat)
    requires
        n <= m,
        first_binding_for(bindings, action, n) is Some,
    ensures
        first_binding_for(bindings, action, m) == first_binding_for(bindings, action, n),
    decreases m - n,
{
    if n < m {
        lemma_first_binding_stays(bindings, action, n, (m - 1) as nat);
    }
}

/// The keys a shortcut can be captured from, named as the windowing layer names them.
#[derive(Clone, Copy, Debug, PartialEq, Eq, Structural)]
pub enum Key {
    ArrowDown,
    ArrowLeft,
    ArrowRight,
    ArrowUp,
    Escape,
    Tab,
    Backspace,
    Enter,
    Space,
    Insert,
    Delete,
    Home,
    End,
    PageUp,
    PageDown,
    Colon,
    Semicolon,
    Comma,
    Backslash,
    Pipe,
    Slash,
    Questionmark,
    Exclamationmark,
    OpenBracket,
    OpenCurlyBracket,
    CloseBracket,
    CloseCurlyBracket,
    Backtick,
    Minus,
    Period,
    Plus,
    Equals,
    Quote,
    Num0,
    Num1,
    Num2,
    Num3,
    Num4,
    Num5,
    Num6,
    Num7,
    Num8,
    Num9,
    A,
    B,
    C,
    D,
    E,
    F,
    G,
    H,
    I,
    J,
    K,
    L,
    M,
    N,
    O,
    P,
    Q,
    R,
    S,
    T,
    U,
    V,
    W,
    X,
    Y,
    Z,
    F1,
    F2,
    F3,
    F4,
    F5,
    F6,
    F7,
    F8,
    F9,
    F10,
    F11,
    F12,
    F13,
    F14,
    F15,
    F16,
    F17,
    F18,
    F19,
    F20,
    F21,
    F22,
    F23,
    F24,
    BrowserBack,
    IntlBackslash,
    Copy,
    Cut,
    Paste,
    F25,
    F26,
    F27,
    F28,
    F29,
    F30,
    F31,
    F32,
    F33,
    F34,
    F35,
    ShiftLeft,
    ShiftRight,
    ControlLeft,
    ControlRight,
    AltLeft,
    AltRight,
    SuperLeft,
    SuperRight,
}

/// The virtual key a captured key registers as, or `None` for the keys that
/// cannot be a global shortcut: modifiers, clipboard keys and the F-keys
/// Windows has no virtual key for.
pub open spec fn virtual_key_of(key: Key) -> Option<u32> {
    match key {
        Key::ArrowDown => Some(0x28),
        Key::ArrowLeft => Some(0x25),
        Key::ArrowRight => Some(0x27),
        Key::ArrowUp => Some(0x26),
        Key::Escape => Some(0x1B),
        Key::Tab => Some(0x09),
        Key::Backspace => Some(0x08),
        Key::Enter => Some(0x0D),
        Key::Space => Some(0x20),
        Key::Insert => Some(0x2D),
        Key::Delete => Some(0x2E),
        Key::Home => Some(0x24),
        Key::End => Some(0x23),
        Key::PageUp => Some(0x21),
        Key::PageDown => Some(0x22),
        Key::Colon => Some(0xBA),
        Key::Semicolon => Some(0xBA),
        Key::Comma => Some(0xBC),
        Key::Backslash => Some(0xDC),
        Key::Pipe => Some(0xDC),
        Key::Slash => Some(0xBF),
        Key::Questionmark => Some(0xBF),
        Key::Exclamationmark => Some(0x31),
        Key::OpenBracket => Some(0xDB),
        Key::OpenCurlyBracket => Some(0xDB),
        Key::CloseBracket => Some(0xDD),
        Key::CloseCurlyBracket => Some(0xDD),
        Key::Backtick => Some(0xC0),
        Key::Minus => Some(0xBD),
        Key::Period => Some(0xBE),
        Key::Plus => Some(0xBB),
        Key::Equals => Some(0xBB),
        Key::Quote => Some(0xDE),
        Key::Num0 => Some(0x30),
        Key::Num1 => Some(0x31),
        Key::Num2 => Some(0x32),
        Key::Num3 => Some(0x33),
        Key::Num4 => Some(0x34),
        Key::Num5 => Some(0x35),
        Key::Num6 => Some(0x36),
        Key::Num7 => Some(0x37),
        Key::Num8 => Some(0x38),
        Key::Num9 => Some(0x39),
        Key::A => Some(0x41),
        Key::B => Some(0x42),
        Key::C => Some(0x43),
        Key::D => Some(0x44),
        Key::E => Some(0x45),
        Key::F => Some(0x46),
        Key::G => Some(0x47),
        Key::H => Some(0x48),
        Key::I => Some(0x49),
        Key::J => Some(0x4A),
        Key::K => Some(0x4B),
        Key::L => Some(0x4C),
        Key::M => Some(0x4D),
        Key::N => Some(0x4E),
        Key::O => Some(0x4F),
        Key::P => Some(0x50),
        Key::Q => Some(0x51),
        Key::R => Some(0x52),
        Key::S => Some(0x53),
        Key::T => Some(0x54),
        Key::U => Some(0x55),
        Key::V => Some(0x56),
        Key::W => Some(0x57),
        Key::X => Some(0x58),
        Key::Y => Some(0x59),
        Key::Z => Some(0x5A),
        Key::F1 => Some(0x70),
        Key::F2 => Some(0x71),
        Key::F3 => Some(0x72),
        Key::F4 => Some(0x73),
        Key::F5 => Some(0x74),
        Key::F6 => Some(0x75),
        Key::F7 => Some(0x76),
        Key::F8 => Some(0x77),
        Key::F9 => Some(0x78),
        Key::F10 => Some(0x79),
        Key::F11 => Some(0x7A),
        Key::F12 => Some(0x7B),
        Key::F13 => Some(0x7C),
        Key::F14 => Some(0x7D),
        Key::F15 => Some(0x7E),
        Key::F16 => Some(0x7F),
        Key::F17 => Some(0x80),
        Key::F18 => Some(0x81),
        Key::F19 => Some(0x82),
        Key::F20 => Some(0x83),
        Key::F21 => Some(0x84),
        Key::F22 => Some(0x85),
        Key::F23 => Some(0x86),
        Key::F24 => Some(0x87),
        Key::BrowserBack => Some(0xA6),
        Key::IntlBackslash => Some(0xE2),
        _ => None,
    }
}

pub fn virtual_key_for(key: Key) -> (virtual_key: Option<u32>)
    ensures
        virtual_key == virtual_key_of(key),
{
    let code: u32 = match key {
        Key::ArrowDown => 0x28,
        Key::ArrowLeft => 0x25,
        Key::ArrowRight => 0x27,
        Key::ArrowUp => 0x26,
        Key::Escape => 0x1B,
        Key::Tab => 0x09,
        Key::Backspace => 0x08,
        Key::Enter => 0x0D,
        Key::Space => 0x20,
        Key::Insert => 0x2D,
        Key::Delete => 0x2E,
        Key::Home => 0x24,
        Key::End => 0x23,
        Key::PageUp => 0x21,
        Key::PageDown => 0x22,
        Key::Colon => 0xBA,
        Key::Semicolon => 0xBA,
        Key::Comma => 0xBC,
        Key::Backslash => 0xDC,
        Key::Pipe => 0xDC,
        Key::Slash => 0xBF,
        Key::Questionmark => 0xBF,
        Key::Exclamationmark => 0x31,
        Key::OpenBracket => 0xDB,
        Key::OpenCurlyBracket => 0xDB,
        Key::CloseBracket => 0xDD,
        Key::CloseCurlyBracket => 0xDD,
        Key::Backtick => 0xC0,
        Key::Minus => 0xBD,
        Key::Period => 0xBE,
        Key::Plus => 0xBB,
        Key::Equals => 0xBB,
        Key::Quote => 0xDE,
        Key::Num0 => 0x30,
        Key::Num1 => 0x31,
        Key::Num2 => 0x32,
        Key::Num3 => 0x33,
        Key::Num4 => 0x34,
        Key::Num5 => 0x35,
        Key::Num6 => 0x36,
        Key::Num7 => 0x37,
        Key::Num8 => 0x38,
        Key::Num9 => 0x39,
        Key::A => 0x41,
        Key::B => 0x42,
        Key::C => 0x43,
        Key::D => 0x44,
        Key::E => 0x45,
        Key::F => 0x46,
        Key::G => 0x47,
        Key::H => 0x48,
        Key::I => 0x49,
        Key::J => 0x4A,
        Key::K => 0x4B,
        Key::L => 0x4C,
        Key::M => 0x4D,
        Key::N => 0x4E,
        Key::O => 0x4F,
        Key::P => 0x50,
        Key::Q => 0x51,
        Key::R => 0x52,
        Key::S => 0x53,
        Key::T => 0x54,
        Key::U => 0x55,
        Key::V => 0x56,
        Key::W => 0x57,
        Key::X => 0x58,
        Key::Y => 0x59,
        Key::Z => 0x5A,
        Key::F1 => 0x70,
        Key::F2 => 0x71,
        Key::F3 => 0x72,
        Key::F4 => 0x73,
        Key::F5 => 0x74,
        Key::F6 => 0x75,
        Key::F7 => 0x76,
        Key::F8 => 0x77,
        Key::F9 => 0x78,
        Key::F10 => 0x79,
        Key::F11 => 0x7A,
        Key::F12 => 0x7B,
        Key::F13 => 0x7C,
        Key::F14 => 0x7D,
        Key::F15 => 0x7E,
        Key::F16 => 0x7F,
        Key::F17 => 0x80,
        Key::F18 => 0x81,
        Key::F19 => 0x82,
        Key::F20 => 0x83,
        Key::F21 => 0x84,
        Key::F22 => 0x85,
        Key::F23 => 0x86,
        Key::F24 => 0x87,
        Key::BrowserBack => 0xA6,
        Key::IntlBackslash => 0xE2,
        Key::Copy
        | Key::Cut
        | Key::Paste
        | Key::F25
        | Key::F26
        | Key::F27
        | Key::F28
        | Key::F29
        | Key::F30
        | Key::F31
        | Key::F32
        | Key::F33
        | Key::F34
        | Key::F35
        | Key::ShiftLeft
        | Key::ShiftRight
        | Key::ControlLeft
        | Key::ControlRight
        | Key::AltLeft
        | Key::AltRight
        | Key::SuperLeft
        | Key::SuperRight => {
            return None;
        },
    };
    Some(code)
}


/// The digits of a number below a hundred.
proof fn lemma_decimal_below_hundred(n: nat)
    requires
        n < 100,
    ensures
        n < 10 ==> decimal(n) == seq![digit_char(n)],
        n >= 10 ==> decimal(n) == seq![digit_char(n / 10), digit_char(n % 10)],
{
    if n >= 10 {
        assert(decimal(n / 10) == seq![digit_char(n / 10)]);
        assert(decimal(n) =~= seq![digit_char(n / 10), digit_char(n % 10)]);
    }
}

/// A number written in hexadecimal has at least one digit, at least two from
/// sixteen on, and never starts with a zero unless it is zero.
proof fn lemma_hex_shape(n: nat)
    ensures
        hex(n).len() >= 1,
        n >= 16 ==> hex(n).len() >= 2,
        n >= 1 ==> hex(n)[0] != '0',
    decreases n,
{
    if n >= 16 {
        lemma_hex_shape(n / 16);
        assert(hex(n)[0] == hex(n / 16)[0]);
    }
}

/// Different numbers are written with different hexadecimal digits.
proof fn lemma_hex_differs(n: nat, m: nat)
    requires
        hex(n) == hex(m),
    ensures
        n == m,
    decreases n,
{
    lemma_hex_shape(n);
    lemma_hex_shape(m);
    if n >= 16 && m >= 16 {
        assert(hex(n).drop_last() =~= hex(n / 16));
        assert(hex(m).drop_last() =~= hex(m / 16));
        lemma_hex_differs(n / 16, m / 16);
        assert(hex(n).last() == hex_char(n % 16));
        assert(hex(m).last() == hex_char(m % 16));
        assert(n % 16 == m % 16);
    } else if n < 16 && m < 16 {
        assert(hex_char(n) == hex(n)[0]);
    } else {
        assert(hex(n).len() != hex(m).len());
    }
}

/// Different numbers are written with different padded hexadecimal digits.
proof fn lemma_hex2_differs(n: nat, m: nat)
    requires
        hex2(n) == hex2(m),
    ensures
        n == m,
{
    lemma_hex_shape(n);
    lemma_hex_shape(m);
    if n < 16 && m < 16 {
        assert(hex2(n)[1] == hex2(m)[1]);
    } else if n >= 16 && m >= 16 {
        lemma_hex_differs(n, m);
    } else if n < 16 {
        assert(hex2(n)[0] == '0');
        assert(hex2(m)[0] == hex(m)[0]);
    } else {
        assert(hex2(m)[0] == '0');
        assert(hex2(n)[0] == hex(n)[0]);
    }
}

/// The name of an unnamed key, without the words around its code, is its code
/// in hexadecimal.
proof fn lemma_unknown_label_parts(virtual_key: u32, language: Language)
    ensures
        ({
            let label = unknown_key_label(virtual_key, language);
            let prefix = pick(language, "Tasto sconosciuto"@, "Unknown key"@) + " (0x"@;
            &&& label.len() == prefix.len() + hex2(virtual_key as nat).len() + 1
            &&& label.subrange(prefix.len() as int, label.len() - 1) =~= hex2(virtual_key as nat)
            &&& label.subrange(0, prefix.len() as int) =~= prefix
            &&& label.len() >= pick(language, 24int, 18int)
        }),
{
    reveal_strlit(")");
    reveal_strlit(" (0x");
    reveal_strlit("Tasto sconosciuto");
    reveal_strlit("Unknown key");
    lemma_hex_shape(virtual_key as nat);
}

/// The key a name of the key table belongs to, told apart by the name's length
/// and its first, second and last characters.
spec fn key_of_name(s: Seq<char>, language: Language) -> Option<u32> {
    if s.len() == 1 && (('0' <= s[0] && s[0] <= '9') || ('A' <= s[0] && s[0] <= 'Z')) {
        Some(s[0] as u32)
    } else if s.len() == 8 && s[0] == 'N' && s[1] == 'u' && s[6] == ' ' && '0' <= s[7] && s[7] <= '9' {
        Some((0x60 + (s[7] as u32 - 48)) as u32)
    } else if s.len() == 2 && s[0] == 'F' && '1' <= s[1] && s[1] <= '9' {
        Some((0x6F + (s[1] as u32 - 48)) as u32)
    } else if s.len() == 3 && s[0] == 'F' && '1' <= s[1] && s[1] <= '2' && '0' <= s[2] && s[2] <= '9' {
        Some((0x6F + 10 * (s[1] as u32 - 48) + (s[2] as u32 - 48)) as u32)
    } else if language == Language::Italian {
        italian_key_of_name(s)
    } else {
        english_key_of_name(s)
    }
}

spec fn italian_key_of_name(s: Seq<char>) -> Option<u32> {
    if false {
        None
    } else if s.len() == 9 && s[0] == 'B' && s[1] == 'a' && s[8] == 'e' {
        Some(0x08)
    } else if s.len() == 3 && s[0] == 'T' && s[1] == 'a' && s[2] == 'b' {
        Some(0x09)
    } else if s.len() == 5 && s[0] == 'I' && s[1] == 'n' && s[4] == 'o' {
        Some(0x0D)
    } else if s.len() == 5 && s[0] == 'P' && s[1] == 'a' && s[4] == 'a' {
        Some(0x13)
    } else if s.len() == 11 && s[0] == 'B' && s[1] == 'l' && s[10] == 'c' {
        Some(0x14)
    } else if s.len() == 3 && s[0] == 'E' && s[1] == 's' && s[2] == 'c' {
        Some(0x1B)
    } else if s.len() == 6 && s[0] == 'S' && s[1] == 'p' && s[5] == 'o' {
        Some(0x20)
    } else if s.len() == 9 && s[0] == 'P' && s[1] == 'a' && s[8] == 'u' {
        Some(0x21)
    } else if s.len() == 10 && s[0] == 'P' && s[1] == 'a' && s[9] == 'ù' {
        Some(0x22)
    } else if s.len() == 4 && s[0] == 'F' && s[1] == 'i' && s[3] == 'e' {
        Some(0x23)
    } else if s.len() == 4 && s[0] == 'H' && s[1] == 'o' && s[3] == 'e' {
        Some(0x24)
    } else if s.len() == 16 && s[0] == 'F' && s[1] == 'r' && s[15] == 'a' {
        Some(0x25)
    } else if s.len() == 10 && s[0] == 'F' && s[1] == 'r' && s[9] == 'u' {
        Some(0x26)
    } else if s.len() == 14 && s[0] == 'F' && s[1] == 'r' && s[13] == 'a' {
        Some(0x27)
    } else if s.len() == 11 && s[0] == 'F' && s[1] == 'r' && s[10] == 'ù' {
        Some(0x28)
    } else if s.len() == 5 && s[0] == 'S' && s[1] == 't' && s[4] == 'p' {
        Some(0x2C)
    } else if s.len() == 3 && s[0] == 'I' && s[1] == 'n' && s[2] == 's' {
        Some(0x2D)
    } else if s.len() == 4 && s[0] == 'C' && s[1] == 'a' && s[3] == 'c' {
        Some(0x2E)
    } else if s.len() == 17 && s[0] == 'N' && s[1] == 'u' && s[16] == 'a' {
        Some(0x6A)
    } else if s.len() == 10 && s[0] == 'N' && s[1] == 'u' && s[9] == 'ù' {
        Some(0x6B)
    } else if s.len() == 11 && s[0] == 'N' && s[1] == 'u' && s[10] == 'o' {
        Some(0x6D)
    } else if s.len() == 15 && s[0] == 'N' && s[1] == 'u' && s[14] == 'e' {
        Some(0x6E)
    } else if s.len() == 13 && s[0] == 'N' && s[1] == 'u' && s[12] == 'i' {
        Some(0x6F)
    } else if s.len() == 8 && s[0] == 'N' && s[1] == 'u' && s[7] == 'k' {
        Some(0x90)
    } else if s.len() == 11 && s[0] == 'S' && s[1] == 'c' && s[10] == 'k' {
        Some(0x91)
    } else if s.len() == 16 && s[0] == 'B' && s[1] == 'r' && s[15] == 'o' {
        Some(0xA6)
    } else if s.len() == 14 && s[0] == 'B' && s[1] == 'r' && s[13] == 'i' {
        Some(0xA7)
    } else if s.len() == 15 && s[0] == 'D' && s[1] == 'i' && s[14] == 'o' {
        Some(0xAD)
    } else if s.len() == 10 && s[0] == 'V' && s[1] == 'o' && s[9] == 'ù' {
        Some(0xAE)
    } else if s.len() == 9 && s[0] == 'V' && s[1] == 'o' && s[8] == 'u' {
        Some(0xAF)
    } else if s.len() == 18 && s[0] == 'T' && s[1] == 'r' && s[17] == 'a' {
        Some(0xB0)
    } else if s.len() == 18 && s[0] == 'T' && s[1] == 'r' && s[17] == 'e' {
        Some(0xB1)
    } else if s.len() == 17 && s[0] == 'A' && s[1] == 'r' && s[16] == 'o' {
        Some(0xB2)
    } else if s.len() == 15 && s[0] == 'R' && s[1] == 'i' && s[14] == 'a' {
        Some(0xB3)
    } else if s.len() == 1 && s[0] == ';' {
        Some(0xBA)
    } else if s.len() == 1 && s[0] == '+' {
        Some(0xBB)
    } else if s.len() == 1 && s[0] == ',' {
        Some(0xBC)
    } else if s.len() == 1 && s[0] == '-' {
        Some(0xBD)
    } else if s.len() == 1 && s[0] == '.' {
        Some(0xBE)
    } else if s.len() == 1 && s[0] == '/' {
        Some(0xBF)
    } else if s.len() == 1 && s[0] == '`' {
        Some(0xC0)
    } else if s.len() == 1 && s[0] == '[' {
        Some(0xDB)
    } else if s.len() == 1 && s[0] == '\\' {
        Some(0xDC)
    } else if s.len() == 1 && s[0] == ']' {
        Some(0xDD)
    } else if s.len() == 1 && s[0] == '\'' {
        Some(0xDE)
    } else if s.len() == 9 && s[0] == 'T' && s[1] == 'a' && s[8] == 'O' {
        Some(0xE2)
    } else {
        None
    }
}

spec fn english_key_of_name(s: Seq<char>) -> Option<u32> {
    if false {
        None
    } else if s.len() == 9 && s[0] == 'B' && s[1] == 'a' && s[8] == 'e' {
        Some(0x08)
    } else if s.len() == 3 && s[0] == 'T' && s[1] == 'a' && s[2] == 'b' {
        Some(0x09)
    } else if s.len() == 5 && s[0] == 'E' && s[1] == 'n' && s[4] == 'r' {
        Some(0x0D)
    } else if s.len() == 5 && s[0] == 'P' && s[1] == 'a' && s[4] == 'e' {
        Some(0x13)
    } else if s.len() == 9 && s[0] == 'C' && s[1] == 'a' && s[8] == 'k' {
        Some(0x14)
    } else if s.len() == 3 && s[0] == 'E' && s[1] == 's' && s[2] == 'c' {
        Some(0x1B)
    } else if s.len() == 5 && s[0] == 'S' && s[1] == 'p' && s[4] == 'e' {
        Some(0x20)
    } else if s.len() == 7 && s[0] == 'P' && s[1] == 'a' && s[6] == 'p' {
        Some(0x21)
    } else if s.len() == 9 && s[0] == 'P' && s[1] == 'a' && s[8] == 'n' {
        Some(0x22)
    } else if s.len() == 3 && s[0] == 'E' && s[1] == 'n' && s[2] == 'd' {
        Some(0x23)
    } else if s.len() == 4 && s[0] == 'H' && s[1] == 'o' && s[3] == 'e' {
        Some(0x24)
    } else if s.len() == 10 && s[0] == 'L' && s[1] == 'e' && s[9] == 'w' {
        Some(0x25)
    } else if s.len() == 8 && s[0] == 'U' && s[1] == 'p' && s[7] == 'w' {
        Some(0x26)
    } else if s.len() == 11 && s[0] == 'R' && s[1] == 'i' && s[10] == 'w' {
        Some(0x27)
    } else if s.len() == 10 && s[0] == 'D' && s[1] == 'o' && s[9] == 'w' {
        Some(0x28)
    } else if s.len() == 12 && s[0] == 'P' && s[1] == 'r' && s[11] == 'n' {
        Some(0x2C)
    } else if s.len() == 6 && s[0] == 'I' && s[1] == 'n' && s[5] == 't' {
        Some(0x2D)
    } else if s.len() == 6 && s[0] == 'D' && s[1] == 'e' && s[5] == 'e' {
        Some(0x2E)
    } else if s.len() == 15 && s[0] == 'N' && s[1] == 'u' && s[14] == 'y' {
        Some(0x6A)
    } else if s.len() == 10 && s[0] == 'N' && s[1] == 'u' && s[9] == 'd' {
        Some(0x6B)
    } else if s.len() == 15 && s[0] == 'N' && s[1] == 'u' && s[14] == 't' {
        Some(0x6D)
    } else if s.len() == 14 && s[0] == 'N' && s[1] == 'u' && s[13] == 'l' {
        Some(0x6E)
    } else if s.len() == 13 && s[0] == 'N' && s[1] == 'u' && s[12] == 'e' {
        Some(0x6F)
    } else if s.len() == 8 && s[0] == 'N' && s[1] == 'u' && s[7] == 'k' {
        Some(0x90)
    } else if s.len() == 11 && s[0] == 'S' && s[1] == 'c' && s[10] == 'k' {
        Some(0x91)
    } else if s.len() == 12 && s[0] == 'B' && s[1] == 'r' && s[11] == 'k' {
        Some(0xA6)
    } else if s.len() == 15 && s[0] == 'B' && s[1] == 'r' && s[14] == 'd' {
        Some(0xA7)
    } else if s.len() == 11 && s[0] == 'V' && s[1] == 'o' && s[10] == 'e' {
        Some(0xAD)
    } else if s.len() == 11 && s[0] == 'V' && s[1] == 'o' && s[10] == 'n' {
        Some(0xAE)
    } else if s.len() == 9 && s[0] == 'V' && s[1] == 'o' && s[8] == 'p' {
        Some(0xAF)
    } else if s.len() == 10 && s[0] == 'N' && s[1] == 'e' && s[9] == 'k' {
        Some(0xB0)
    } else if s.len() == 14 && s[0] == 'P' && s[1] == 'r' && s[13] == 'k' {
        Some(0xB1)
    } else if s.len() == 10 && s[0] == 'S' && s[1] == 't' && s[9] == 'a' {
        Some(0xB2)
    } else if s.len() == 10 && s[0] == 'P' && s[1] == 'l' && s[9] == 'e' {
        Some(0xB3)
    } else if s.len() == 1 && s[0] == ';' {
        Some(0xBA)
    } else if s.len() == 1 && s[0] == '+' {
        Some(0xBB)
    } else if s.len() == 1 && s[0] == ',' {
        Some(0xBC)
    } else if s.len() == 1 && s[0] == '-' {
        Some(0xBD)
    } else if s.len() == 1 && s[0] == '.' {
        Some(0xBE)
    } else if s.len() == 1 && s[0] == '/' {
        Some(0xBF)
    } else if s.len() == 1 && s[0] == '`' {
        Some(0xC0)
    } else if s.len() == 1 && s[0] == '[' {
        Some(0xDB)
    } else if s.len() == 1 && s[0] == '\\' {
        Some(0xDC)
    } else if s.len() == 1 && s[0] == ']' {
        Some(0xDD)
    } else if s.len() == 1 && s[0] == '\'' {
        Some(0xDE)
    } else if s.len() == 7 && s[0] == 'I' && s[1] == 'S' && s[6] == 'y' {
        Some(0xE2)
    } else {
        None
    }
}

/// Every name of its own in the key table leads back to its key, and is
/// shorter than the name of any unnamed key.
proof fn lemma_name_leads_back(k: u32, language: Language)
    requires
        key_label(k, language) != unknown_key_label(k, language),
    ensures
        key_of_name(key_label(k, language), language) == Some(k),
        key_label(k, language).len() < pick(language, 24int, 18int),
{
    reveal_strlit("Backspace");
    reveal_strlit("Tab");
    reveal_strlit("Invio");
    reveal_strlit("Enter");
    reveal_strlit("Pausa");
    reveal_strlit("Pause");
    reveal_strlit("Bloc Maiusc");
    reveal_strlit("Caps Lock");
    reveal_strlit("Esc");
    reveal_strlit("Spazio");
    reveal_strlit("Space");
    reveal_strlit("Pagina su");
    reveal_strlit("Page Up");
    reveal_strlit("Pagina giù");
    reveal_strlit("Page Down");
    reveal_strlit("Fine");
    reveal_strlit("End");
    reveal_strlit("Home");
    reveal_strlit("Freccia sinistra");
    reveal_strlit("Left Arrow");
    reveal_strlit("Freccia su");
    reveal_strlit("Up Arrow");
    reveal_strlit("Freccia destra");
    reveal_strlit("Right Arrow");
    reveal_strlit("Freccia giù");
    reveal_strlit("Down Arrow");
    reveal_strlit("Stamp");
    reveal_strlit("Print Screen");
    reveal_strlit("Ins");
    reveal_strlit("Insert");
    reveal_strlit("Canc");
    reveal_strlit("Delete");
    reveal_strlit("Numpad ");
    reveal_strlit("Numpad Moltiplica");
    reveal_strlit("Numpad Multiply");
    reveal_strlit("Numpad Più");
    reveal_strlit("Numpad Add");
    reveal_strlit("Numpad Meno");
    reveal_strlit("Numpad Subtract");
    reveal_strlit("Numpad Decimale");
    reveal_strlit("Numpad Decimal");
    reveal_strlit("Numpad Dividi");
    reveal_strlit("Numpad Divide");
    reveal_strlit("F");
    reveal_strlit("Num Lock");
    reveal_strlit("Scroll Lock");
    reveal_strlit("Browser indietro");
    reveal_strlit("Browser Back");
    reveal_strlit("Browser avanti");
    reveal_strlit("Browser Forward");
    reveal_strlit("Disattiva audio");
    reveal_strlit("Volume Mute");
    reveal_strlit("Volume giù");
    reveal_strlit("Volume Down");
    reveal_strlit("Volume su");
    reveal_strlit("Volume Up");
    reveal_strlit("Traccia successiva");
    reveal_strlit("Next Track");
    reveal_strlit("Traccia precedente");
    reveal_strlit("Previous Track");
    reveal_strlit("Arresta contenuto");
    reveal_strlit("Stop Media");
    reveal_strlit("Riproduci/Pausa");
    reveal_strlit("Play/Pause");
    reveal_strlit(";");
    reveal_strlit("+");
    reveal_strlit(",");
    reveal_strlit("-");
    reveal_strlit(".");
    reveal_strlit("/");
    reveal_strlit("`");
    reveal_strlit("[");
    reveal_strlit("\\");
    reveal_strlit("]");
    reveal_strlit("'");
    reveal_strlit("Tasto ISO");
    reveal_strlit("ISO key");
    reveal_strlit("Tasto sconosciuto");
    reveal_strlit("Unknown key");
    reveal_strlit(" (0x");
    reveal_strlit(")");
    lemma_unknown_label_parts(k, language);
    if 0x60 <= k <= 0x69 { lemma_decimal_below_hundred((k - 0x60) as nat); }
    if 0x70 <= k <= 0x87 { lemma_decimal_below_hundred((k - 0x6F) as nat); }
}

/// Two different keys with names of their own have different names.
proof fn lemma_named_keys_differ(a: u32, b: u32, language: Language)
    requires
        a != b,
        key_label(a, language) != unknown_key_label(a, language),
        key_label(b, language) != unknown_key_label(b, language),
    ensures
        key_label(a, language) != key_label(b, language),
{
    lemma_name_leads_back(a, language);
    lemma_name_leads_back(b, language);
}

/// The arrow keys are named by their direction, in words of the interface
/// language: left, up, right and down for the codes 0x25 to 0x28.
pub proof fn lemma_arrow_keys_name_their_direction(language: Language)
    ensures
        key_label(0x25, language) == pick(language, "Freccia sinistra"@, "Left Arrow"@),
        key_label(0x26, language) == pick(language, "Freccia su"@, "Up Arrow"@),
        key_label(0x27, language) == pick(language, "Freccia destra"@, "Right Arrow"@),
        key_label(0x28, language) == pick(language, "Freccia giù"@, "Down Arrow"@),
{
}

/// Two different keys are never shown with the same name, in either language:
/// the name of a key in a shortcut tells which key it is.
pub proof fn lemma_different_keys_have_different_names(a: u32, b: u32, language: Language)
    requires
        a != b,
    ensures
        key_label(a, language) != key_label(b, language),
{
    lemma_unknown_label_parts(a, language);
    lemma_unknown_label_parts(b, language);
    let x = key_label(a, language);
    let y = key_label(b, language);
    if x == unknown_key_label(a, language) && y == unknown_key_label(b, language) {
        if x == y {
            assert(x.subrange(0, x.len() as int) == x);
            lemma_hex2_differs(a as nat, b as nat);
        }
    } else if x != unknown_key_label(a, language) && y != unknown_key_label(b, language) {
        lemma_named_keys_differ(a, b, language);
    } else if x != unknown_key_label(a, language) {
        lemma_name_leads_back(a, language);
    } else {
        lemma_name_leads_back(b, language);
    }
}

} // verus!
