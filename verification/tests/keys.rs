use quboid::action::Action;
use quboid::config::{HotkeyBinding, Language};
use quboid::keys::{
    format_shortcut, key_name, modifier_bits, shortcut_for, unknown_key_name, virtual_key_for, Key, KeyModifiers,
};

#[test]
fn keys_are_named_in_the_interface_language() {
    assert_eq!(key_name(0x25, Language::Italian), "Freccia sinistra");
    assert_eq!(key_name(0x25, Language::English), "Left Arrow");
    assert_eq!(key_name(0x0D, Language::Italian), "Invio");
    assert_eq!(key_name(0x41, Language::English), "A");
    assert_eq!(key_name(0x37, Language::English), "7");
    assert_eq!(key_name(0x63, Language::English), "Numpad 3");
    assert_eq!(key_name(0x70, Language::English), "F1");
    assert_eq!(key_name(0x87, Language::English), "F24");
    assert_eq!(key_name(0xDC, Language::English), "\\");
    assert_eq!(key_name(0x22, Language::Italian), "Pagina giù");
}

#[test]
fn unknown_keys_show_their_code() {
    assert_eq!(unknown_key_name(0xFF, Language::English), "Unknown key (0xFF)");
    assert_eq!(unknown_key_name(0x07, Language::Italian), "Tasto sconosciuto (0x07)");
    assert_eq!(key_name(0x1234, Language::English), "Unknown key (0x1234)");
}

#[test]
fn shortcuts_list_their_modifiers_before_the_key() {
    let binding = HotkeyBinding { action: Action::LeftHalf, modifiers: 0x0003, virtual_key: 0x25 };
    assert_eq!(format_shortcut(&binding, Language::English), "Ctrl + Alt + Left Arrow");
    let binding = HotkeyBinding { action: Action::NextMonitor, modifiers: 0x000F, virtual_key: 0x27 };
    assert_eq!(format_shortcut(&binding, Language::Italian), "Ctrl + Alt + Shift + Win + Freccia destra");
    let binding = HotkeyBinding { action: Action::Center, modifiers: 0, virtual_key: 0x43 };
    assert_eq!(format_shortcut(&binding, Language::English), "C");
}

#[test]
fn the_first_shortcut_of_an_action_is_shown() {
    let bindings = [
        HotkeyBinding { action: Action::Grow, modifiers: 0x0002, virtual_key: 0x47 },
        HotkeyBinding { action: Action::LeftHalf, modifiers: 0x0003, virtual_key: 0x25 },
        HotkeyBinding { action: Action::LeftHalf, modifiers: 0x0004, virtual_key: 0x41 },
    ];
    assert_eq!(shortcut_for(&bindings, Action::LeftHalf, Language::English), Some("Ctrl + Alt + Left Arrow".to_owned()));
    assert_eq!(shortcut_for(&bindings, Action::Shrink, Language::English), None);
}

#[test]
fn captured_keys_map_to_virtual_keys() {
    assert_eq!(virtual_key_for(Key::ArrowLeft), Some(0x25));
    assert_eq!(virtual_key_for(Key::Semicolon), Some(0xBA));
    assert_eq!(virtual_key_for(Key::Colon), Some(0xBA));
    assert_eq!(virtual_key_for(Key::Exclamationmark), Some(0x31));
    assert_eq!(virtual_key_for(Key::Z), Some(0x5A));
    assert_eq!(virtual_key_for(Key::F24), Some(0x87));
    assert_eq!(virtual_key_for(Key::F25), None);
    assert_eq!(virtual_key_for(Key::ShiftLeft), None);
    assert_eq!(virtual_key_for(Key::Copy), None);
}

#[test]
fn held_modifiers_give_their_bits() {
    assert_eq!(modifier_bits(KeyModifiers { alt: true, ctrl: true, shift: false }), 0x0003);
    assert_eq!(modifier_bits(KeyModifiers { alt: false, ctrl: false, shift: true }), 0x0004);
    assert_eq!(modifier_bits(KeyModifiers::default()), 0);
}
