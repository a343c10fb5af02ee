use quboid::action::Action;
use quboid::capture::ShortcutCapture;
use quboid::config::{AppConfig, HotkeyBinding, Language};
use quboid::geometry::Rect;
use quboid::keys::{Key, KeyModifiers};
use quboid::runtime::RuntimeEvent;
use quboid::settings::{KeyEvent, Page, SettingsState};
use quboid::ui::UiIntent;

fn italian_config() -> AppConfig {
    AppConfig { language: Language::Italian, ..AppConfig::default() }
}

fn press(key: Key, modifiers: KeyModifiers) -> KeyEvent {
    KeyEvent { key, physical_key: None, pressed: true, repeat: false, modifiers }
}

fn ctrl_alt() -> KeyModifiers {
    KeyModifiers { alt: true, ctrl: true, shift: false }
}

#[test]
fn runtime_events_are_reported_on_the_status_line() {
    let mut state = SettingsState::new(italian_config());
    assert_eq!(state.status(), "Cuboid è pronto");
    state.handle_event(RuntimeEvent::NoActiveWindow);
    assert_eq!(state.status(), "Nessuna finestra idonea attiva");
    state.handle_event(RuntimeEvent::Applied { action: Action::LeftHalf, rect: Some(Rect::new(0, 0, 10, 10)) });
    assert_eq!(state.status(), "Azione applicata: Metà sinistra");

    let mut english = SettingsState::new(AppConfig::default());
    english.handle_event(RuntimeEvent::HotkeyConflict { action: Action::Grow });
    assert_eq!(english.status(), "Shortcut already in use: Grow");
    english.handle_event(RuntimeEvent::Failed("boom".to_owned()));
    assert_eq!(english.status(), "Operation failed: boom");
}

#[test]
fn leaving_the_shortcuts_page_ends_a_capture() {
    let mut state = SettingsState::new(AppConfig::default());
    state.show_page(Page::Shortcuts);
    state.add_shortcut();
    assert!(matches!(state.shortcut_capture(), Some(ShortcutCapture::New(_))));
    state.show_page(Page::General);
    assert_eq!(state.shortcut_capture(), None);
    assert_eq!(state.page(), Page::General);
}

#[test]
fn shortcut_editor_adds_a_valid_binding() {
    let mut state = SettingsState::new(AppConfig::default());
    let before = state.config().hotkeys.len();
    state.show_page(Page::Shortcuts);
    state.add_shortcut();
    state.choose_new_shortcut_action(Action::CenterHalf);
    let changed = state.capture_key_events(&[press(Key::H, ctrl_alt())]);
    assert!(changed);
    assert_eq!(state.shortcut_capture(), None);
    assert_eq!(state.config().hotkeys.len(), before + 1);
    assert_eq!(
        state.config().hotkeys[before],
        HotkeyBinding { action: Action::CenterHalf, modifiers: 0x0003, virtual_key: 0x48 }
    );
    let intents = state.finish_frame(changed, true);
    assert!(matches!(&intents[0], UiIntent::Save(saved) if saved == state.config()));
    assert!(matches!(intents[1], UiIntent::SetShortcutCaptureActive(false)));
}

#[test]
fn shortcut_editor_rejects_duplicate_combinations_before_saving() {
    let mut state = SettingsState::new(AppConfig::default());
    let existing = state.config().hotkeys[0];
    state.add_shortcut();
    let modifiers = KeyModifiers { alt: existing.modifiers & 1 != 0, ctrl: existing.modifiers & 2 != 0, shift: existing.modifiers & 4 != 0 };
    let key = if existing.virtual_key == 0x25 { Key::ArrowLeft } else { Key::ArrowRight };
    let changed = state.capture_key_events(&[press(key, modifiers)]);
    assert!(!changed);
    assert!(state.status().starts_with("Shortcut already assigned: "));
    assert!(state.shortcut_capture().is_some());
}

#[test]
fn shortcut_capture_uses_the_physical_key_for_layout_dependent_symbols() {
    let mut state = SettingsState::new(AppConfig::default());
    state.add_shortcut();
    let event = KeyEvent {
        key: Key::Plus,
        physical_key: Some(Key::Equals),
        pressed: true,
        repeat: false,
        modifiers: KeyModifiers { alt: false, ctrl: true, shift: true },
    };
    assert!(state.capture_key_events(&[event]));
    let added = *state.config().hotkeys.last().unwrap();
    assert_eq!(added.virtual_key, 0xBB);
    assert_eq!(added.modifiers, 0x0006);
}

#[test]
fn the_windows_key_is_tracked_across_events() {
    let mut state = SettingsState::new(AppConfig::default());
    state.edit_shortcut(0);
    let windows_down = KeyEvent { key: Key::SuperLeft, physical_key: None, pressed: true, repeat: false, modifiers: KeyModifiers::default() };
    let repeat = KeyEvent { repeat: true, ..press(Key::Q, KeyModifiers::default()) };
    assert!(!state.capture_key_events(&[windows_down, repeat]));
    assert!(state.capture_key_events(&[press(Key::Q, KeyModifiers::default())]));
    let action = AppConfig::default().hotkeys[0].action;
    assert_eq!(state.config().hotkeys[0], HotkeyBinding { action, modifiers: 0x0008, virtual_key: 0x51 });
}

#[test]
fn unsupported_keys_are_reported() {
    let mut state = SettingsState::new(italian_config());
    state.add_shortcut();
    assert!(!state.capture_key_events(&[press(Key::F30, KeyModifiers::default())]));
    assert_eq!(state.status(), "Questo tasto non è supportato come scorciatoia globale");
    assert!(state.shortcut_capture().is_some());
}

#[test]
fn cancelling_shortcut_capture_resumes_global_hotkeys() {
    let mut state = SettingsState::new(AppConfig::default());
    state.add_shortcut();
    assert!(state.cancel_shortcut_capture());
    assert!(!state.cancel_shortcut_capture());
    let intents = state.finish_frame(false, true);
    assert_eq!(intents.len(), 1);
    assert!(matches!(intents[0], UiIntent::SetShortcutCaptureActive(false)));
}

#[test]
fn an_invalid_edit_is_reported_instead_of_saved() {
    let mut state = SettingsState::new(AppConfig::default());
    assert!(state.set_general(Language::English, true, 20_000, 500, false));
    let intents = state.finish_frame(true, false);
    assert!(intents.is_empty());
    assert_eq!(state.status(), "Invalid configuration: gap 20000 is outside the normalized range");
}

#[test]
fn removing_a_shortcut_ends_the_capture() {
    let mut state = SettingsState::new(AppConfig::default());
    let before = state.config().hotkeys.len();
    state.edit_shortcut(1);
    state.remove_shortcut(1);
    assert_eq!(state.config().hotkeys.len(), before - 1);
    assert_eq!(state.shortcut_capture(), None);
    assert!(state.set_shortcut_action(0, Action::Shrink));
    assert!(!state.set_shortcut_action(0, Action::Shrink));
    state.set_error("disk full");
    assert_eq!(state.status(), "Error: disk full");
}
