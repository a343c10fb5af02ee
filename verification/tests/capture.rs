use quboid::action::Action;
use quboid::capture::{assign_capture, captured_binding, next_unbound_action, ShortcutCapture};
use quboid::config::{AppConfig, HotkeyBinding};
use quboid::keys::KeyModifiers;
use quboid::ui::action_groups;

#[test]
fn a_new_shortcut_starts_with_the_first_unbound_action() {
    let config = AppConfig::default();
    // The default shortcuts leave the centre half without a shortcut.
    let first = next_unbound_action(&config.hotkeys);
    assert!(config.hotkeys.iter().all(|binding| binding.action != first));
    assert_eq!(next_unbound_action(&[]), Action::LeftHalf);
    let only_left = [HotkeyBinding { action: Action::LeftHalf, modifiers: 3, virtual_key: 0x25 }];
    assert_eq!(next_unbound_action(&only_left), Action::RightHalf);
}

#[test]
fn a_captured_key_keeps_the_action_of_the_shortcut_it_replaces() {
    let hotkeys = [HotkeyBinding { action: Action::Grow, modifiers: 3, virtual_key: 0x47 }];
    let modifiers = KeyModifiers { alt: false, ctrl: true, shift: true };
    let binding = captured_binding(ShortcutCapture::Existing(0), &hotkeys, 0x41, modifiers, true);
    assert_eq!(binding, HotkeyBinding { action: Action::Grow, modifiers: 0x000E, virtual_key: 0x41 });
    let binding = captured_binding(ShortcutCapture::New(Action::Shrink), &hotkeys, 0x42, modifiers, false);
    assert_eq!(binding, HotkeyBinding { action: Action::Shrink, modifiers: 0x0006, virtual_key: 0x42 });
}

#[test]
fn a_duplicate_combination_is_refused_before_saving() {
    let mut hotkeys = vec![
        HotkeyBinding { action: Action::Grow, modifiers: 3, virtual_key: 0x47 },
        HotkeyBinding { action: Action::Shrink, modifiers: 3, virtual_key: 0x53 },
    ];
    let duplicate = HotkeyBinding { action: Action::Center, modifiers: 3, virtual_key: 0x47 };
    assert!(!assign_capture(&mut hotkeys, ShortcutCapture::New(Action::Center), duplicate));
    assert_eq!(hotkeys.len(), 2);

    // Rebinding a shortcut to its own combination is no duplicate.
    let same = HotkeyBinding { action: Action::Grow, modifiers: 3, virtual_key: 0x47 };
    assert!(assign_capture(&mut hotkeys, ShortcutCapture::Existing(0), same));

    let fresh = HotkeyBinding { action: Action::Center, modifiers: 3, virtual_key: 0x43 };
    assert!(assign_capture(&mut hotkeys, ShortcutCapture::New(Action::Center), fresh));
    assert_eq!(hotkeys.len(), 3);
    assert_eq!(hotkeys[2], fresh);
}

#[test]
fn the_actions_page_groups_every_geometric_action() {
    let groups = action_groups();
    assert_eq!(groups.len(), 5);
    assert_eq!(groups[0].id, "halves");
    assert_eq!(groups[0].english, "Halves");
    assert_eq!(groups[3].italian, "Dimensione e stato");
    assert_eq!(groups[4].actions, vec![
        Action::PreviousMonitor,
        Action::NextMonitor,
        Action::MoveLeft,
        Action::MoveRight,
        Action::MoveUp,
        Action::MoveDown,
    ]);
    let count: usize = groups.iter().map(|group| group.actions.len()).sum();
    assert_eq!(count, 28);
}

#[test]
fn a_valid_configuration_has_distinct_combinations() {
    let config = AppConfig::default();
    assert_eq!(config.validate(), Ok(()));
    for (i, first) in config.hotkeys.iter().enumerate() {
        assert_ne!(first.virtual_key, 0);
        for second in &config.hotkeys[i + 1..] {
            assert!((first.modifiers, first.virtual_key) != (second.modifiers, second.virtual_key));
        }
    }
}
