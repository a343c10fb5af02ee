//! The state of the settings window that does not depend on drawing it: the
//! page shown, the status line, the shortcut being captured, and what the
//! window asks for once a frame is done.

use vstd::prelude::*;
use vstd::string::StringExecFns;

use crate::action::Action;
use crate::capture::{
    assign_capture, assigned, captured_binding, captured_modifiers, first_unbound, all_actions, next_unbound_action,
    taken_elsewhere, ShortcutCapture,
};
use crate::config::{config_error_text, validation, AppConfig, ConfigView, HotkeyBinding, Language};
use crate::keys::{format_shortcut, shortcut_label, virtual_key_for, virtual_key_of, Key, KeyModifiers};
use crate::runtime::RuntimeEvent;
use crate::ui::{action_name, english_action_name, italian_action_name, pick, text, UiIntent};

verus! {

/// The pages of the settings window.
#[derive(Clone, Copy, Debug, Default, PartialEq, Eq, Structural)]
pub enum Page {
    #[default]
    Actions,
    Shortcuts,
    /// A page contributed by the host, identified by its index.
    Extension(usize),
    General,
}

/// A key going down or up while a shortcut is captured.
#[derive(Clone, Copy, Debug, PartialEq, Eq, Structural)]
pub struct KeyEvent {
    /// The key the layout produced.
    pub key: Key,
    /// The key at that position on a US layout, when the windowing layer knows it.
    pub physical_key: Option<Key>,
    pub pressed: bool,
    pub repeat: bool,
    pub modifiers: KeyModifiers,
}

/// What reading a frame's key events found: whether each Windows key is down,
/// the last shortcut a key press made, and whether a key that cannot be a
/// global shortcut was pressed.
pub type CaptureScan = (bool, bool, Option<HotkeyBinding>, bool);

pub open spec fn is_plain_modifier(key: Key) -> bool {
    key == Key::ShiftLeft || key == Key::ShiftRight || key == Key::ControlLeft || key == Key::ControlRight || key
        == Key::AltLeft || key == Key::AltRight
}

/// The action a capture gives its shortcut.
pub open spec fn capture_action(target: ShortcutCapture, hotkeys: Seq<HotkeyBinding>) -> Action {
    match target {
        ShortcutCapture::Existing(index) => hotkeys[index as int].action,
        ShortcutCapture::New(action) => action,
    }
}

/// One key event of a capture: the Windows keys are tracked, the other
/// modifiers ignored, and a fresh press of any other key makes a shortcut of
/// the layout-independent key when there is one.
pub open spec fn scan_step(
    scan: CaptureScan,
    event: KeyEvent,
    target: ShortcutCapture,
    hotkeys: Seq<HotkeyBinding>,
) -> CaptureScan {
    if event.key == Key::SuperLeft {
        (event.pressed, scan.1, scan.2, scan.3)
    } else if event.key == Key::SuperRight {
        (scan.0, event.pressed, scan.2, scan.3)
    } else if is_plain_modifier(event.key) || !event.pressed || event.repeat {
        scan
    } else {
        let key = match event.physical_key {
            Some(physical) => physical,
            None => event.key,
        };
        match virtual_key_of(key) {
            Some(virtual_key) => (
                scan.0,
                scan.1,
                Some(
                    HotkeyBinding {
                        action: capture_action(target, hotkeys),
                        modifiers: captured_modifiers(event.modifiers, scan.0 || scan.1),
                        virtual_key,
                    },
                ),
                scan.3,
            ),
            None => (scan.0, scan.1, scan.2, true),
        }
    }
}

pub open spec fn scan_events(
    scan: CaptureScan,
    events: Seq<KeyEvent>,
    target: ShortcutCapture,
    hotkeys: Seq<HotkeyBinding>,
) -> CaptureScan
    decreases events.len(),
{
    if events.len() == 0 {
        scan
    } else {
        scan_step(scan_events(scan, events.drop_last(), target, hotkeys), events.last(), target, hotkeys)
    }
}

pub open spec fn ready_text(language: Language) -> Seq<char> {
    pick(language, "Cuboid è pronto"@, "Cuboid is ready"@)
}

pub open spec fn unsupported_key_text(language: Language) -> Seq<char> {
    pick(
        language,
        "Questo tasto non è supportato come scorciatoia globale"@,
        "This key is not supported as a global shortcut"@,
    )
}

pub open spec fn duplicate_text(language: Language, binding: HotkeyBinding) -> Seq<char> {
    pick(language, "Combinazione già assegnata"@, "Shortcut already assigned"@) + ": "@ + shortcut_label(
        binding,
        language,
    )
}

pub open spec fn action_label(language: Language, action: Action) -> Seq<char> {
    pick(language, italian_action_name(action), english_action_name(action))
}

/// The status line a runtime event leaves; `None` for the events the settings
/// window does not report.
pub open spec fn event_text(language: Language, event: RuntimeEvent) -> Option<Seq<char>> {
    match event {
        RuntimeEvent::Ready => Some(pick(language, "Runtime Windows pronto"@, "Windows runtime ready"@)),
        RuntimeEvent::Applied { action, .. } => Some(
            pick(language, "Azione applicata"@, "Action applied"@) + ": "@ + action_label(language, action),
        ),
        RuntimeEvent::AreaApplied { .. } => Some(pick(language, "Area applicata"@, "Area applied"@)),
        RuntimeEvent::HotkeyConflict { action } => Some(
            pick(language, "Scorciatoia già in uso"@, "Shortcut already in use"@) + ": "@ + action_label(
                language,
                action,
            ),
        ),
        RuntimeEvent::NoActiveWindow => Some(
            pick(language, "Nessuna finestra idonea attiva"@, "No eligible active window"@),
        ),
        RuntimeEvent::AccessDenied => Some(
            pick(
                language,
                "Windows impedisce il controllo di una finestra elevata"@,
                "Windows prevents controlling an elevated window"@,
            ),
        ),
        RuntimeEvent::Failed(message) => Some(
            pick(language, "Operazione non riuscita"@, "Operation failed"@) + ": "@ + message@,
        ),
        _ => None,
    }
}

/// The state of the settings window.
pub struct SettingsState {
    config: AppConfig,
    page: Page,
    status: String,
    shortcut_capture: Option<ShortcutCapture>,
    win_keys_down: (bool, bool),
}

impl SettingsState {
    /// A capture of an existing shortcut points at one.
    #[verifier::type_invariant]
    spec fn capture_in_range(self) -> bool {
        self.shortcut_capture matches Some(ShortcutCapture::Existing(index)) ==> index < self.config.hotkeys@.len()
    }

    pub closed spec fn settings(self) -> ConfigView {
        self.config@
    }

    pub closed spec fn current_page(self) -> Page {
        self.page
    }

    pub closed spec fn status_text(self) -> Seq<char> {
        self.status@
    }

    pub closed spec fn capture(self) -> Option<ShortcutCapture> {
        self.shortcut_capture
    }

    pub closed spec fn windows_keys(self) -> (bool, bool) {
        self.win_keys_down
    }

    pub fn new(config: AppConfig) -> (state: Self)
        ensures
            state.settings() == config@,
            state.current_page() == Page::Actions,
            state.status_text() == ready_text(config@.language),
            state.capture() is None,
            state.windows_keys() == (false, false),
    {
        let status = text(config.language, "Cuboid è pronto", "Cuboid is ready").to_owned();
        SettingsState { config, page: Page::Actions, status, shortcut_capture: None, win_keys_down: (false, false) }
    }

    pub fn config(&self) -> (config: &AppConfig)
        ensures
            config@ == self.settings(),
    {
        &self.config
    }

    pub fn page(&self) -> (page: Page)
        ensures
            page == self.current_page(),
    {
        self.page
    }

    pub fn status(&self) -> (status: &str)
        ensures
            status@ == self.status_text(),
    {
        self.status.as_str()
    }

    pub fn shortcut_capture(&self) -> (capture: Option<ShortcutCapture>)
        ensures
            capture == self.capture(),
    {
        self.shortcut_capture
    }

    /// Shows another page; leaving the shortcuts page ends a capture.
    pub fn show_page(&mut self, page: Page)
        ensures
            final(self).current_page() == page,
            final(self).settings() == old(self).settings(),
            final(self).status_text() == old(self).status_text(),
            page == Page::Shortcuts ==> final(self).capture() == old(self).capture() && final(self).windows_keys()
                == old(self).windows_keys(),
            page != Page::Shortcuts ==> final(self).capture() is None && final(self).windows_keys() == (false, false),
    {
        proof {
            use_type_invariant(&*self);
        }
        self.page = page;
        if page != Page::Shortcuts {
            self.shortcut_capture = None;
            self.win_keys_down = (false, false);
        }
    }

    /// Reports a runtime event on the status line.
    pub fn handle_event(&mut self, event: RuntimeEvent)
        ensures
            final(self).settings() == old(self).settings(),
            final(self).current_page() == old(self).current_page(),
            final(self).capture() == old(self).capture(),
            final(self).windows_keys() == old(self).windows_keys(),
            final(self).status_text() == match event_text(old(self).settings().language, event) {
                Some(status) => status,
                None => old(self).status_text(),
            },
    {
        proof {
            use_type_invariant(&*self);
        }
        let language = self.config.language;
        let status = match event {
            RuntimeEvent::Ready => text(language, "Runtime Windows pronto", "Windows runtime ready").to_owned(),
            RuntimeEvent::Applied { action, .. } => {
                let mut status = text(language, "Azione applicata", "Action applied").to_owned();
                status.append(": ");
                status.append(action_name(language, action));
                status
            },
            RuntimeEvent::AreaApplied { .. } => text(language, "Area applicata", "Area applied").to_owned(),
            RuntimeEvent::HotkeyConflict { action } => {
                let mut status = text(language, "Scorciatoia già in uso", "Shortcut already in use").to_owned();
                status.append(": ");
                status.append(action_name(language, action));
                status
            },
            RuntimeEvent::NoActiveWindow => text(
                language,
                "Nessuna finestra idonea attiva",
                "No eligible active window",
            ).to_owned(),
            RuntimeEvent::AccessDenied => text(
                language,
                "Windows impedisce il controllo di una finestra elevata",
                "Windows prevents controlling an elevated window",
            ).to_owned(),
            RuntimeEvent::Failed(message) => {
                let mut status = text(language, "Operazione non riuscita", "Operation failed").to_owned();
                status.append(": ");
                status.append(message.as_str());
                status
            },
            _ => {
                return;
            },
        };
        self.status = status;
    }

    /// Takes settings loaded from elsewhere; a capture in progress ends.
    pub fn replace_config(&mut self, config: AppConfig)
        ensures
            final(self).settings() == config@,
            final(self).current_page() == old(self).current_page(),
            final(self).status_text() == old(self).status_text(),
            final(self).capture() is None,
            final(self).windows_keys() == (false, false),
    {
        proof {
            use_type_invariant(&*self);
        }
        self.shortcut_capture = None;
        self.win_keys_down = (false, false);
        self.config = config;
    }

    /// Ends a capture in progress, reporting whether there was one.
    pub fn cancel_shortcut_capture(&mut self) -> (was_active: bool)
        ensures
            was_active == old(self).capture() is Some,
            final(self).capture() is None,
            final(self).windows_keys() == (false, false),
            final(self).settings() == old(self).settings(),
            final(self).current_page() == old(self).current_page(),
            final(self).status_text() == old(self).status_text(),
    {
        proof {
            use_type_invariant(&*self);
        }
        let was_active = self.shortcut_capture.is_some();
        self.shortcut_capture = None;
        self.win_keys_down = (false, false);
        was_active
    }

    pub fn set_status(&mut self, italian: &str, english: &str)
        ensures
            final(self).status_text() == pick(old(self).settings().language, italian@, english@),
            final(self).settings() == old(self).settings(),
            final(self).current_page() == old(self).current_page(),
            final(self).capture() == old(self).capture(),
            final(self).windows_keys() == old(self).windows_keys(),
    {
        proof {
            use_type_invariant(&*self);
        }
        self.status = text(self.config.language, italian, english).to_owned();
    }

    pub fn set_error(&mut self, message: &str)
        ensures
            final(self).status_text() == pick(old(self).settings().language, "Errore"@, "Error"@) + ": "@ + message@,
            final(self).settings() == old(self).settings(),
            final(self).current_page() == old(self).current_page(),
            final(self).capture() == old(self).capture(),
            final(self).windows_keys() == old(self).windows_keys(),
    {
        proof {
            use_type_invariant(&*self);
        }
        let mut status = text(self.config.language, "Errore", "Error").to_owned();
        status.append(": ");
        status.append(message);
        self.status = status;
    }

    /// Starts capturing a new shortcut, for the first action without one.
    pub fn add_shortcut(&mut self)
        ensures
            final(self).capture() == Some(
                ShortcutCapture::New(
                    match first_unbound(old(self).settings().hotkeys, all_actions().len()) {
                        Some(unbound) => unbound,
                        None => Action::LeftHalf,
                    },
                ),
            ),
            final(self).settings() == old(self).settings(),
            final(self).current_page() == old(self).current_page(),
            final(self).status_text() == old(self).status_text(),
            final(self).windows_keys() == old(self).windows_keys(),
    {
        proof {
            use_type_invariant(&*self);
        }
        let action = next_unbound_action(self.config.hotkeys.as_slice());
        self.shortcut_capture = Some(ShortcutCapture::New(action));
    }

    /// Picks the action of the new shortcut being captured.
    pub fn choose_new_shortcut_action(&mut self, action: Action)
        ensures
            old(self).capture() matches Some(ShortcutCapture::New(_)) ==> final(self).capture() == Some(
                ShortcutCapture::New(action),
            ),
            !(old(self).capture() matches Some(ShortcutCapture::New(_))) ==> final(self).capture() == old(
                self,
            ).capture(),
            final(self).settings() == old(self).settings(),
            final(self).current_page() == old(self).current_page(),
            final(self).status_text() == old(self).status_text(),
            final(self).windows_keys() == old(self).windows_keys(),
    {
        proof {
            use_type_invariant(&*self);
        }
        if let Some(ShortcutCapture::New(_)) = self.shortcut_capture {
            self.shortcut_capture = Some(ShortcutCapture::New(action));
        }
    }

    /// Starts capturing a new combination for the shortcut at `index`.
    pub fn edit_shortcut(&mut self, index: usize)
        requires
            index < old(self).settings().hotkeys.len(),
        ensures
            final(self).capture() == Some(ShortcutCapture::Existing(index)),
            final(self).settings() == old(self).settings(),
            final(self).current_page() == old(self).current_page(),
            final(self).status_text() == old(self).status_text(),
            final(self).windows_keys() == old(self).windows_keys(),
    {
        proof {
            use_type_invariant(&*self);
        }
        self.shortcut_capture = Some(ShortcutCapture::Existing(index));
    }

    /// Runs another action from the shortcut at `index`.
    pub fn set_shortcut_action(&mut self, index: usize, action: Action) -> (changed: bool)
        requires
            index < old(self).settings().hotkeys.len(),
        ensures
            changed == (old(self).settings().hotkeys[index as int].action != action),
            final(self).settings() == (ConfigView {
                hotkeys: old(self).settings().hotkeys.update(
                    index as int,
                    HotkeyBinding { action, ..old(self).settings().hotkeys[index as int] },
                ),
                ..old(self).settings()
            }),
            final(self).current_page() == old(self).current_page(),
            final(self).status_text() == old(self).status_text(),
            final(self).capture() == old(self).capture(),
            final(self).windows_keys() == old(self).windows_keys(),
    {
        proof {
            use_type_invariant(&*self);
        }
        let binding = self.config.hotkeys[index];
        let changed = binding.action != action;
        let mut config = self.config.copy();
        config.hotkeys.set(index, HotkeyBinding { action, ..binding });
        self.config = config;
        changed
    }

    /// Removes the shortcut at `index`; a capture in progress ends.
    pub fn remove_shortcut(&mut self, index: usize)
        requires
            index < old(self).settings().hotkeys.len(),
        ensures
            final(self).settings() == (ConfigView {
                hotkeys: old(self).settings().hotkeys.remove(index as int),
                ..old(self).settings()
            }),
            final(self).capture() is None,
            final(self).windows_keys() == (false, false),
            final(self).current_page() == old(self).current_page(),
            final(self).status_text() == old(self).status_text(),
    {
        proof {
            use_type_invariant(&*self);
        }
        self.shortcut_capture = None;
        self.win_keys_down = (false, false);
        let mut config = self.config.copy();
        config.hotkeys.remove(index);
        self.config = config;
    }

    /// Replaces the settings edited on the general page, keeping the shortcuts.
    pub fn set_general(
        &mut self,
        language: Language,
        drag_snap_enabled: bool,
        gap: u16,
        snap_threshold: u16,
        launch_at_login: bool,
    ) -> (changed: bool)
        ensures
            final(self).settings() == (ConfigView {
                language,
                drag_snap_enabled,
                gap,
                snap_threshold,
                launch_at_login,
                ..old(self).settings()
            }),
            changed == (final(self).settings() != old(self).settings()),
            final(self).current_page() == old(self).current_page(),
            final(self).status_text() == old(self).status_text(),
            final(self).capture() == old(self).capture(),
            final(self).windows_keys() == old(self).windows_keys(),
    {
        proof {
            use_type_invariant(&*self);
        }
        let changed = self.config.language != language || self.config.drag_snap_enabled != drag_snap_enabled
            || self.config.gap != gap || self.config.snap_threshold != snap_threshold || self.config.launch_at_login
            != launch_at_login;
        self.config.language = language;
        self.config.drag_snap_enabled = drag_snap_enabled;
        self.config.gap = gap;
        self.config.snap_threshold = snap_threshold;
        self.config.launch_at_login = launch_at_login;
        changed
    }

    /// Reads the key events of a frame while a shortcut is captured. A fresh
    /// press of a key that can be a global shortcut makes a shortcut of it with
    /// the held modifiers, the Windows key included; the last such press
    /// counts. It is set unless another shortcut already has its combination,
    /// which the status line then reports; setting it ends the capture.
    /// Returns whether the shortcuts changed.
    pub fn capture_key_events(&mut self, events: &[KeyEvent]) -> (changed: bool)
        ensures
            match old(self).capture() {
                None => !changed && final(self).settings() == old(self).settings() && final(self).status_text()
                    == old(self).status_text() && final(self).capture() is None && final(self).windows_keys()
                    == old(self).windows_keys(),
                Some(target) => {
                    let hotkeys = old(self).settings().hotkeys;
                    let language = old(self).settings().language;
                    let scan = scan_events(
                        (old(self).windows_keys().0, old(self).windows_keys().1, None, false),
                        events@,
                        target,
                        hotkeys,
                    );
                    let status_after_scan = if scan.3 {
                        unsupported_key_text(language)
                    } else {
                        old(self).status_text()
                    };
                    match scan.2 {
                        None => !changed && final(self).settings() == old(self).settings()
                            && final(self).status_text() == status_after_scan && final(self).capture() == Some(
                            target,
                        ) && final(self).windows_keys() == (scan.0, scan.1),
                        Some(binding) => if taken_elsewhere(hotkeys, target, binding) {
                            !changed && final(self).settings() == old(self).settings() && final(self).status_text()
                                == duplicate_text(language, binding) && final(self).capture() == Some(target)
                                && final(self).windows_keys() == (scan.0, scan.1)
                        } else {
                            changed && final(self).settings() == (ConfigView {
                                hotkeys: assigned(hotkeys, target, binding),
                                ..old(self).settings()
                            }) && final(self).status_text() == status_after_scan && final(self).capture() is None
                                && final(self).windows_keys() == (false, false)
                        },
                    }
                },
            },
            final(self).current_page() == old(self).current_page(),
    {
        proof {
            use_type_invariant(&*self);
        }
        let target = match self.shortcut_capture {
            Some(target) => target,
            None => {
                return false;
            },
        };
        let ghost hotkeys = self.config.hotkeys@;
        let mut left_down = self.win_keys_down.0;
        let mut right_down = self.win_keys_down.1;
        let mut captured: Option<HotkeyBinding> = None;
        let mut unsupported = false;
        let mut i: usize = 0;
        assert(events@.take(0) =~= Seq::<KeyEvent>::empty());
        while i < events.len()
            invariant
                i <= events@.len(),
                hotkeys == self.config.hotkeys@,
                self.shortcut_capture == Some(target),
                target matches ShortcutCapture::Existing(index) ==> index < hotkeys.len(),
                (left_down, right_down, captured, unsupported) == scan_events(
                    (self.win_keys_down.0, self.win_keys_down.1, None, false),
                    events@.take(i as int),
                    target,
                    hotkeys,
                ),
            decreases events@.len() - i,
        {
            proof {
                assert(events@.take(i + 1).drop_last() =~= events@.take(i as int));
                assert(events@.take(i + 1).last() == events@[i as int]);
            }
            let event = events[i];
            if event.key == Key::SuperLeft {
                left_down = event.pressed;
            } else if event.key == Key::SuperRight {
                right_down = event.pressed;
            } else if event.key == Key::ShiftLeft || event.key == Key::ShiftRight || event.key == Key::ControlLeft
                || event.key == Key::ControlRight || event.key == Key::AltLeft || event.key == Key::AltRight
                || !event.pressed || event.repeat {
            } else {
                let key = match event.physical_key {
                    Some(physical) => physical,
                    None => event.key,
                };
                match virtual_key_for(key) {
                    Some(virtual_key) => {
                        captured = Some(
                            captured_binding(
                                target,
                                self.config.hotkeys.as_slice(),
                                virtual_key,
                                event.modifiers,
                                left_down || right_down,
                            ),
                        );
                    },
                    None => {
                        unsupported = true;
                    },
                }
            }
            i = i + 1;
        }
        assert(events@.take(i as int) =~= events@);
        if unsupported {
            self.status = text(
                self.config.language,
                "Questo tasto non è supportato come scorciatoia globale",
                "This key is not supported as a global shortcut",
            ).to_owned();
        }
        self.win_keys_down = (left_down, right_down);
        let binding = match captured {
            Some(binding) => binding,
            None => {
                return false;
            },
        };
        let mut config = self.config.copy();
        if !assign_capture(&mut config.hotkeys, target, binding) {
            let mut status = text(self.config.language, "Combinazione già assegnata", "Shortcut already assigned").to_owned();
            status.append(": ");
            let shortcut = format_shortcut(&binding, self.config.language);
            status.append(shortcut.as_str());
            self.status = status;
            return false;
        }
        self.shortcut_capture = None;
        self.win_keys_down = (false, false);
        self.config = config;
        true
    }

    /// What the window asks for once a frame is done: saving settings that
    /// changed, when they are valid (otherwise the status line says why), and
    /// suspending or resuming the global shortcuts when a capture started or
    /// ended during the frame.
    pub fn finish_frame(&mut self, changed: bool, capture_was_active: bool) -> (intents: Vec<UiIntent>)
        ensures
            final(self).settings() == old(self).settings(),
            final(self).current_page() == old(self).current_page(),
            final(self).capture() == old(self).capture(),
            final(self).windows_keys() == old(self).windows_keys(),
            changed && validation(old(self).settings()) is Ok ==> intents@.len() >= 1 && (intents@[0] matches UiIntent::Save(
                saved,
            ) && saved@ == old(self).settings()),
            changed ==> match validation(old(self).settings()) {
                Ok(_) => final(self).status_text() == old(self).status_text(),
                Err(error) => final(self).status_text() == pick(
                    old(self).settings().language,
                    "Configurazione non valida"@,
                    "Invalid configuration"@,
                ) + ": "@ + config_error_text(error),
            },
            !changed ==> final(self).status_text() == old(self).status_text(),
            intents@.len() == (if changed && validation(old(self).settings()) is Ok { 1int } else { 0int }) + (if (
            old(self).capture() is Some) != capture_was_active {
                1int
            } else {
                0int
            }),
            (old(self).capture() is Some) != capture_was_active ==> intents@.last() == UiIntent::SetShortcutCaptureActive(
                old(self).capture() is Some,
            ),
    {
        proof {
            use_type_invariant(&*self);
        }
        let mut intents: Vec<UiIntent> = Vec::new();
        if changed {
            match self.config.validate() {
                Ok(()) => {
                    intents.push(UiIntent::Save(self.config.copy()));
                },
                Err(error) => {
                    let mut status = text(
                        self.config.language,
                        "Configurazione non valida",
                        "Invalid configuration",
                    ).to_owned();
                    status.append(": ");
                    let message = error.message();
                    status.append(message.as_str());
                    self.status = status;
                },
            }
        }
        let active = self.shortcut_capture.is_some();
        if active != capture_was_active {
            intents.push(UiIntent::SetShortcutCaptureActive(active));
        }
        intents
    }
}

} // verus!
