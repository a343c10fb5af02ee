//! Editing shortcuts in the settings window: which action a new shortcut
//! starts with, what a captured key press binds, and when a capture is
//! refused because its combination is already taken.

use vstd::prelude::*;

use crate::action::Action;
use crate::config::{first_hotkey_fault, hotkey_fault, same_combination, validation, ConfigView, HotkeyBinding, MOD_WIN};
use crate::keys::{modifier_bits, modifier_mask, KeyModifiers};

verus! {

/// The actions, in the order the settings window lists them.
pub open spec fn all_actions() -> Seq<Action> {
    seq![
        Action::LeftHalf,
        Action::RightHalf,
        Action::TopHalf,
        Action::BottomHalf,
        Action::TopLeft,
        Action::TopRight,
        Action::BottomLeft,
        Action::BottomRight,
        Action::FirstThird,
        Action::CenterThird,
        Action::LastThird,
        Action::FirstTwoThirds,
        Action::CenterTwoThirds,
        Action::LastTwoThirds,
        Action::CenterHalf,
        Action::Center,
        Action::AlmostMaximize,
        Action::MaximizeHeight,
        Action::Grow,
        Action::Shrink,
        Action::MoveLeft,
        Action::MoveRight,
        Action::MoveUp,
        Action::MoveDown,
        Action::Maximize,
        Action::Restore,
        Action::Undo,
        Action::NextMonitor,
        Action::PreviousMonitor,
        Action::ShowShortcuts,
    ]
}

/// Whether some shortcut runs `action`.
pub open spec fn is_bound(hotkeys: Seq<HotkeyBinding>, action: Action) -> bool {
    exists|i: int| 0 <= i < hotkeys.len() && (#[trigger] hotkeys[i]).action == action
}

/// Among the first `n` actions, the first that no shortcut runs.
pub open spec fn first_unbound(hotkeys: Seq<HotkeyBinding>, n: nat) -> Option<Action>
    decreases n,
{
    if n == 0 {
        None
    } else {
        match first_unbound(hotkeys, (n - 1) as nat) {
            Some(action) => Some(action),
            None => if !is_bound(hotkeys, all_actions()[n - 1]) {
                Some(all_actions()[n - 1])
            } else {
                None
            },
        }
    }
}

proof fn lemma_first_unbound_stays(hotkeys: Seq<HotkeyBinding>, n: nat, m: nat)
    requires
        n <= m,
        first_unbound(hotkeys, n) is Some,
    ensures
        first_unbound(hotkeys, m) == first_unbound(hotkeys, n),
    decreases m - n,
{
    if n < m {
        lemma_first_unbound_stays(hotkeys, n, (m - 1) as nat);
    }
}

fn bound(hotkeys: &[HotkeyBinding], action: Action) -> (found: bool)
    ensures
        found == is_bound(hotkeys@, action),
{
    let mut i: usize = 0;
    while i < hotkeys.len()
        invariant
            i <= hotkeys@.len(),
            forall|k: int| 0 <= k < i ==> (#[trigger] hotkeys@[k]).action != action,
        decreases hotkeys@.len() - i,
    {
        if hotkeys[i].action == action {
            return true;
        }
        i = i + 1;
    }
    false
}

fn action_list() -> (actions: Vec<Action>)
    ensures
        actions@ == all_actions(),
{
    let actions = vec![
        Action::LeftHalf,
        Action::RightHalf,
        Action::TopHalf,
        Action::BottomHalf,
        Action::TopLeft,
        Action::TopRight,
        Action::BottomLeft,
        Action::BottomRight,
        Action::FirstThird,
        Action::CenterThird,
        Action::LastThird,
        Action::FirstTwoThirds,
        Action::CenterTwoThirds,
        Action::LastTwoThirds,
        Action::CenterHalf,
        Action::Center,
        Action::AlmostMaximize,
        Action::MaximizeHeight,
        Action::Grow,
        Action::Shrink,
        Action::MoveLeft,
        Action::MoveRight,
        Action::MoveUp,
        Action::MoveDown,
        Action::Maximize,
        Action::Restore,
        Action::Undo,
        Action::NextMonitor,
        Action::PreviousMonitor,
        Action::ShowShortcuts,
    ];
    assert(actions@ =~= all_actions());
    actions
}

/// The action a new shortcut starts with: the first that no shortcut runs yet,
/// or the left half when every action has one.
pub fn next_unbound_action(hotkeys: &[HotkeyBinding]) -> (action: Action)
    ensures
        action == match first_unbound(hotkeys@, all_actions().len()) {
            Some(unbound) => unbound,
            None => Action::LeftHalf,
        },
{
    let actions = action_list();
    let mut i: usize = 0;
    while i < actions.len()
        invariant
            actions@ == all_actions(),
            i <= actions@.len(),
            first_unbound(hotkeys@, i as nat) is None,
        decreases actions@.len() - i,
    {
        if !bound(hotkeys, actions[i]) {
            proof {
                lemma_first_unbound_stays(hotkeys@, (i + 1) as nat, all_actions().len());
            }
            return actions[i];
        }
        i = i + 1;
    }
    Action::LeftHalf
}

/// What a capture in progress will set: the shortcut at an index, or a new
/// shortcut for an action.
#[derive(Clone, Copy, Debug, PartialEq, Eq, Structural)]
pub enum ShortcutCapture {
    Existing(usize),
    New(Action),
}

/// The modifier bits a capture records: the held modifiers, and the Windows
/// key when either of them is down.
pub open spec fn captured_modifiers(modifiers: KeyModifiers, windows_key_down: bool) -> u32 {
    if windows_key_down {
        modifier_mask(modifiers) | MOD_WIN
    } else {
        modifier_mask(modifiers)
    }
}

/// The shortcut a key press makes for the capture target.
pub fn captured_binding(
    target: ShortcutCapture,
    hotkeys: &[HotkeyBinding],
    virtual_key: u32,
    modifiers: KeyModifiers,
    windows_key_down: bool,
) -> (binding: HotkeyBinding)
    requires
        target matches ShortcutCapture::Existing(index) ==> index < hotkeys@.len(),
    ensures
        binding.action == match target {
            ShortcutCapture::Existing(index) => hotkeys@[index as int].action,
            ShortcutCapture::New(action) => action,
        },
        binding.modifiers == captured_modifiers(modifiers, windows_key_down),
        binding.virtual_key == virtual_key,
{
    let mut bits = modifier_bits(modifiers);
    if windows_key_down {
        bits = bits | MOD_WIN;
    }
    let action = match target {
        ShortcutCapture::Existing(index) => hotkeys[index].action,
        ShortcutCapture::New(action) => action,
    };
    HotkeyBinding { action, modifiers: bits, virtual_key }
}

/// The index a capture replaces, if it replaces one.
pub open spec fn replaced_index(target: ShortcutCapture) -> Option<int> {
    match target {
        ShortcutCapture::Existing(index) => Some(index as int),
        ShortcutCapture::New(_) => None,
    }
}

/// Whether a shortcut other than the one being replaced already uses the
/// combination.
pub open spec fn taken_elsewhere(hotkeys: Seq<HotkeyBinding>, target: ShortcutCapture, binding: HotkeyBinding) -> bool {
    exists|i: int|
        0 <= i < hotkeys.len() && Some(i) != replaced_index(target) && same_combination(#[trigger] hotkeys[i], binding)
}

/// The shortcuts once a capture is accepted.
pub open spec fn assigned(hotkeys: Seq<HotkeyBinding>, target: ShortcutCapture, binding: HotkeyBinding) -> Seq<
    HotkeyBinding,
> {
    match target {
        ShortcutCapture::Existing(index) => hotkeys.update(index as int, binding),
        ShortcutCapture::New(_) => hotkeys.push(binding),
    }
}

/// Sets a captured shortcut, unless another shortcut already uses its
/// combination; then nothing changes and `false` is returned.
pub fn assign_capture(hotkeys: &mut Vec<HotkeyBinding>, target: ShortcutCapture, binding: HotkeyBinding) -> (accepted:
    bool)
    requires
        target matches ShortcutCapture::Existing(index) ==> index < old(hotkeys)@.len(),
    ensures
        accepted == !taken_elsewhere(old(hotkeys)@, target, binding),
        accepted ==> final(hotkeys)@ == assigned(old(hotkeys)@, target, binding),
        !accepted ==> final(hotkeys)@ == old(hotkeys)@,
{
    let mut i: usize = 0;
    while i < hotkeys.len()
        invariant
            i <= hotkeys@.len(),
            hotkeys@ == old(hotkeys)@,
            forall|k: int|
                0 <= k < i && Some(k) != replaced_index(target) ==> !same_combination(#[trigger] hotkeys@[k], binding),
        decreases hotkeys@.len() - i,
    {
        let replaced = match target {
            ShortcutCapture::Existing(index) => index == i,
            ShortcutCapture::New(_) => false,
        };
        if !replaced && hotkeys[i].modifiers == binding.modifiers && hotkeys[i].virtual_key == binding.virtual_key {
            assert(same_combination(hotkeys@[i as int], binding));
            return false;
        }
        i = i + 1;
    }
    match target {
        ShortcutCapture::Existing(index) => {
            hotkeys.set(index, binding);
        },
        ShortcutCapture::New(_) => {
            hotkeys.push(binding);
        },
    }
    true
}

/// No two shortcuts share a combination.
pub open spec fn combinations_distinct(hotkeys: Seq<HotkeyBinding>) -> bool {
    forall|i: int, j: int|
        0 <= i < j < hotkeys.len() ==> !same_combination(#[trigger] hotkeys[i], #[trigger] hotkeys[j])
}

/// A capture the editor accepts never makes two shortcuts share a
/// combination: the editor rejects duplicates before they can be saved.
pub proof fn lemma_accepted_capture_keeps_combinations_distinct(
    hotkeys: Seq<HotkeyBinding>,
    target: ShortcutCapture,
    binding: HotkeyBinding,
)
    requires
        combinations_distinct(hotkeys),
        !taken_elsewhere(hotkeys, target, binding),
        target matches ShortcutCapture::Existing(index) ==> index < hotkeys.len(),
    ensures
        combinations_distinct(assigned(hotkeys, target, binding)),
{
    let after = assigned(hotkeys, target, binding);
    assert forall|i: int, j: int| 0 <= i < j < after.len() implies !same_combination(
        #[trigger] after[i],
        #[trigger] after[j],
    ) by {
        match target {
            ShortcutCapture::Existing(index) => {
                if i == index {
                    assert(after[j] == hotkeys[j]);
                    assert(!same_combination(hotkeys[j], binding));
                } else if j == index {
                    assert(after[i] == hotkeys[i]);
                    assert(!same_combination(hotkeys[i], binding));
                } else {
                    assert(after[i] == hotkeys[i] && after[j] == hotkeys[j]);
                }
            },
            ShortcutCapture::New(_) => {
                if j == hotkeys.len() {
                    assert(after[i] == hotkeys[i]);
                    assert(!same_combination(hotkeys[i], binding));
                } else {
                    assert(after[i] == hotkeys[i] && after[j] == hotkeys[j]);
                }
            },
        }
    }
}

proof fn lemma_no_fault_among_first(hotkeys: Seq<HotkeyBinding>, n: nat)
    requires
        n <= hotkeys.len(),
        first_hotkey_fault(hotkeys, n) is None,
    ensures
        forall|i: int| 0 <= i < n ==> #[trigger] hotkey_fault(hotkeys, i) is None,
    decreases n,
{
    if n > 0 {
        lemma_no_fault_among_first(hotkeys, (n - 1) as nat);
    }
}

/// A configuration that passes validation binds every shortcut to a key, and
/// no two of its shortcuts share a combination.
pub proof fn lemma_valid_shortcuts_are_distinct(config: ConfigView)
    requires
        validation(config) is Ok,
    ensures
        combinations_distinct(config.hotkeys),
        forall|i: int| 0 <= i < config.hotkeys.len() ==> (#[trigger] config.hotkeys[i]).virtual_key != 0,
{
    let hotkeys = config.hotkeys;
    lemma_no_fault_among_first(hotkeys, hotkeys.len());
    assert forall|i: int, j: int| 0 <= i < j < hotkeys.len() implies !same_combination(
        #[trigger] hotkeys[i],
        #[trigger] hotkeys[j],
    ) by {
        assert(hotkey_fault(hotkeys, j) is None);
        if same_combination(hotkeys[i], hotkeys[j]) {
            assert(exists|k: int| 0 <= k < j && same_combination(#[trigger] hotkeys[k], hotkeys[j]));
        }
    }
    assert forall|i: int| 0 <= i < hotkeys.len() implies (#[trigger] hotkeys[i]).virtual_key != 0 by {
        assert(hotkey_fault(hotkeys, i) is None);
    }
}

} // verus!
