//! Keeping the global shortcuts registered: which identifiers they get, which
//! registrations a new configuration releases, keeps and asks for.

use std::collections::HashSet;

use vstd::prelude::*;

use crate::config::HotkeyBinding;

verus! {

broadcast use vstd::std_specs::hash::group_hash_axioms;

/// The highest identifier an application may register a global shortcut under.
pub const MAX_APPLICATION_HOTKEY_ID: i32 = 0xBFFF;

/// What the system registers a global shortcut by.
#[derive(Clone, Copy, Debug, PartialEq, Eq, Hash, Structural)]
pub struct HotkeyCombination {
    pub modifiers: u32,
    pub virtual_key: u32,
}

pub open spec fn combination_of(binding: HotkeyBinding) -> HotkeyCombination {
    HotkeyCombination { modifiers: binding.modifiers, virtual_key: binding.virtual_key }
}

impl HotkeyCombination {
    pub fn from_binding(binding: &HotkeyBinding) -> (combination: Self)
        ensures
            combination == combination_of(*binding),
    {
        HotkeyCombination { modifiers: binding.modifiers, virtual_key: binding.virtual_key }
    }
}

/// The identifier the next allocation hands out, at `next` or after it, and
/// where the search stops: the first one not in `used`, or none once the
/// application range is spent.
pub open spec fn allocation(used: Set<i32>, next: int) -> (Option<i32>, int)
    decreases MAX_APPLICATION_HOTKEY_ID + 1 - next,
{
    if next > MAX_APPLICATION_HOTKEY_ID {
        (None, next)
    } else if !used.contains(next as i32) {
        (Some(next as i32), next + 1)
    } else {
        allocation(used, next + 1)
    }
}

pub open spec fn with_allocated(used: Set<i32>, id: Option<i32>) -> Set<i32> {
    match id {
        Some(i) => used.insert(i),
        None => used,
    }
}

/// An identifier handed out is one not in use, in the application range, at
/// or after where the search started.
pub proof fn lemma_allocation_is_fresh(used: Set<i32>, next: int)
    requires
        1 <= next,
    ensures
        allocation(used, next).0 matches Some(i) ==> !used.contains(i) && next <= i <= MAX_APPLICATION_HOTKEY_ID,
        allocation(used, next).1 >= next,
    decreases MAX_APPLICATION_HOTKEY_ID + 1 - next,
{
    if next <= MAX_APPLICATION_HOTKEY_ID && used.contains(next as i32) {
        lemma_allocation_is_fresh(used, next + 1);
    }
}

/// Hands out the first identifier from `next_id` on that is not in use, and
/// records it as used.
pub fn allocate_hotkey_id(used_ids: &mut HashSet<i32>, next_id: &mut i32) -> (id: Option<i32>)
    ensures
        (id, *final(next_id) as int) == allocation(old(used_ids)@, *old(next_id) as int),
        final(used_ids)@ == with_allocated(old(used_ids)@, id),
{
    while *next_id <= MAX_APPLICATION_HOTKEY_ID
        invariant
            used_ids@ == old(used_ids)@,
            allocation(old(used_ids)@, *old(next_id) as int) == allocation(used_ids@, *next_id as int),
        decreases MAX_APPLICATION_HOTKEY_ID + 1 - *next_id,
    {
        let id = *next_id;
        *next_id = *next_id + 1;
        if used_ids.insert(id) {
            return Some(id);
        }
    }
    None
}

/// A shortcut as the runtime keeps it: the identifier it was given, the
/// combination, whether the system holds it, and the binding it runs.
#[derive(Clone, Copy, Debug, PartialEq, Eq, Structural)]
pub struct RegisteredHotkey {
    pub id: Option<i32>,
    pub combination: HotkeyCombination,
    pub registered: bool,
    pub binding: HotkeyBinding,
}

/// A registration the runtime has to attempt for the entry at `index`, and
/// whether a refusal is reported as a conflict.
#[derive(Clone, Copy, Debug, PartialEq, Eq, Structural)]
pub struct Registration {
    pub index: usize,
    pub report_conflict: bool,
}

/// What a new list of shortcuts asks of the runtime: the identifiers to
/// release, the entries to keep, and the registrations to attempt, in order.
#[derive(Clone, Debug)]
pub struct HotkeyPlan {
    pub release: Vec<i32>,
    pub hotkeys: Vec<RegisteredHotkey>,
    pub register: Vec<Registration>,
}

/// Whether some binding of `config` uses the combination.
pub open spec fn desired(config: Seq<HotkeyBinding>, combination: HotkeyCombination) -> bool {
    exists|i: int| 0 <= i < config.len() && combination_of(#[trigger] config[i]) == combination
}

/// The identifiers of the held registrations whose combination is no longer wanted.
pub open spec fn released(old: Seq<RegisteredHotkey>, config: Seq<HotkeyBinding>) -> Seq<i32>
    decreases old.len(),
{
    if old.len() == 0 {
        Seq::empty()
    } else {
        let rest = released(old.drop_last(), config);
        let last = old.last();
        if last.registered && !desired(config, last.combination) && last.id is Some {
            rest.push(last.id->0)
        } else {
            rest
        }
    }
}

/// The entries whose combination is still wanted, in their order.
pub open spec fn retained(old: Seq<RegisteredHotkey>, config: Seq<HotkeyBinding>) -> Seq<RegisteredHotkey>
    decreases old.len(),
{
    if old.len() == 0 {
        Seq::empty()
    } else {
        let rest = retained(old.drop_last(), config);
        if desired(config, old.last().combination) {
            rest.push(old.last())
        } else {
            rest
        }
    }
}

/// The identifiers the entries hold.
pub open spec fn ids_of(hotkeys: Seq<RegisteredHotkey>) -> Set<i32> {
    Set::new(|id: i32| exists|k: int| 0 <= k < hotkeys.len() && #[trigger] hotkeys[k].id == Some(id))
}

/// The index of the first entry with the combination.
pub open spec fn entry_for(hotkeys: Seq<RegisteredHotkey>, combination: HotkeyCombination, n: nat) -> Option<int>
    decreases n,
{
    if n == 0 {
        None
    } else {
        match entry_for(hotkeys, combination, (n - 1) as nat) {
            Some(k) => Some(k),
            None => if hotkeys[n - 1].combination == combination {
                Some(n - 1)
            } else {
                None
            },
        }
    }
}

/// The entries, the identifiers in use, where the next search starts and the
/// registrations asked for so far.
pub type PlanState = (Seq<RegisteredHotkey>, Set<i32>, int, Seq<Registration>);

/// What one binding of the new list does to the plan: an entry with its
/// combination is kept, takes the binding and, when the system does not hold
/// it, gets an identifier if it has none and a registration without a conflict
/// report; a new combination gets a new entry, an identifier and a
/// registration whose refusal is reported.
pub open spec fn plan_step(state: PlanState, binding: HotkeyBinding, enabled: bool) -> PlanState {
    let (hotkeys, used, next, register) = state;
    let combination = combination_of(binding);
    match entry_for(hotkeys, combination, hotkeys.len()) {
        Some(k) => {
            let entry = hotkeys[k];
            if entry.registered {
                (hotkeys.update(k, RegisteredHotkey { binding, ..entry }), used, next, register)
            } else {
                let (id, used2, next2) = if entry.id is None {
                    let (fresh, after) = allocation(used, next);
                    (fresh, with_allocated(used, fresh), after)
                } else {
                    (entry.id, used, next)
                };
                (
                    hotkeys.update(k, RegisteredHotkey { id, binding, ..entry }),
                    used2,
                    next2,
                    if enabled {
                        register.push(Registration { index: k as usize, report_conflict: false })
                    } else {
                        register
                    },
                )
            }
        },
        None => {
            let (fresh, after) = allocation(used, next);
            (
                hotkeys.push(RegisteredHotkey { id: fresh, combination, registered: false, binding }),
                with_allocated(used, fresh),
                after,
                if enabled {
                    register.push(Registration { index: hotkeys.len() as usize, report_conflict: true })
                } else {
                    register
                },
            )
        },
    }
}

pub open spec fn plan_steps(state: PlanState, config: Seq<HotkeyBinding>, n: nat, enabled: bool) -> PlanState
    decreases n,
{
    if n == 0 {
        state
    } else {
        plan_step(plan_steps(state, config, (n - 1) as nat, enabled), config[n - 1], enabled)
    }
}

/// The whole plan for a new list of shortcuts.
pub open spec fn hotkey_plan(old: Seq<RegisteredHotkey>, config: Seq<HotkeyBinding>, enabled: bool) -> (
    Seq<i32>,
    Seq<RegisteredHotkey>,
    Seq<Registration>,
) {
    let kept = retained(old, config);
    let last = plan_steps((kept, ids_of(kept), 1, Seq::empty()), config, config.len(), enabled);
    (released(old, config), last.0, last.3)
}

/// No two entries hold the same identifier.
pub open spec fn distinct_ids(hotkeys: Seq<RegisteredHotkey>) -> bool {
    forall|a: int, b: int|
        0 <= a < b < hotkeys.len() && (#[trigger] hotkeys[a]).id is Some ==> hotkeys[a].id != (#[trigger] hotkeys[b]).id
}

proof fn lemma_retained_ids(old: Seq<RegisteredHotkey>, config: Seq<HotkeyBinding>)
    requires
        distinct_ids(old),
    ensures
        distinct_ids(retained(old, config)),
        ids_of(retained(old, config)).subset_of(ids_of(old)),
    decreases old.len(),
{
    if old.len() > 0 {
        let rest = old.drop_last();
        assert(distinct_ids(rest)) by {
            assert forall|a: int, b: int| 0 <= a < b < rest.len() && (#[trigger] rest[a]).id is Some implies rest[a].id
                != (#[trigger] rest[b]).id by {
                assert(rest[a] == old[a] && rest[b] == old[b]);
            }
        }
        lemma_retained_ids(rest, config);
        let kept = retained(rest, config);
        assert forall|x: i32| ids_of(rest).contains(x) implies ids_of(old).contains(x) by {
            let k = choose|k: int| 0 <= k < rest.len() && #[trigger] rest[k].id == Some(x);
            assert(old[k].id == Some(x));
        }
        if desired(config, old.last().combination) {
            let now = kept.push(old.last());
            assert(retained(old, config) == now);
            assert forall|a: int, b: int| 0 <= a < b < now.len() && (#[trigger] now[a]).id is Some implies now[a].id
                != (#[trigger] now[b]).id by {
                if b == kept.len() {
                    let x = now[a].id->0;
                    assert(ids_of(kept).contains(x)) by {
                        assert(kept[a].id == Some(x));
                    }
                    let k = choose|k: int| 0 <= k < rest.len() && #[trigger] rest[k].id == Some(x);
                    assert(old[k].id == Some(x));
                    assert(old[old.len() - 1] == old.last());
                }
            }
            assert forall|x: i32| ids_of(now).contains(x) implies ids_of(old).contains(x) by {
                let k = choose|k: int| 0 <= k < now.len() && #[trigger] now[k].id == Some(x);
                if k < kept.len() {
                    assert(kept[k].id == Some(x));
                } else {
                    assert(old[old.len() - 1].id == Some(x));
                }
            }
        }
    }
}

/// The state a plan keeps as it goes: the entries hold distinct identifiers,
/// all of them recorded as used.
pub open spec fn plan_invariant(state: PlanState) -> bool {
    &&& distinct_ids(state.0)
    &&& ids_of(state.0).subset_of(state.1)
    &&& state.2 >= 1
}

proof fn lemma_plan_step_keeps_invariant(state: PlanState, binding: HotkeyBinding, enabled: bool)
    requires
        plan_invariant(state),
    ensures
        plan_invariant(plan_step(state, binding, enabled)),
{
    let (hotkeys, used, next, register) = state;
    let combination = combination_of(binding);
    lemma_allocation_is_fresh(used, next);
    lemma_entry_for_bound(hotkeys, combination, hotkeys.len());
    let after = plan_step(state, binding, enabled).0;
    let used_after = plan_step(state, binding, enabled).1;
    match entry_for(hotkeys, combination, hotkeys.len()) {
        Some(k) => {
            let fresh = allocation(used, next).0;
            assert forall|a: int, b: int| 0 <= a < b < after.len() && (#[trigger] after[a]).id is Some implies after[a].id
                != (#[trigger] after[b]).id by {
                if a != k && b != k {
                    assert(after[a] == hotkeys[a] && after[b] == hotkeys[b]);
                } else if a == k {
                    assert(after[b] == hotkeys[b]);
                    if hotkeys[k].id is None && !hotkeys[k].registered {
                        if hotkeys[b].id == after[a].id {
                            assert(ids_of(hotkeys).contains(hotkeys[b].id->0));
                        }
                    }
                } else {
                    assert(after[a] == hotkeys[a]);
                    if hotkeys[k].id is None && !hotkeys[k].registered {
                        if hotkeys[a].id == after[b].id {
                            assert(ids_of(hotkeys).contains(hotkeys[a].id->0));
                        }
                    }
                }
            }
            assert forall|x: i32| ids_of(after).contains(x) implies used_after.contains(x) by {
                let m = choose|m: int| 0 <= m < after.len() && #[trigger] after[m].id == Some(x);
                if m != k {
                    assert(hotkeys[m].id == Some(x));
                    assert(ids_of(hotkeys).contains(x));
                } else if hotkeys[k].id is Some || hotkeys[k].registered {
                    assert(ids_of(hotkeys).contains(x));
                }
            }
        },
        None => {
            assert forall|a: int, b: int| 0 <= a < b < after.len() && (#[trigger] after[a]).id is Some implies after[a].id
                != (#[trigger] after[b]).id by {
                if b < hotkeys.len() {
                    assert(after[a] == hotkeys[a] && after[b] == hotkeys[b]);
                } else {
                    assert(after[a] == hotkeys[a]);
                    assert(ids_of(hotkeys).contains(hotkeys[a].id->0));
                }
            }
            assert forall|x: i32| ids_of(after).contains(x) implies used_after.contains(x) by {
                let m = choose|m: int| 0 <= m < after.len() && #[trigger] after[m].id == Some(x);
                if m < hotkeys.len() {
                    assert(hotkeys[m].id == Some(x));
                    assert(ids_of(hotkeys).contains(x));
                }
            }
        },
    }
}

proof fn lemma_plan_steps_keep_invariant(state: PlanState, config: Seq<HotkeyBinding>, n: nat, enabled: bool)
    requires
        plan_invariant(state),
        n <= config.len(),
    ensures
        plan_invariant(plan_steps(state, config, n, enabled)),
    decreases n,
{
    if n > 0 {
        lemma_plan_steps_keep_invariant(state, config, (n - 1) as nat, enabled);
        lemma_plan_step_keeps_invariant(plan_steps(state, config, (n - 1) as nat, enabled), config[n - 1], enabled);
    }
}

/// When the shortcuts the runtime holds have distinct identifiers, so do the
/// ones a new list of shortcuts leaves it with: an identifier is never handed
/// to two shortcuts at once.
pub proof fn lemma_plan_keeps_ids_distinct(old: Seq<RegisteredHotkey>, config: Seq<HotkeyBinding>, enabled: bool)
    requires
        distinct_ids(old),
    ensures
        distinct_ids(hotkey_plan(old, config, enabled).1),
{
    lemma_retained_ids(old, config);
    let kept = retained(old, config);
    lemma_plan_steps_keep_invariant((kept, ids_of(kept), 1, Seq::empty()), config, config.len(), enabled);
}

/// No two entries share a combination.
pub open spec fn distinct_combinations(hotkeys: Seq<RegisteredHotkey>) -> bool {
    forall|a: int, b: int|
        0 <= a < b < hotkeys.len() ==> (#[trigger] hotkeys[a]).combination != (#[trigger] hotkeys[b]).combination
}

/// Every entry's combination is wanted by some binding of `config`.
pub open spec fn all_wanted(hotkeys: Seq<RegisteredHotkey>, config: Seq<HotkeyBinding>) -> bool {
    forall|k: int| 0 <= k < hotkeys.len() ==> desired(config, (#[trigger] hotkeys[k]).combination)
}

/// Some entry holds the combination.
pub open spec fn has_entry(hotkeys: Seq<RegisteredHotkey>, combination: HotkeyCombination) -> bool {
    exists|k: int| 0 <= k < hotkeys.len() && (#[trigger] hotkeys[k]).combination == combination
}

proof fn lemma_retained_combinations(old: Seq<RegisteredHotkey>, config: Seq<HotkeyBinding>)
    requires
        distinct_combinations(old),
    ensures
        distinct_combinations(retained(old, config)),
        all_wanted(retained(old, config), config),
        forall|c: HotkeyCombination| has_entry(retained(old, config), c) ==> has_entry(old, c),
    decreases old.len(),
{
    if old.len() > 0 {
        let rest = old.drop_last();
        assert(distinct_combinations(rest)) by {
            assert forall|a: int, b: int| 0 <= a < b < rest.len() implies (#[trigger] rest[a]).combination
                != (#[trigger] rest[b]).combination by {
                assert(rest[a] == old[a] && rest[b] == old[b]);
            }
        }
        lemma_retained_combinations(rest, config);
        let kept = retained(rest, config);
        assert forall|c: HotkeyCombination| has_entry(rest, c) implies has_entry(old, c) by {
            let k = choose|k: int| 0 <= k < rest.len() && (#[trigger] rest[k]).combination == c;
            assert(old[k] == rest[k]);
        }
        if desired(config, old.last().combination) {
            let now = kept.push(old.last());
            assert(retained(old, config) == now);
            assert(!has_entry(rest, old.last().combination)) by {
                if has_entry(rest, old.last().combination) {
                    let k = choose|k: int| 0 <= k < rest.len() && (#[trigger] rest[k]).combination == old.last().combination;
                    assert(old[k] == rest[k]);
                    assert(old[old.len() - 1] == old.last());
                }
            }
            assert forall|a: int, b: int| 0 <= a < b < now.len() implies (#[trigger] now[a]).combination
                != (#[trigger] now[b]).combination by {
                if b == kept.len() {
                    assert(now[a] == kept[a]);
                    assert(has_entry(kept, kept[a].combination));
                }
            }
            assert forall|c: HotkeyCombination| has_entry(now, c) implies has_entry(old, c) by {
                let k = choose|k: int| 0 <= k < now.len() && (#[trigger] now[k]).combination == c;
                if k < kept.len() {
                    assert(now[k] == kept[k]);
                    assert(has_entry(kept, c));
                } else {
                    assert(old[old.len() - 1].combination == c);
                }
            }
            assert forall|k: int| 0 <= k < now.len() implies desired(config, (#[trigger] now[k]).combination) by {
                if k < kept.len() {
                    assert(now[k] == kept[k]);
                }
            }
        }
    }
}

/// What a plan keeps as it goes: one entry per combination, each wanted, and
/// an entry for each binding handled so far.
pub open spec fn covers(state: PlanState, config: Seq<HotkeyBinding>, n: nat) -> bool {
    &&& distinct_combinations(state.0)
    &&& all_wanted(state.0, config)
    &&& forall|i: int| 0 <= i < n ==> has_entry(state.0, combination_of(#[trigger] config[i]))
}

proof fn lemma_plan_step_covers(state: PlanState, config: Seq<HotkeyBinding>, n: nat, enabled: bool)
    requires
        n < config.len(),
        covers(state, config, n),
    ensures
        covers(plan_step(state, config[n as int], enabled), config, (n + 1) as nat),
{
    let hotkeys = state.0;
    let binding = config[n as int];
    let combination = combination_of(binding);
    lemma_entry_for_bound(hotkeys, combination, hotkeys.len());
    let after = plan_step(state, binding, enabled).0;
    assert(desired(config, combination)) by {
        assert(combination_of(config[n as int]) == combination);
    }
    match entry_for(hotkeys, combination, hotkeys.len()) {
        Some(k) => {
            assert(after.len() == hotkeys.len());
            assert forall|j: int| 0 <= j < after.len() implies #[trigger] after[j].combination == hotkeys[j].combination by {}
            assert forall|a: int, b: int| 0 <= a < b < after.len() implies (#[trigger] after[a]).combination
                != (#[trigger] after[b]).combination by {
                assert(after[a].combination == hotkeys[a].combination);
                assert(after[b].combination == hotkeys[b].combination);
            }
            assert forall|j: int| 0 <= j < after.len() implies desired(config, (#[trigger] after[j]).combination) by {
                assert(after[j].combination == hotkeys[j].combination);
            }
            assert forall|i: int| 0 <= i <= n implies has_entry(after, combination_of(#[trigger] config[i])) by {
                if i < n {
                    let c = combination_of(config[i]);
                    let m = choose|m: int| 0 <= m < hotkeys.len() && (#[trigger] hotkeys[m]).combination == c;
                    assert(after[m].combination == c);
                } else {
                    assert(after[k].combination == combination);
                }
            }
        },
        None => {
            assert(!has_entry(hotkeys, combination)) by {
                if has_entry(hotkeys, combination) {
                    let m = choose|m: int| 0 <= m < hotkeys.len() && (#[trigger] hotkeys[m]).combination == combination;
                    lemma_entry_for_finds(hotkeys, combination, hotkeys.len(), m);
                }
            }
            assert forall|a: int, b: int| 0 <= a < b < after.len() implies (#[trigger] after[a]).combination
                != (#[trigger] after[b]).combination by {
                if b == hotkeys.len() {
                    assert(after[a] == hotkeys[a]);
                } else {
                    assert(after[a] == hotkeys[a] && after[b] == hotkeys[b]);
                }
            }
            assert forall|j: int| 0 <= j < after.len() implies desired(config, (#[trigger] after[j]).combination) by {
                if j < hotkeys.len() {
                    assert(after[j] == hotkeys[j]);
                }
            }
            assert forall|i: int| 0 <= i <= n implies has_entry(after, combination_of(#[trigger] config[i])) by {
                if i < n {
                    let c = combination_of(config[i]);
                    let m = choose|m: int| 0 <= m < hotkeys.len() && (#[trigger] hotkeys[m]).combination == c;
                    assert(after[m] == hotkeys[m]);
                } else {
                    assert(after[hotkeys.len() as int].combination == combination);
                }
            }
        },
    }
}

/// An entry with the combination among the first `n` is found by the lookup.
proof fn lemma_entry_for_finds(hotkeys: Seq<RegisteredHotkey>, combination: HotkeyCombination, n: nat, m: int)
    requires
        0 <= m < n <= hotkeys.len(),
        hotkeys[m].combination == combination,
    ensures
        entry_for(hotkeys, combination, n) is Some,
    decreases n,
{
    if m < n - 1 {
        lemma_entry_for_finds(hotkeys, combination, (n - 1) as nat, m);
    }
}

proof fn lemma_plan_steps_cover(state: PlanState, config: Seq<HotkeyBinding>, n: nat, enabled: bool)
    requires
        n <= config.len(),
        covers(state, config, 0),
    ensures
        covers(plan_steps(state, config, n, enabled), config, n),
    decreases n,
{
    if n > 0 {
        lemma_plan_steps_cover(state, config, (n - 1) as nat, enabled);
        lemma_plan_step_covers(plan_steps(state, config, (n - 1) as nat, enabled), config, (n - 1) as nat, enabled);
    }
}

/// After a new list of shortcuts, the runtime keeps exactly one entry per
/// combination the list uses: no entry for a combination it dropped, none
/// twice, and one for each binding; provided it kept one entry per
/// combination before.
pub proof fn lemma_plan_keeps_one_entry_per_combination(
    old: Seq<RegisteredHotkey>,
    config: Seq<HotkeyBinding>,
    enabled: bool,
)
    requires
        distinct_combinations(old),
    ensures
        distinct_combinations(hotkey_plan(old, config, enabled).1),
        all_wanted(hotkey_plan(old, config, enabled).1, config),
        forall|i: int|
            0 <= i < config.len() ==> has_entry(hotkey_plan(old, config, enabled).1, combination_of(#[trigger] config[i])),
{
    lemma_retained_combinations(old, config);
    let kept = retained(old, config);
    lemma_plan_steps_cover((kept, ids_of(kept), 1, Seq::empty()), config, config.len(), enabled);
}

fn wanted(config: &[HotkeyBinding], combination: HotkeyCombination) -> (found: bool)
    ensures
        found == desired(config@, combination),
{
    let mut i: usize = 0;
    while i < config.len()
        invariant
            i <= config@.len(),
            forall|k: int| 0 <= k < i ==> combination_of(#[trigger] config@[k]) != combination,
        decreases config@.len() - i,
    {
        if config[i].modifiers == combination.modifiers && config[i].virtual_key == combination.virtual_key {
            assert(combination_of(config@[i as int]) == combination);
            return true;
        }
        i = i + 1;
    }
    false
}

proof fn lemma_entry_for_stays(hotkeys: Seq<RegisteredHotkey>, combination: HotkeyCombination, n: nat, m: nat)
    requires
        n <= m,
        entry_for(hotkeys, combination, n) is Some,
    ensures
        entry_for(hotkeys, combination, m) == entry_for(hotkeys, combination, n),
    decreases m - n,
{
    if n < m {
        lemma_entry_for_stays(hotkeys, combination, n, (m - 1) as nat);
    }
}

proof fn lemma_entry_for_bound(hotkeys: Seq<RegisteredHotkey>, combination: HotkeyCombination, n: nat)
    ensures
        entry_for(hotkeys, combination, n) matches Some(k) ==> 0 <= k < n && hotkeys[k].combination == combination,
    decreases n,
{
    if n > 0 {
        lemma_entry_for_bound(hotkeys, combination, (n - 1) as nat);
    }
}

/// Changing an entry's fields other than its combination leaves the lookup unchanged.
proof fn lemma_entry_for_update(
    hotkeys: Seq<RegisteredHotkey>,
    k: int,
    entry: RegisteredHotkey,
    combination: HotkeyCombination,
    n: nat,
)
    requires
        0 <= k < hotkeys.len(),
        n <= hotkeys.len(),
        entry.combination == hotkeys[k].combination,
    ensures
        entry_for(hotkeys.update(k, entry), combination, n) == entry_for(hotkeys, combination, n),
    decreases n,
{
    if n > 0 {
        lemma_entry_for_update(hotkeys, k, entry, combination, (n - 1) as nat);
    }
}

fn find_entry(hotkeys: &Vec<RegisteredHotkey>, combination: HotkeyCombination) -> (found: Option<usize>)
    ensures
        match found {
            Some(k) => entry_for(hotkeys@, combination, hotkeys@.len()) == Some(k as int),
            None => entry_for(hotkeys@, combination, hotkeys@.len()) is None,
        },
{
    let mut i: usize = 0;
    while i < hotkeys.len()
        invariant
            i <= hotkeys@.len(),
            entry_for(hotkeys@, combination, i as nat) is None,
        decreases hotkeys@.len() - i,
    {
        if hotkeys[i].combination == combination {
            proof {
                lemma_entry_for_stays(hotkeys@, combination, (i + 1) as nat, hotkeys@.len());
            }
            return Some(i);
        }
        i = i + 1;
    }
    None
}

/// Works out what a new list of shortcuts asks of the runtime, given the
/// entries it keeps now. With `registration_enabled` false (while shortcuts are
/// suspended) no registration is asked for.
pub fn plan_hotkeys(hotkeys: Vec<RegisteredHotkey>, config: &[HotkeyBinding], registration_enabled: bool) -> (plan:
    HotkeyPlan)
    requires
        hotkeys@.len() + config@.len() <= usize::MAX,
    ensures
        (plan.release@, plan.hotkeys@, plan.register@) == hotkey_plan(hotkeys@, config@, registration_enabled),
{
    let mut release: Vec<i32> = Vec::new();
    let mut kept: Vec<RegisteredHotkey> = Vec::new();
    let mut used_ids: HashSet<i32> = HashSet::new();
    let mut i: usize = 0;
    while i < hotkeys.len()
        invariant
            i <= hotkeys@.len(),
            release@ == released(hotkeys@.take(i as int), config@),
            kept@ == retained(hotkeys@.take(i as int), config@),
            used_ids@ == ids_of(kept@),
            kept@.len() <= i,
        decreases hotkeys@.len() - i,
    {
        let entry = hotkeys[i];
        let keep = wanted(config, entry.combination);
        proof {
            assert(hotkeys@.take(i + 1).drop_last() =~= hotkeys@.take(i as int));
        }
        if entry.registered && !keep {
            if let Some(id) = entry.id {
                release.push(id);
            }
        }
        if keep {
            let ghost before = kept@;
            kept.push(entry);
            if let Some(id) = entry.id {
                used_ids.insert(id);
                assert(used_ids@ =~= ids_of(kept@)) by {
                    assert forall|x: i32| ids_of(kept@).contains(x) implies used_ids@.contains(x) by {
                        let k = choose|k: int| 0 <= k < kept@.len() && #[trigger] kept@[k].id == Some(x);
                        if k < before.len() {
                            assert(before[k].id == Some(x));
                        }
                    }
                    assert forall|x: i32| used_ids@.contains(x) implies ids_of(kept@).contains(x) by {
                        if x != id {
                            let k = choose|k: int| 0 <= k < before.len() && #[trigger] before[k].id == Some(x);
                            assert(kept@[k].id == Some(x));
                        } else {
                            assert(kept@[before.len() as int].id == Some(x));
                        }
                    }
                }
            } else {
                assert(used_ids@ =~= ids_of(kept@)) by {
                    assert forall|x: i32| ids_of(kept@).contains(x) implies used_ids@.contains(x) by {
                        let k = choose|k: int| 0 <= k < kept@.len() && #[trigger] kept@[k].id == Some(x);
                        if k < before.len() {
                            assert(before[k].id == Some(x));
                        }
                    }
                    assert forall|x: i32| used_ids@.contains(x) implies ids_of(kept@).contains(x) by {
                        let k = choose|k: int| 0 <= k < before.len() && #[trigger] before[k].id == Some(x);
                        assert(kept@[k].id == Some(x));
                    }
                }
            }
        }
        i = i + 1;
    }
    assert(hotkeys@.take(i as int) =~= hotkeys@);
    let ghost kept_start = kept@;
    let mut next_id: i32 = 1;
    let mut register: Vec<Registration> = Vec::new();
    let mut j: usize = 0;
    while j < config.len()
        invariant
            j <= config@.len(),
            kept_start == retained(hotkeys@, config@),
            kept@.len() <= hotkeys@.len() + j,
            hotkeys@.len() + config@.len() <= usize::MAX,
            (kept@, used_ids@, next_id as int, register@) == plan_steps(
                (kept_start, ids_of(kept_start), 1, Seq::empty()),
                config@,
                j as nat,
                registration_enabled,
            ),
        decreases config@.len() - j,
    {
        let binding = config[j];
        let combination = HotkeyCombination::from_binding(&binding);
        let ghost before_kept = kept@;
        match find_entry(&kept, combination) {
            Some(k) => {
                proof {
                    lemma_entry_for_bound(kept@, combination, kept@.len());
                }
                let entry = kept[k];
                if entry.registered {
                    kept.set(k, RegisteredHotkey { binding, ..entry });
                } else {
                    let id = if entry.id.is_none() {
                        allocate_hotkey_id(&mut used_ids, &mut next_id)
                    } else {
                        entry.id
                    };
                    kept.set(k, RegisteredHotkey { id, binding, ..entry });
                    if registration_enabled {
                        register.push(Registration { index: k, report_conflict: false });
                    }
                }
            },
            None => {
                let id = allocate_hotkey_id(&mut used_ids, &mut next_id);
                let index = kept.len();
                kept.push(RegisteredHotkey { id, combination, registered: false, binding });
                if registration_enabled {
                    register.push(Registration { index, report_conflict: true });
                }
            },
        }
        j = j + 1;
    }
    HotkeyPlan { release, hotkeys: kept, register }
}

/// The first of the first `n` entries the system holds under `id`.
pub open spec fn held_under(hotkeys: Seq<RegisteredHotkey>, id: i32, n: nat) -> Option<int>
    decreases n,
{
    if n == 0 {
        None
    } else {
        match held_under(hotkeys, id, (n - 1) as nat) {
            Some(k) => Some(k),
            None => if hotkeys[n - 1].registered && hotkeys[n - 1].id == Some(id) {
                Some(n - 1)
            } else {
                None
            },
        }
    }
}

proof fn lemma_held_under_stays(hotkeys: Seq<RegisteredHotkey>, id: i32, n: nat, m: nat)
    requires
        n <= m,
        held_under(hotkeys, id, n) is Some,
    ensures
        held_under(hotkeys, id, m) == held_under(hotkeys, id, n),
    decreases m - n,
{
    if n < m {
        lemma_held_under_stays(hotkeys, id, n, (m - 1) as nat);
    }
}

/// The shortcut a press reported under `id` runs: the entry the system holds
/// under that identifier, unless the shortcuts are suspended.
pub fn pressed_hotkey(hotkeys: &[RegisteredHotkey], suspended: bool, id: i32) -> (pressed: Option<usize>)
    ensures
        suspended ==> pressed is None,
        !suspended ==> match held_under(hotkeys@, id, hotkeys@.len()) {
            Some(k) => pressed == Some(k as usize),
            None => pressed is None,
        },
{
    if suspended {
        return None;
    }
    let mut i: usize = 0;
    while i < hotkeys.len()
        invariant
            !suspended,
            i <= hotkeys@.len(),
            held_under(hotkeys@, id, i as nat) is None,
        decreases hotkeys@.len() - i,
    {
        if hotkeys[i].registered && hotkeys[i].id == Some(id) {
            proof {
                lemma_held_under_stays(hotkeys@, id, (i + 1) as nat, hotkeys@.len());
            }
            return Some(i);
        }
        i = i + 1;
    }
    None
}

} // verus!
