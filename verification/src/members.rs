//! Looking up, replacing and removing the members of a JSON object.

use vstd::prelude::*;

use crate::json::{member_models, models, Json, JsonModel, JsonNumber};

verus! {

pub type Members = Seq<(Seq<char>, JsonModel)>;

pub proof fn lemma_models(items: Seq<Json>)
    ensures
        models(items).len() == items.len(),
        forall|i: int| 0 <= i < items.len() ==> #[trigger] models(items)[i] == items[i].model(),
    decreases items.len(),
{
    if items.len() > 0 {
        lemma_models(items.drop_last());
    }
}

pub proof fn lemma_member_models(members: Seq<(String, Json)>)
    ensures
        member_models(members).len() == members.len(),
        forall|i: int|
            0 <= i < members.len() ==> #[trigger] member_models(members)[i] == (members[i].0@, members[i].1.model()),
    decreases members.len(),
{
    if members.len() > 0 {
        lemma_member_models(members.drop_last());
    }
}

/// Two member lists with the same models member by member have the same model.
pub proof fn lemma_member_models_ext(a: Seq<(String, Json)>, b: Members)
    requires
        a.len() == b.len(),
        forall|i: int| 0 <= i < a.len() ==> (a[i].0@, a[i].1.model()) == #[trigger] b[i],
    ensures
        member_models(a) == b,
{
    lemma_member_models(a);
    assert(member_models(a) =~= b);
}

pub proof fn lemma_models_ext(a: Seq<Json>, b: Seq<JsonModel>)
    requires
        a.len() == b.len(),
        forall|i: int| 0 <= i < a.len() ==> a[i].model() == #[trigger] b[i],
    ensures
        models(a) == b,
{
    lemma_models(a);
    assert(models(a) =~= b);
}

pub proof fn lemma_prefix_step(m: Members, i: int)
    requires
        0 <= i < m.len(),
    ensures
        m.take(i + 1).drop_last() == m.take(i),
        m.take(i + 1).last() == m[i],
        m.take(i + 1).len() > 0,
{
    assert(m.take(i + 1).drop_last() =~= m.take(i));
}

/// The index of the first member named `key`.
pub open spec fn position_of(members: Members, key: Seq<char>) -> Option<int>
    decreases members.len(),
{
    if members.len() == 0 {
        None
    } else if members[0].0 == key {
        Some(0)
    } else {
        match position_of(members.drop_first(), key) {
            Some(i) => Some(i + 1),
            None => None,
        }
    }
}

/// The value of the first member named `key`, as `serde_json::Map::get` finds it.
pub open spec fn lookup(members: Members, key: Seq<char>) -> Option<JsonModel> {
    match position_of(members, key) {
        Some(i) => Some(members[i].1),
        None => None,
    }
}

/// `members` with the value of `key` replaced, or with the member added at the
/// end when there is none, as `serde_json::Map::insert` stores it.
pub open spec fn with_member(members: Members, key: Seq<char>, value: JsonModel) -> Members {
    match position_of(members, key) {
        Some(i) => members.update(i, (key, value)),
        None => members.push((key, value)),
    }
}

/// `members` without the first member named `key`, as `serde_json::Map::remove` leaves them.
pub open spec fn without_member(members: Members, key: Seq<char>) -> Members {
    match position_of(members, key) {
        Some(i) => members.remove(i),
        None => members,
    }
}

pub proof fn lemma_position_of(members: Members, key: Seq<char>)
    ensures
        position_of(members, key) matches Some(i) ==> {
            &&& 0 <= i < members.len()
            &&& members[i].0 == key
            &&& forall|j: int| 0 <= j < i ==> #[trigger] members[j].0 != key
        },
        position_of(members, key) is None ==> forall|j: int| 0 <= j < members.len() ==> #[trigger] members[j].0 != key,
    decreases members.len(),
{
    if members.len() > 0 {
        let rest = members.drop_first();
        lemma_position_of(rest, key);
        assert forall|j: int| 0 < j < members.len() implies #[trigger] members[j] == rest[j - 1] by {}
    }
}

/// A position is the first one holding `key` exactly when nothing before it does.
pub proof fn lemma_position_is_first(members: Members, key: Seq<char>, i: int)
    requires
        0 <= i <= members.len(),
        forall|j: int| 0 <= j < i ==> #[trigger] members[j].0 != key,
    ensures
        i < members.len() && members[i].0 == key ==> position_of(members, key) == Some(i),
        i == members.len() ==> position_of(members, key) is None,
{
    lemma_position_of(members, key);
}

/// After setting a member, looking it up gives the value just set.
pub proof fn lemma_lookup_with_member(members: Members, key: Seq<char>, value: JsonModel)
    ensures
        lookup(with_member(members, key, value), key) == Some(value),
{
    lemma_position_of(members, key);
    let updated = with_member(members, key, value);
    match position_of(members, key) {
        Some(i) => {
            assert forall|j: int| 0 <= j < i implies #[trigger] updated[j].0 != key by {
                assert(updated[j] == members[j]);
            }
            lemma_position_is_first(updated, key, i);
        },
        None => {
            assert forall|j: int| 0 <= j < members.len() implies #[trigger] updated[j].0 != key by {
                assert(updated[j] == members[j]);
            }
            lemma_position_is_first(updated, key, members.len() as int);
        },
    }
}

/// Setting one member leaves what every other key looks up unchanged.
pub proof fn lemma_lookup_beside_member(members: Members, key: Seq<char>, value: JsonModel, other: Seq<char>)
    requires
        other != key,
    ensures
        lookup(with_member(members, key, value), other) == lookup(members, other),
{
    lemma_position_of(members, key);
    lemma_position_of(members, other);
    let updated = with_member(members, key, value);
    assert(updated.len() >= members.len());
    assert forall|j: int| 0 <= j < members.len() implies (#[trigger] updated[j]).0 == other <==> members[j].0 == other by {
        if position_of(members, key) == Some(j) {
            assert(updated[j].0 == key);
        } else {
            assert(updated[j] == members[j]);
        }
    }
    match position_of(members, other) {
        Some(i) => {
            lemma_position_is_first(updated, other, i);
        },
        None => {
            if position_of(members, key) is None {
                assert(updated[members.len() as int].0 == key);
            }
            lemma_position_is_first(updated, other, updated.len() as int);
        },
    }
}

/// Removing one member leaves what every other key looks up unchanged.
pub proof fn lemma_lookup_beside_removal(members: Members, key: Seq<char>, other: Seq<char>)
    requires
        other != key,
    ensures
        lookup(without_member(members, key), other) == lookup(members, other),
{
    lemma_position_of(members, key);
    lemma_position_of(members, other);
    match position_of(members, key) {
        None => {},
        Some(i) => {
            let rest = members.remove(i);
            assert forall|j: int| 0 <= j < rest.len() implies #[trigger] rest[j] == (if j < i { members[j] } else { members[j + 1] }) by {}
            match position_of(members, other) {
                Some(p) => {
                    let q = if p < i { p } else { p - 1 };
                    assert(p != i);
                    assert forall|j: int| 0 <= j < q implies #[trigger] rest[j].0 != other by {
                        if j < i {
                            assert(rest[j] == members[j]);
                        } else {
                            assert(rest[j] == members[j + 1]);
                        }
                    }
                    assert(rest[q] == members[p]);
                    lemma_position_is_first(rest, other, q);
                },
                None => {
                    assert forall|j: int| 0 <= j < rest.len() implies #[trigger] rest[j].0 != other by {
                        if j < i {
                            assert(rest[j] == members[j]);
                        } else {
                            assert(rest[j] == members[j + 1]);
                        }
                    }
                    lemma_position_is_first(rest, other, rest.len() as int);
                },
            }
        },
    }
}

/// Whether two texts are equal.
pub fn same_text(a: &String, b: &str) -> (same: bool)
    ensures
        same == (a@ == b@),
{
    let owned = b.to_owned();
    *a == owned
}

/// The index of the first member named `key`.
pub fn find_member(members: &Vec<(String, Json)>, key: &str) -> (found: Option<usize>)
    ensures
        found matches Some(i) ==> position_of(member_models(members@), key@) == Some(i as int),
        found is None ==> position_of(member_models(members@), key@) is None,
        found matches Some(i) ==> i < members@.len() && members@[i as int].0@ == key@,
{
    proof {
        lemma_member_models(members@);
    }
    let ghost m = member_models(members@);
    let mut i: usize = 0;
    while i < members.len()
        invariant
            i <= members@.len(),
            m == member_models(members@),
            m.len() == members@.len(),
            forall|k: int| 0 <= k < members@.len() ==> #[trigger] m[k] == (members@[k].0@, members@[k].1.model()),
            forall|j: int| 0 <= j < i ==> #[trigger] m[j].0 != key@,
        decreases members@.len() - i,
    {
        if same_text(&members[i].0, key) {
            proof {
                lemma_position_is_first(m, key@, i as int);
            }
            return Some(i);
        }
        i = i + 1;
    }
    proof {
        lemma_position_is_first(m, key@, i as int);
    }
    None
}

/// The value of the first member named `key`.
pub fn get_member<'a>(members: &'a Vec<(String, Json)>, key: &str) -> (value: Option<&'a Json>)
    ensures
        lookup(member_models(members@), key@) == (match value {
            Some(v) => Some(v.model()),
            None => None::<JsonModel>,
        }),
{
    proof {
        lemma_member_models(members@);
    }
    match find_member(members, key) {
        Some(i) => Some(&members[i].1),
        None => None,
    }
}

/// Sets the member named `key` to `value`, adding it when there is none.
pub fn insert_member(members: &mut Vec<(String, Json)>, key: &str, value: Json)
    ensures
        member_models(final(members)@) == with_member(member_models(old(members)@), key@, value.model()),
{
    proof {
        lemma_member_models(old(members)@);
    }
    let ghost before = member_models(old(members)@);
    let found = find_member(members, key);
    let ghost value_model = value.model();
    let name = key.to_owned();
    match found {
        Some(i) => {
            members.set(i, (name, value));
            proof {
                lemma_member_models_ext(members@, before.update(i as int, (key@, value_model)));
            }
        },
        None => {
            members.push((name, value));
            proof {
                lemma_member_models_ext(members@, before.push((key@, value_model)));
            }
        },
    }
}

/// Removes the first member named `key`, handing back its value.
pub fn remove_member(members: &mut Vec<(String, Json)>, key: &str) -> (removed: Option<Json>)
    ensures
        member_models(final(members)@) == without_member(member_models(old(members)@), key@),
        removed matches Some(v) ==> lookup(member_models(old(members)@), key@) == Some(v.model()),
        removed is None ==> lookup(member_models(old(members)@), key@) is None,
{
    proof {
        lemma_member_models(old(members)@);
    }
    let ghost before = member_models(old(members)@);
    match find_member(members, key) {
        Some(i) => {
            let (_, value) = members.remove(i);
            proof {
                lemma_member_models_ext(members@, before.remove(i as int));
            }
            Some(value)
        },
        None => None,
    }
}

/// Whether two values say the same.
pub fn json_equal(a: &Json, b: &Json) -> (equal: bool)
    ensures
        equal == (a.model() == b.model()),
    decreases a,
{
    match (a, b) {
        (Json::Null, Json::Null) => true,
        (Json::Bool(x), Json::Bool(y)) => *x == *y,
        (Json::Number(x), Json::Number(y)) => match (x, y) {
            (JsonNumber::Unsigned(p), JsonNumber::Unsigned(q)) => *p == *q,
            (JsonNumber::Negative(p), JsonNumber::Negative(q)) => *p == *q,
            (JsonNumber::Float(p), JsonNumber::Float(q)) => *p == *q,
            _ => false,
        },
        (Json::String(x), Json::String(y)) => *x == *y,
        (Json::Array(xs), Json::Array(ys)) => {
            proof {
                lemma_models(xs@);
                lemma_models(ys@);
            }
            if xs.len() != ys.len() {
                assert(models(xs@).len() != models(ys@).len());
                return false;
            }
            let mut i: usize = 0;
            while i < xs.len()
                invariant
                    i <= xs@.len(),
                    xs@.len() == ys@.len(),
                    models(xs@).len() == xs@.len(),
                    models(ys@).len() == ys@.len(),
                    forall|k: int| 0 <= k < xs@.len() ==> #[trigger] models(xs@)[k] == xs@[k].model(),
                    forall|k: int| 0 <= k < ys@.len() ==> #[trigger] models(ys@)[k] == ys@[k].model(),
                    forall|k: int| 0 <= k < i ==> xs@[k].model() == #[trigger] ys@[k].model(),
                    *a == Json::Array(*xs),
                    *b == Json::Array(*ys),
                decreases xs@.len() - i,
            {
                if !json_equal(&xs[i], &ys[i]) {
                    assert(models(xs@)[i as int] != models(ys@)[i as int]);
                    return false;
                }
                i = i + 1;
            }
            assert(models(xs@) =~= models(ys@));
            true
        },
        (Json::Object(xs), Json::Object(ys)) => {
            proof {
                lemma_member_models(xs@);
                lemma_member_models(ys@);
            }
            if xs.len() != ys.len() {
                assert(member_models(xs@).len() != member_models(ys@).len());
                return false;
            }
            let mut i: usize = 0;
            while i < xs.len()
                invariant
                    i <= xs@.len(),
                    xs@.len() == ys@.len(),
                    member_models(xs@).len() == xs@.len(),
                    member_models(ys@).len() == ys@.len(),
                    forall|k: int| 0 <= k < xs@.len() ==> #[trigger] member_models(xs@)[k] == (xs@[k].0@, xs@[k].1.model()),
                    forall|k: int| 0 <= k < ys@.len() ==> #[trigger] member_models(ys@)[k] == (ys@[k].0@, ys@[k].1.model()),
                    forall|k: int| 0 <= k < i ==> #[trigger] member_models(xs@)[k] == member_models(ys@)[k],
                    *a == Json::Object(*xs),
                    *b == Json::Object(*ys),
                decreases xs@.len() - i,
            {
                if xs[i].0 != ys[i].0 || !json_equal(&xs[i].1, &ys[i].1) {
                    assert(member_models(xs@)[i as int] != member_models(ys@)[i as int]);
                    return false;
                }
                i = i + 1;
            }
            assert(member_models(xs@) =~= member_models(ys@));
            true
        },
        _ => false,
    }
}

/// A copy of a value.
pub fn clone_json(value: &Json) -> (copy: Json)
    ensures
        copy.model() == value.model(),
    decreases value,
{
    match value {
        Json::Null => Json::Null,
        Json::Bool(flag) => Json::Bool(*flag),
        Json::Number(JsonNumber::Unsigned(n)) => Json::Number(JsonNumber::Unsigned(*n)),
        Json::Number(JsonNumber::Negative(n)) => Json::Number(JsonNumber::Negative(*n)),
        Json::Number(JsonNumber::Float(text)) => Json::Number(JsonNumber::Float(text.clone())),
        Json::String(text) => Json::String(text.clone()),
        Json::Array(items) => {
            proof {
                lemma_models(items@);
            }
            let mut copies: Vec<Json> = Vec::new();
            let mut i: usize = 0;
            while i < items.len()
                invariant
                    i <= items@.len(),
                    copies@.len() == i,
                    models(items@).len() == items@.len(),
                    forall|k: int| 0 <= k < items@.len() ==> #[trigger] models(items@)[k] == items@[k].model(),
                    forall|k: int| 0 <= k < i ==> (#[trigger] copies@[k]).model() == items@[k].model(),
                    *value == Json::Array(*items),
                decreases items@.len() - i,
            {
                proof {
                    assert(decreases_to!(*value => (*value)->Array_0));
                    assert(decreases_to!(*items => items@));
                    assert(decreases_to!(items@ => items@[i as int]));
                    assert(decreases_to!(*value => items@[i as int]));
                }
                copies.push(clone_json(&items[i]));
                i = i + 1;
            }
            proof {
                lemma_models_ext(copies@, models(items@));
            }
            Json::Array(copies)
        },
        Json::Object(members) => {
            proof {
                lemma_member_models(members@);
            }
            let mut copies: Vec<(String, Json)> = Vec::new();
            let mut i: usize = 0;
            while i < members.len()
                invariant
                    i <= members@.len(),
                    copies@.len() == i,
                    member_models(members@).len() == members@.len(),
                    forall|k: int| 0 <= k < members@.len() ==> #[trigger] member_models(members@)[k] == (members@[k].0@, members@[k].1.model()),
                    forall|k: int| 0 <= k < i ==> (#[trigger] copies@[k]).0@ == members@[k].0@ && copies@[k].1.model() == members@[k].1.model(),
                    *value == Json::Object(*members),
                decreases members@.len() - i,
            {
                proof {
                    assert(decreases_to!(*value => (*value)->Object_0));
                    assert(decreases_to!(*members => members@));
                    assert(decreases_to!(members@ => members@[i as int]));
                    assert(decreases_to!(members@[i as int] => members@[i as int].1));
                    assert(decreases_to!(*value => members@[i as int].1));
                }
                copies.push((members[i].0.clone(), clone_json(&members[i].1)));
                i = i + 1;
            }
            proof {
                lemma_member_models_ext(copies@, member_models(members@));
            }
            Json::Object(copies)
        },
    }
}

} // verus!
