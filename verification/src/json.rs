//! A JSON value type, its mathematical model, and the object operations
//! (insert with replace, lookup) that schema generation is built from.
//!
//! Object members are kept in insertion order; inserting an existing key
//! replaces its value in place, as a JSON map does.

use vstd::prelude::*;

verus! {

/// The mathematical model of a JSON document.
pub enum Json {
    Null,
    Bool(bool),
    /// A number, as its JSON text.
    Number(Seq<char>),
    Str(Seq<char>),
    Array(Seq<Json>),
    Object(Seq<(Seq<char>, Json)>),
}

/// A JSON document.
#[derive(Debug, PartialEq, Eq)]
pub enum JsonValue {
    Null,
    Bool(bool),
    /// A number, kept as its JSON text (such as `-1`, `0.5` or `1e3`).
    Number(String),
    Str(String),
    Array(Vec<JsonValue>),
    Object(Vec<(String, JsonValue)>),
}

impl JsonValue {
    /// The model of this value.
    pub open spec fn model(self) -> Json
        decreases self,
    {
        match self {
            JsonValue::Null => Json::Null,
            JsonValue::Bool(b) => Json::Bool(b),
            JsonValue::Number(n) => Json::Number(n@),
            JsonValue::Str(s) => Json::Str(s@),
            JsonValue::Array(items) => Json::Array(json_seq_model(items@)),
            JsonValue::Object(entries) => Json::Object(entries_model(entries@)),
        }
    }
}

/// The models of a sequence of values, element by element.
pub open spec fn json_seq_model(s: Seq<JsonValue>) -> Seq<Json>
    decreases s,
{
    if s.len() == 0 {
        Seq::empty()
    } else {
        json_seq_model(s.drop_last()).push(s.last().model())
    }
}

/// The models of a sequence of object members, member by member.
pub open spec fn entries_model(s: Seq<(String, JsonValue)>) -> Seq<(Seq<char>, Json)>
    decreases s,
{
    if s.len() == 0 {
        Seq::empty()
    } else {
        entries_model(s.drop_last()).push((s.last().0@, s.last().1.model()))
    }
}

impl View for JsonValue {
    type V = Json;

    open spec fn view(&self) -> Json {
        self.model()
    }
}

/// `json_seq_model` maps each element to its model.
pub proof fn lemma_json_seq_model(s: Seq<JsonValue>)
    ensures
        json_seq_model(s).len() == s.len(),
        forall|i: int| 0 <= i < s.len() ==> #[trigger] json_seq_model(s)[i] == s[i].model(),
    decreases s.len(),
{
    if s.len() > 0 {
        lemma_json_seq_model(s.drop_last());
    }
}

/// `entries_model` maps each member to the model of its key and value.
pub proof fn lemma_entries_model(s: Seq<(String, JsonValue)>)
    ensures
        entries_model(s).len() == s.len(),
        forall|i: int|
            0 <= i < s.len() ==> #[trigger] entries_model(s)[i] == (s[i].0@, s[i].1.model()),
    decreases s.len(),
{
    if s.len() > 0 {
        lemma_entries_model(s.drop_last());
    }
}

/// Inserting into an object: the first member with key `k` gets the value `v`,
/// or, when there is none, the member `(k, v)` is appended.
pub open spec fn obj_insert(e: Seq<(Seq<char>, Json)>, k: Seq<char>, v: Json) -> Seq<
    (Seq<char>, Json),
>
    decreases e.len(),
{
    if e.len() == 0 {
        seq![(k, v)]
    } else if e[0].0 == k {
        e.update(0, (k, v))
    } else {
        seq![e[0]] + obj_insert(e.drop_first(), k, v)
    }
}

/// The value of the first member with key `k`, if any.
pub open spec fn obj_get(e: Seq<(Seq<char>, Json)>, k: Seq<char>) -> Option<Json>
    decreases e.len(),
{
    if e.len() == 0 {
        None
    } else if e[0].0 == k {
        Some(e[0].1)
    } else {
        obj_get(e.drop_first(), k)
    }
}

/// `j[k] = v` on an object; other values are left as they are.
pub open spec fn json_insert(j: Json, k: Seq<char>, v: Json) -> Json {
    match j {
        Json::Object(e) => Json::Object(obj_insert(e, k, v)),
        _ => j,
    }
}

/// `j[k]`: the value of member `k` of an object, `null` when there is none.
pub open spec fn json_get(j: Json, k: Seq<char>) -> Json {
    match j {
        Json::Object(e) => match obj_get(e, k) {
            Some(v) => v,
            None => Json::Null,
        },
        _ => Json::Null,
    }
}

/// No two members of the object share a key.
pub open spec fn keys_unique(e: Seq<(Seq<char>, Json)>) -> bool {
    forall|i: int, j: int| 0 <= i < e.len() && 0 <= j < e.len() && i != j ==> e[i].0 != e[j].0
}

/// The set of keys of an object.
pub open spec fn obj_keys(e: Seq<(Seq<char>, Json)>) -> Set<Seq<char>> {
    Set::new(|k: Seq<char>| exists|i: int| 0 <= i < e.len() && e[i].0 == k)
}

proof fn lemma_obj_insert_at(e: Seq<(Seq<char>, Json)>, k: Seq<char>, v: Json, i: int)
    requires
        0 <= i < e.len(),
        e[i].0 == k,
        forall|j: int| 0 <= j < i ==> e[j].0 != k,
    ensures
        obj_insert(e, k, v) == e.update(i, (k, v)),
    decreases i,
{
    if i > 0 {
        let t = e.drop_first();
        assert forall|j: int| 0 <= j < i - 1 implies t[j].0 != k by {
            assert(t[j] == e[j + 1]);
        }
        lemma_obj_insert_at(t, k, v, i - 1);
        assert(seq![e[0]] + t.update(i - 1, (k, v)) =~= e.update(i, (k, v)));
    }
}

proof fn lemma_obj_insert_absent(e: Seq<(Seq<char>, Json)>, k: Seq<char>, v: Json)
    requires
        forall|j: int| 0 <= j < e.len() ==> e[j].0 != k,
    ensures
        obj_insert(e, k, v) == e.push((k, v)),
    decreases e.len(),
{
    if e.len() > 0 {
        let t = e.drop_first();
        assert forall|j: int| 0 <= j < t.len() implies t[j].0 != k by {
            assert(t[j] == e[j + 1]);
        }
        lemma_obj_insert_absent(t, k, v);
        assert(seq![e[0]] + t.push((k, v)) =~= e.push((k, v)));
    }
}

/// Inserts `(key, value)` into the members of an object (`map[key] = value`).
pub fn object_insert(entries: &mut Vec<(String, JsonValue)>, key: String, value: JsonValue)
    ensures
        entries_model(final(entries)@) == obj_insert(entries_model(old(entries)@), key@, value@),
{
    let ghost e = entries_model(entries@);
    let ghost k = key@;
    let ghost v = value@;
    proof {
        lemma_entries_model(entries@);
    }
    let mut i: usize = 0;
    while i < entries.len()
        invariant
            0 <= i <= entries@.len(),
            entries@ == old(entries)@,
            e == entries_model(entries@),
            e.len() == entries@.len(),
            forall|j: int| 0 <= j < entries@.len() ==> #[trigger] e[j] == (
                entries@[j].0@,
                entries@[j].1.model(),
            ),
            k == key@,
            v == value@,
            forall|j: int| 0 <= j < i ==> e[j].0 != k,
        decreases entries@.len() - i,
    {
        if entries[i].0 == key {
            let ghost before = entries@;
            assert(e[i as int].0 == k);
            proof {
                lemma_obj_insert_at(e, k, v, i as int);
            }
            entries.set(i, (key, value));
            proof {
                lemma_entries_model(entries@);
                assert(entries_model(entries@) =~= e.update(i as int, (k, v)));
            }
            return;
        }
        i += 1;
    }
    proof {
        lemma_obj_insert_absent(e, k, v);
    }
    let ghost before = entries@;
    entries.push((key, value));
    proof {
        assert(entries@.drop_last() =~= before);
    }
}

/// A well-formed JSON document: no object, at any depth, has two members with one key.
pub open spec fn json_wf(j: Json) -> bool
    decreases j,
{
    match j {
        Json::Array(items) => forall|i: int| 0 <= i < items.len() ==> json_wf(#[trigger] items[i]),
        Json::Object(e) => keys_unique(e) && forall|i: int|
            0 <= i < e.len() ==> json_wf(#[trigger] e[i].1),
        _ => true,
    }
}

/// Every value of the object after inserting `(k, v)` is `v` or a value it had before.
pub proof fn lemma_obj_insert_values(e: Seq<(Seq<char>, Json)>, k: Seq<char>, v: Json)
    ensures
        forall|i: int|
            0 <= i < obj_insert(e, k, v).len() ==> #[trigger] obj_insert(e, k, v)[i].1 == v
                || exists|j: int| 0 <= j < e.len() && e[j].1 == obj_insert(e, k, v)[i].1,
    decreases e.len(),
{
    let r = obj_insert(e, k, v);
    if e.len() == 0 {
    } else if e[0].0 == k {
        assert forall|i: int| 0 <= i < r.len() implies #[trigger] r[i].1 == v || exists|j: int|
            0 <= j < e.len() && e[j].1 == r[i].1 by {
            if i != 0 {
                assert(e[i].1 == r[i].1);
            }
        }
    } else {
        let t = e.drop_first();
        lemma_obj_insert_values(t, k, v);
        let rt = obj_insert(t, k, v);
        assert forall|i: int| 0 <= i < r.len() implies #[trigger] r[i].1 == v || exists|j: int|
            0 <= j < e.len() && e[j].1 == r[i].1 by {
            if i == 0 {
                assert(e[0].1 == r[0].1);
            } else {
                assert(r[i] == rt[i - 1]);
                if rt[i - 1].1 != v {
                    let j = choose|j: int| 0 <= j < t.len() && t[j].1 == rt[i - 1].1;
                    assert(e[j + 1].1 == r[i].1);
                }
            }
        }
    }
}

/// Inserting a well-formed value into a well-formed object gives a well-formed object.
pub proof fn lemma_json_insert_wf(j: Json, k: Seq<char>, v: Json)
    requires
        json_wf(j),
        json_wf(v),
    ensures
        json_wf(json_insert(j, k, v)),
{
    if let Json::Object(e) = j {
        law_insert_keys(e, k, v);
        lemma_obj_insert_values(e, k, v);
        let r = obj_insert(e, k, v);
        assert forall|i: int| 0 <= i < r.len() implies json_wf(#[trigger] r[i].1) by {
            if r[i].1 != v {
                let x = choose|x: int| 0 <= x < e.len() && e[x].1 == r[i].1;
                assert(json_wf(e[x].1));
            }
        }
    }
}

/// Looking up the key of a member that no earlier member shares gives its value.
pub proof fn lemma_obj_get_at(e: Seq<(Seq<char>, Json)>, i: int)
    requires
        0 <= i < e.len(),
        forall|j: int| 0 <= j < i ==> e[j].0 != e[i].0,
    ensures
        obj_get(e, e[i].0) == Some(e[i].1),
    decreases i,
{
    if i > 0 {
        let t = e.drop_first();
        assert forall|j: int| 0 <= j < i - 1 implies #[trigger] t[j].0 != t[i - 1].0 by {
            assert(t[j] == e[j + 1]);
        }
        lemma_obj_get_at(t, i - 1);
    }
}

/// Looking up a key that no member has gives nothing.
pub proof fn lemma_obj_get_absent(e: Seq<(Seq<char>, Json)>, k: Seq<char>)
    requires
        forall|j: int| 0 <= j < e.len() ==> e[j].0 != k,
    ensures
        obj_get(e, k) is None,
    decreases e.len(),
{
    if e.len() > 0 {
        let t = e.drop_first();
        assert forall|j: int| 0 <= j < t.len() implies t[j].0 != k by {
            assert(t[j] == e[j + 1]);
        }
        lemma_obj_get_absent(t, k);
    }
}

/// Reading a key just written gives back the value written.
pub proof fn law_insert_then_get(e: Seq<(Seq<char>, Json)>, k: Seq<char>, v: Json)
    ensures
        obj_get(obj_insert(e, k, v), k) == Some(v),
    decreases e.len(),
{
    if e.len() > 0 && e[0].0 != k {
        law_insert_then_get(e.drop_first(), k, v);
        assert((seq![e[0]] + obj_insert(e.drop_first(), k, v)).drop_first() =~= obj_insert(
            e.drop_first(),
            k,
            v,
        ));
    }
}

/// Writing one key leaves what every other key reads unchanged.
pub proof fn law_insert_keeps_other_keys(
    e: Seq<(Seq<char>, Json)>,
    k: Seq<char>,
    v: Json,
    k2: Seq<char>,
)
    requires
        k2 != k,
    ensures
        obj_get(obj_insert(e, k, v), k2) == obj_get(e, k2),
    decreases e.len(),
{
    if e.len() == 0 {
        let one = seq![(k, v)];
        assert(one.drop_first() =~= Seq::<(Seq<char>, Json)>::empty());
        assert(obj_get(one.drop_first(), k2) == None::<Json>);
        assert(obj_get(one, k2) == obj_get(one.drop_first(), k2));
    } else {
        if e[0].0 == k {
            assert(e.update(0, (k, v)).drop_first() =~= e.drop_first());
        } else {
            law_insert_keeps_other_keys(e.drop_first(), k, v, k2);
            assert((seq![e[0]] + obj_insert(e.drop_first(), k, v)).drop_first() =~= obj_insert(
                e.drop_first(),
                k,
                v,
            ));
        }
    }
}

/// Inserting keeps the keys of an object distinct, and its key set gains exactly `k`.
pub proof fn law_insert_keys(e: Seq<(Seq<char>, Json)>, k: Seq<char>, v: Json)
    ensures
        keys_unique(e) ==> keys_unique(obj_insert(e, k, v)),
        obj_keys(obj_insert(e, k, v)) == obj_keys(e).insert(k),
    decreases e.len(),
{
    if e.len() == 0 {
        let one = seq![(k, v)];
        assert(one[0].0 == k);
        assert(obj_keys(one) =~= obj_keys(e).insert(k));
    } else if e[0].0 == k {
        assert(obj_keys(e.update(0, (k, v))) =~= obj_keys(e).insert(k)) by {
            assert forall|x: Seq<char>| obj_keys(e).insert(k).contains(x) implies obj_keys(
                e.update(0, (k, v)),
            ).contains(x) by {
                if x != k {
                    let i = choose|i: int| 0 <= i < e.len() && e[i].0 == x;
                    assert(e.update(0, (k, v))[i].0 == x);
                } else {
                    assert(e.update(0, (k, v))[0].0 == x);
                }
            }
            assert forall|x: Seq<char>| obj_keys(e.update(0, (k, v))).contains(x) implies obj_keys(
                e,
            ).insert(k).contains(x) by {
                let i = choose|i: int| 0 <= i < e.len() && e.update(0, (k, v))[i].0 == x;
                assert(e[i].0 == x);
            }
        }
    } else {
        let t = e.drop_first();
        law_insert_keys(t, k, v);
        let r = seq![e[0]] + obj_insert(t, k, v);
        let rt = obj_insert(t, k, v);
        assert forall|x: Seq<char>| obj_keys(e).insert(k).contains(x) implies obj_keys(
            r,
        ).contains(x) by {
            if x == e[0].0 {
                assert(r[0].0 == x);
            } else if x == k {
                assert(obj_keys(rt).contains(x));
                let i = choose|i: int| 0 <= i < rt.len() && rt[i].0 == x;
                assert(r[i + 1].0 == x);
            } else {
                let i = choose|i: int| 0 <= i < e.len() && e[i].0 == x;
                assert(t[i - 1].0 == x);
                assert(obj_keys(t).contains(x));
                assert(obj_keys(rt).contains(x));
                let i2 = choose|i2: int| 0 <= i2 < rt.len() && rt[i2].0 == x;
                assert(r[i2 + 1].0 == x);
            }
        }
        assert forall|x: Seq<char>| obj_keys(r).contains(x) implies obj_keys(e).insert(
            k,
        ).contains(x) by {
            let i = choose|i: int| 0 <= i < r.len() && r[i].0 == x;
            if i == 0 {
                assert(e[0].0 == x);
            } else {
                assert(rt[i - 1].0 == x);
                assert(obj_keys(rt).contains(x));
                if x != k {
                    assert(obj_keys(t).contains(x));
                    let j = choose|j: int| 0 <= j < t.len() && t[j].0 == x;
                    assert(e[j + 1].0 == x);
                }
            }
        }
        assert(obj_keys(r) =~= obj_keys(e).insert(k));
        if keys_unique(e) {
            assert forall|a: int, b: int| 0 <= a < t.len() && 0 <= b < t.len() && a != b implies t[a].0
                != t[b].0 by {
                assert(t[a] == e[a + 1]);
                assert(t[b] == e[b + 1]);
            }
            assert(!obj_keys(t).contains(e[0].0)) by {
                if obj_keys(t).contains(e[0].0) {
                    let j = choose|j: int| 0 <= j < t.len() && t[j].0 == e[0].0;
                    assert(e[j + 1].0 == e[0].0);
                }
            }
            assert(!obj_keys(rt).contains(e[0].0));
            assert forall|a: int, b: int| 0 <= a < r.len() && 0 <= b < r.len() && a != b implies r[a].0
                != r[b].0 by {
                if a == 0 {
                    assert(r[b].0 == rt[b - 1].0);
                    if r[b].0 == e[0].0 {
                        assert(obj_keys(rt).contains(e[0].0));
                    }
                } else if b == 0 {
                    assert(r[a].0 == rt[a - 1].0);
                    if r[a].0 == e[0].0 {
                        assert(obj_keys(rt).contains(e[0].0));
                    }
                } else {
                    assert(r[a] == rt[a - 1]);
                    assert(r[b] == rt[b - 1]);
                }
            }
        }
    }
}

/// A JSON string.
pub fn json_str(s: &str) -> (r: JsonValue)
    ensures
        r@ == Json::Str(s@),
{
    JsonValue::Str(String::from_str(s))
}

/// `j[k] = v` when `j` is an object; any other value is returned unchanged.
pub fn json_insert_value(j: JsonValue, k: String, v: JsonValue) -> (r: JsonValue)
    ensures
        r@ == json_insert(j@, k@, v@),
{
    match j {
        JsonValue::Object(mut entries) => {
            object_insert(&mut entries, k, v);
            JsonValue::Object(entries)
        },
        other => other,
    }
}

/// The object with the single member `(k, v)`.
pub fn object1(k: &str, v: JsonValue) -> (r: JsonValue)
    ensures
        r@ == Json::Object(seq![(k@, v@)]),
{
    let mut e: Vec<(String, JsonValue)> = Vec::new();
    e.push((String::from_str(k), v));
    proof {
        lemma_entries_model(e@);
        assert(entries_model(e@) =~= seq![(k@, v@)]);
    }
    JsonValue::Object(e)
}

/// The object with the members `(k1, v1)`, `(k2, v2)`, in that order.
pub fn object2(k1: &str, v1: JsonValue, k2: &str, v2: JsonValue) -> (r: JsonValue)
    ensures
        r@ == Json::Object(seq![(k1@, v1@), (k2@, v2@)]),
{
    let mut e: Vec<(String, JsonValue)> = Vec::new();
    e.push((String::from_str(k1), v1));
    e.push((String::from_str(k2), v2));
    proof {
        lemma_entries_model(e@);
        assert(entries_model(e@) =~= seq![(k1@, v1@), (k2@, v2@)]);
    }
    JsonValue::Object(e)
}

/// The object with three members, in the order given.
pub fn object3(k1: &str, v1: JsonValue, k2: &str, v2: JsonValue, k3: &str, v3: JsonValue) -> (r:
    JsonValue)
    ensures
        r@ == Json::Object(seq![(k1@, v1@), (k2@, v2@), (k3@, v3@)]),
{
    let mut e: Vec<(String, JsonValue)> = Vec::new();
    e.push((String::from_str(k1), v1));
    e.push((String::from_str(k2), v2));
    e.push((String::from_str(k3), v3));
    proof {
        lemma_entries_model(e@);
        assert(entries_model(e@) =~= seq![(k1@, v1@), (k2@, v2@), (k3@, v3@)]);
    }
    JsonValue::Object(e)
}

/// The object with four members, in the order given.
pub fn object4(
    k1: &str,
    v1: JsonValue,
    k2: &str,
    v2: JsonValue,
    k3: &str,
    v3: JsonValue,
    k4: &str,
    v4: JsonValue,
) -> (r: JsonValue)
    ensures
        r@ == Json::Object(seq![(k1@, v1@), (k2@, v2@), (k3@, v3@), (k4@, v4@)]),
{
    let mut e: Vec<(String, JsonValue)> = Vec::new();
    e.push((String::from_str(k1), v1));
    e.push((String::from_str(k2), v2));
    e.push((String::from_str(k3), v3));
    e.push((String::from_str(k4), v4));
    proof {
        lemma_entries_model(e@);
        assert(entries_model(e@) =~= seq![(k1@, v1@), (k2@, v2@), (k3@, v3@), (k4@, v4@)]);
    }
    JsonValue::Object(e)
}

/// The array of two values.
pub fn array2(a: JsonValue, b: JsonValue) -> (r: JsonValue)
    ensures
        r@ == Json::Array(seq![a@, b@]),
{
    let mut e: Vec<JsonValue> = Vec::new();
    e.push(a);
    e.push(b);
    proof {
        lemma_json_seq_model(e@);
        assert(json_seq_model(e@) =~= seq![a@, b@]);
    }
    JsonValue::Array(e)
}

} // verus!
