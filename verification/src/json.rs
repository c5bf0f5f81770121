//! A JSON value as the library holds it, and its mathematical model.
//!
//! Numbers are held as their decimal text; an object is a sequence of (key, value) entries,
//! read with map semantics (the first entry of a key is the one that counts).

use vstd::prelude::*;
use crate::text::str_eq;

verus! {

/// A JSON value.
#[derive(Debug, PartialEq)]
pub enum JsonValue {
    Null,
    Bool(bool),
    /// A number, by its decimal text.
    Number(String),
    String(String),
    Array(Vec<JsonValue>),
    /// An object, as (key, value) entries.
    Object(Vec<(String, JsonValue)>),
}

/// The model of a JSON value.
pub enum Json {
    Null,
    Bool(bool),
    Number(Seq<char>),
    String(Seq<char>),
    Array(Seq<Json>),
    Object(Seq<(Seq<char>, Json)>),
}

/// The model of a value.
pub open spec fn json_model(v: JsonValue) -> Json
    decreases v,
{
    match v {
        JsonValue::Null => Json::Null,
        JsonValue::Bool(b) => Json::Bool(b),
        JsonValue::Number(n) => Json::Number(n@),
        JsonValue::String(s) => Json::String(s@),
        JsonValue::Array(items) => Json::Array(
            Seq::new(
                items@.len(),
                |i: int|
                    if 0 <= i < items@.len() {
                        json_model(items@[i])
                    } else {
                        Json::Null
                    },
            ),
        ),
        JsonValue::Object(es) => Json::Object(
            Seq::new(
                es@.len(),
                |i: int|
                    if 0 <= i < es@.len() {
                        (es@[i].0@, json_model(es@[i].1))
                    } else {
                        (Seq::empty(), Json::Null)
                    },
            ),
        ),
    }
}

impl View for JsonValue {
    type V = Json;

    open spec fn view(&self) -> Json {
        json_model(*self)
    }
}

/// The model of a sequence of values.
pub open spec fn items_model(items: Seq<JsonValue>) -> Seq<Json> {
    Seq::new(items.len(), |i: int| json_model(items[i]))
}

/// The model of a sequence of object entries.
pub open spec fn entries_model(es: Seq<(String, JsonValue)>) -> Seq<(Seq<char>, Json)> {
    Seq::new(es.len(), |i: int| (es[i].0@, json_model(es[i].1)))
}

pub proof fn lemma_array_model(items: Vec<JsonValue>)
    ensures
        JsonValue::Array(items)@ == Json::Array(items_model(items@)),
{
    assert(JsonValue::Array(items)@->Array_0 =~= items_model(items@));
}

pub proof fn lemma_object_model(es: Vec<(String, JsonValue)>)
    ensures
        JsonValue::Object(es)@ == Json::Object(entries_model(es@)),
{
    assert(JsonValue::Object(es)@->Object_0 =~= entries_model(es@));
}

// ---------------------------------------------------------------------------
// Size: the number of nodes, which every recursive rewrite below decreases.
// ---------------------------------------------------------------------------

/// The number of nodes of a value.
pub open spec fn size(j: Json) -> nat
    decreases j, 0int,
{
    match j {
        Json::Array(items) => 1 + items_size(items, items.len() as int),
        Json::Object(es) => 1 + entries_size(es, es.len() as int),
        _ => 1,
    }
}

/// The total size of the first `n` items.
pub open spec fn items_size(items: Seq<Json>, n: int) -> nat
    decreases items, n,
{
    if n <= 0 || n > items.len() {
        0
    } else {
        items_size(items, n - 1) + size(items[n - 1])
    }
}

/// The total size of the values of the first `n` entries.
pub open spec fn entries_size(es: Seq<(Seq<char>, Json)>, n: int) -> nat
    decreases es, n,
{
    if n <= 0 || n > es.len() {
        0
    } else {
        entries_size(es, n - 1) + size(es[n - 1].1)
    }
}

/// The total size of all values of the entries.
pub open spec fn total(es: Seq<(Seq<char>, Json)>) -> nat {
    entries_size(es, es.len() as int)
}

/// The total size of all items.
pub open spec fn items_total(items: Seq<Json>) -> nat {
    items_size(items, items.len() as int)
}

pub proof fn lemma_item_below(items: Seq<Json>, n: int, i: int)
    requires
        0 <= i < n <= items.len(),
    ensures
        size(items[i]) <= items_size(items, n),
    decreases n,
{
    if i < n - 1 {
        lemma_item_below(items, n - 1, i);
    }
}

pub proof fn lemma_entry_below(es: Seq<(Seq<char>, Json)>, n: int, i: int)
    requires
        0 <= i < n <= es.len(),
    ensures
        size(es[i].1) <= entries_size(es, n),
    decreases n,
{
    if i < n - 1 {
        lemma_entry_below(es, n - 1, i);
    }
}

pub proof fn lemma_entries_prefix(es: Seq<(Seq<char>, Json)>, more: Seq<(Seq<char>, Json)>, n: int)
    requires
        0 <= n <= es.len(),
    ensures
        entries_size(es + more, n) == entries_size(es, n),
    decreases n,
{
    if n > 0 {
        lemma_entries_prefix(es, more, n - 1);
    }
}

pub proof fn lemma_entries_push(es: Seq<(Seq<char>, Json)>, e: (Seq<char>, Json))
    ensures
        total(es.push(e)) == total(es) + size(e.1),
{
    lemma_entries_prefix(es, seq![e], es.len() as int);
    assert(es.push(e) == es + seq![e]);
}

pub proof fn lemma_entries_update(es: Seq<(Seq<char>, Json)>, i: int, e: (Seq<char>, Json), n: int)
    requires
        0 <= i < es.len(),
        0 <= n <= es.len(),
    ensures
        i < n ==> entries_size(es.update(i, e), n) + size(es[i].1) == entries_size(es, n) + size(e.1),
        i >= n ==> entries_size(es.update(i, e), n) == entries_size(es, n),
    decreases n,
{
    if n > 0 {
        lemma_entries_update(es, i, e, n - 1);
    }
}

pub proof fn lemma_items_prefix(items: Seq<Json>, more: Seq<Json>, n: int)
    requires
        0 <= n <= items.len(),
    ensures
        items_size(items + more, n) == items_size(items, n),
    decreases n,
{
    if n > 0 {
        lemma_items_prefix(items, more, n - 1);
    }
}

pub proof fn lemma_items_push(items: Seq<Json>, x: Json)
    ensures
        items_total(items.push(x)) == items_total(items) + size(x),
{
    lemma_items_prefix(items, seq![x], items.len() as int);
    assert(items.push(x) == items + seq![x]);
}

// ---------------------------------------------------------------------------
// Object entries read as a map.
// ---------------------------------------------------------------------------

/// The position of the first entry with key `k`.
pub open spec fn key_index(es: Seq<(Seq<char>, Json)>, k: Seq<char>) -> Option<int>
    decreases es.len(),
{
    if es.len() == 0 {
        None
    } else if es[0].0 == k {
        Some(0)
    } else {
        match key_index(es.drop_first(), k) {
            Some(i) => Some(i + 1),
            None => None,
        }
    }
}

pub proof fn lemma_key_index(es: Seq<(Seq<char>, Json)>, k: Seq<char>)
    ensures
        match key_index(es, k) {
            Some(i) => 0 <= i < es.len() && es[i].0 == k && forall|j: int| 0 <= j < i ==> es[j].0 != k,
            None => forall|j: int| 0 <= j < es.len() ==> es[j].0 != k,
        },
    decreases es.len(),
{
    if es.len() > 0 && es[0].0 != k {
        lemma_key_index(es.drop_first(), k);
        match key_index(es.drop_first(), k) {
            Some(i) => {
                assert forall|j: int| 0 <= j < i + 1 implies es[j].0 != k by {
                    if j > 0 {
                        assert(es[j] == es.drop_first()[j - 1]);
                    }
                }
            },
            None => {
                assert forall|j: int| 0 <= j < es.len() implies es[j].0 != k by {
                    if j > 0 {
                        assert(es[j] == es.drop_first()[j - 1]);
                    }
                }
            },
        }
    }
}

/// The value under key `k`.
pub open spec fn obj_get(es: Seq<(Seq<char>, Json)>, k: Seq<char>) -> Option<Json> {
    match key_index(es, k) {
        Some(i) => Some(es[i].1),
        None => None,
    }
}

/// Sets key `k` to `v`: the first entry of `k` is replaced, or a new entry is added at the end.
pub open spec fn obj_insert(es: Seq<(Seq<char>, Json)>, k: Seq<char>, v: Json) -> Seq<(Seq<char>, Json)> {
    match key_index(es, k) {
        Some(i) => es.update(i, (k, v)),
        None => es.push((k, v)),
    }
}

/// Removes every entry with key `k`.
pub open spec fn obj_remove(es: Seq<(Seq<char>, Json)>, k: Seq<char>) -> Seq<(Seq<char>, Json)>
    decreases es.len(),
{
    if es.len() == 0 {
        es
    } else if es.last().0 == k {
        obj_remove(es.drop_last(), k)
    } else {
        obj_remove(es.drop_last(), k).push(es.last())
    }
}

/// Sets every entry of `more` in `es`, in order.
pub open spec fn obj_merge(es: Seq<(Seq<char>, Json)>, more: Seq<(Seq<char>, Json)>) -> Seq<(Seq<char>, Json)>
    decreases more.len(),
{
    if more.len() == 0 {
        es
    } else {
        obj_insert(obj_merge(es, more.drop_last()), more.last().0, more.last().1)
    }
}

pub proof fn lemma_insert_size(es: Seq<(Seq<char>, Json)>, k: Seq<char>, v: Json)
    ensures
        total(obj_insert(es, k, v)) <= total(es) + size(v),
        match key_index(es, k) {
            Some(i) => total(obj_insert(es, k, v)) + size(es[i].1) == total(es) + size(v),
            None => total(obj_insert(es, k, v)) == total(es) + size(v),
        },
{
    lemma_key_index(es, k);
    match key_index(es, k) {
        Some(i) => lemma_entries_update(es, i, (k, v), es.len() as int),
        None => lemma_entries_push(es, (k, v)),
    }
}

pub proof fn lemma_remove_size(es: Seq<(Seq<char>, Json)>, k: Seq<char>)
    ensures
        total(obj_remove(es, k)) <= total(es),
        obj_get(es, k) matches Some(v) ==> total(obj_remove(es, k)) + size(v) <= total(es),
        forall|j: int| 0 <= j < obj_remove(es, k).len() ==> obj_remove(es, k)[j].0 != k,
        forall|j: int| #![trigger obj_remove(es, k)[j]] 0 <= j < obj_remove(es, k).len()
            ==> exists|m: int| 0 <= m < es.len() && es[m] == obj_remove(es, k)[j],
    decreases es.len(),
{
    if es.len() > 0 {
        let d = es.drop_last();
        lemma_remove_size(d, k);
        lemma_key_index(es, k);
        lemma_key_index(d, k);
        assert(es == d.push(es.last()));
        lemma_entries_push(d, es.last());
        if es.last().0 != k {
            lemma_entries_push(obj_remove(d, k), es.last());
        }
        let r = obj_remove(es, k);
        assert forall|j: int| #![trigger r[j]] 0 <= j < r.len()
            implies exists|m: int| 0 <= m < es.len() && es[m] == r[j] by {
            if j < obj_remove(d, k).len() {
                let m = choose|m: int| 0 <= m < d.len() && d[m] == obj_remove(d, k)[j];
                assert(es[m] == d[m]);
            } else {
                assert(es[es.len() - 1] == r[j]);
            }
        }
        match obj_get(es, k) {
            Some(v) => {
                let i = key_index(es, k)->0;
                if i < d.len() {
                    assert(key_index(d, k) == Some(i)) by {
                        lemma_key_index_prefix(es, k, i);
                    }
                }
            },
            None => {},
        }
    }
}

proof fn lemma_key_index_prefix(es: Seq<(Seq<char>, Json)>, k: Seq<char>, i: int)
    requires
        key_index(es, k) == Some(i),
        i < es.len() - 1,
    ensures
        key_index(es.drop_last(), k) == Some(i),
{
    let d = es.drop_last();
    lemma_key_index(es, k);
    lemma_key_index(d, k);
    match key_index(d, k) {
        Some(m) => {
            assert(d[m] == es[m]);
            assert(d[i] == es[i]);
        },
        None => {
            assert(d[i] == es[i]);
        },
    }
}


// ---------------------------------------------------------------------------
// Executable object operations.
// ---------------------------------------------------------------------------

pub proof fn lemma_entries_model_push(es: Seq<(String, JsonValue)>, e: (String, JsonValue))
    ensures
        entries_model(es.push(e)) == entries_model(es).push((e.0@, e.1@)),
{
    assert(entries_model(es.push(e)) =~= entries_model(es).push((e.0@, e.1@)));
}

pub proof fn lemma_items_model_push(items: Seq<JsonValue>, x: JsonValue)
    ensures
        items_model(items.push(x)) == items_model(items).push(x@),
{
    assert(items_model(items.push(x)) =~= items_model(items).push(x@));
}

/// The first position of key `k`.
pub fn find_key(es: &Vec<(String, JsonValue)>, k: &str) -> (r: Option<usize>)
    ensures
        match r {
            Some(i) => key_index(entries_model(es@), k@) == Some(i as int) && i < es.len(),
            None => key_index(entries_model(es@), k@) is None,
        },
{
    let ghost m = entries_model(es@);
    proof {
        lemma_key_index(m, k@);
    }
    let mut i: usize = 0;
    while i < es.len()
        invariant
            i <= es.len(),
            m == entries_model(es@),
            forall|j: int| 0 <= j < i ==> m[j].0 != k@,
        decreases es.len() - i,
    {
        if str_eq(es[i].0.as_str(), k) {
            proof {
                lemma_key_index(m, k@);
                assert(m[i as int].0 == es@[i as int].0@);
                match key_index(m, k@) {
                    Some(x) => {
                        assert(x == i);
                    },
                    None => {
                        assert(m[i as int].0 == k@);
                    },
                }
            }
            return Some(i);
        }
        assert(m[i as int].0 == es@[i as int].0@);
        i = i + 1;
    }
    proof {
        lemma_key_index(m, k@);
        if key_index(m, k@) is Some {
            let x = key_index(m, k@)->0;
            assert(m[x].0 == k@);
        }
    }
    None
}

/// Sets key `k` to `v` (map insertion).
pub fn insert_entry(es: &mut Vec<(String, JsonValue)>, k: String, v: JsonValue)
    ensures
        entries_model(final(es)@) == obj_insert(entries_model(old(es)@), k@, v@),
{
    match find_key(es, k.as_str()) {
        Some(i) => {
            es.set(i, (k, v));
            assert(entries_model(es@) =~= entries_model(old(es)@).update(i as int, (k@, v@)));
        },
        None => {
            proof {
                lemma_entries_model_push(old(es)@, (k, v));
            }
            es.push((k, v));
        },
    }
}

/// Removes every entry with key `k`.
pub fn remove_entries(es: Vec<(String, JsonValue)>, k: &str) -> (r: Vec<(String, JsonValue)>)
    ensures
        entries_model(r@) == obj_remove(entries_model(es@), k@),
{
    let ghost orig = es@;
    let mut rest = es;
    let mut out: Vec<(String, JsonValue)> = Vec::new();
    let ghost mut done: Seq<(String, JsonValue)> = Seq::empty();
    assert(entries_model(out@) =~= obj_remove(entries_model(done), k@));
    while rest.len() > 0
        invariant
            orig == done + rest@,
            entries_model(out@) == obj_remove(entries_model(done), k@),
        decreases rest.len(),
    {
        let e = rest.remove(0);
        let same = str_eq(e.0.as_str(), k);
        proof {
            let nd = done.push(e);
            assert(entries_model(nd).drop_last() =~= entries_model(done));
            assert(entries_model(nd).last() == (e.0@, e.1@));
            assert(orig =~= nd + rest@);
            done = nd;
        }
        if !same {
            proof {
                lemma_entries_model_push(out@, e);
            }
            out.push(e);
        }
    }
    assert(done =~= orig);
    out
}

/// A deep copy of a value.
pub fn duplicate(v: &JsonValue) -> (r: JsonValue)
    ensures
        r@ == v@,
    decreases v,
{
    match v {
        JsonValue::Null => JsonValue::Null,
        JsonValue::Bool(b) => JsonValue::Bool(*b),
        JsonValue::Number(n) => JsonValue::Number(n.clone()),
        JsonValue::String(s) => JsonValue::String(s.clone()),
        JsonValue::Array(items) => {
            let mut out: Vec<JsonValue> = Vec::new();
            let mut i: usize = 0;
            while i < items.len()
                invariant
                    i <= items.len(),
                    *v == JsonValue::Array(*items),
                    items_model(out@) == items_model(items@).take(i as int),
                decreases items.len() - i,
            {
                proof {
                    assert(decreases_to!(*v => v->Array_0));
                    assert(decreases_to!(*items => items@));
                    assert(decreases_to!(items@ => items@[i as int]));
                }
                let c = duplicate(&items[i]);
                proof {
                    lemma_items_model_push(out@, c);
                    assert(items_model(items@).take(i + 1) =~= items_model(items@).take(i as int).push(c@));
                }
                out.push(c);
                i = i + 1;
            }
            proof {
                lemma_array_model(out);
                lemma_array_model(*items);
                assert(items_model(items@).take(i as int) =~= items_model(items@));
            }
            JsonValue::Array(out)
        },
        JsonValue::Object(es) => {
            let mut out: Vec<(String, JsonValue)> = Vec::new();
            let mut i: usize = 0;
            while i < es.len()
                invariant
                    i <= es.len(),
                    *v == JsonValue::Object(*es),
                    entries_model(out@) == entries_model(es@).take(i as int),
                decreases es.len() - i,
            {
                proof {
                    assert(decreases_to!(*v => v->Object_0));
                    assert(decreases_to!(*es => es@));
                    assert(decreases_to!(es@ => es@[i as int]));
                    assert(decreases_to!(es@[i as int] => es@[i as int].1));
                }
                let c = duplicate(&es[i].1);
                let key = es[i].0.clone();
                proof {
                    lemma_entries_model_push(out@, (key, c));
                    assert(entries_model(es@).take(i + 1) =~= entries_model(es@).take(i as int).push((key@, c@)));
                }
                out.push((key, c));
                i = i + 1;
            }
            proof {
                lemma_object_model(out);
                lemma_object_model(*es);
                assert(entries_model(es@).take(i as int) =~= entries_model(es@));
            }
            JsonValue::Object(out)
        },
    }
}

} // verus!
