//! The rewrites of the contract generator over JSON documents: the wire discipline that
//! removes nullable unions, and the expansion of `#/components/schemas/..` references.

use vstd::prelude::*;
use vstd::string::*;
use crate::json::{
    duplicate, entries_model, lemma_array_model, lemma_object_model, entries_size, find_key, insert_entry, items_model, items_size,
    items_total, json_model, key_index, lemma_entries_push, lemma_entry_below, lemma_insert_size,
    lemma_item_below, lemma_items_push, lemma_key_index, lemma_remove_size, obj_get, obj_insert,
    obj_merge, obj_remove, remove_entries, size, total, Json, JsonValue,
};
use crate::text::{chars_of, chars_eq_range, string_of_range, str_eq};

verus! {

broadcast use vstd::string::group_string_axioms;

// ---------------------------------------------------------------------------
// The wire discipline: optional means "field left out", never "nullable".
// ---------------------------------------------------------------------------

/// The schema `{"type": "null"}`.
pub open spec fn is_null_schema(j: Json) -> bool {
    &&& j is Object
    &&& j->Object_0.len() == 1
    &&& j->Object_0[0].0 == "type"@
    &&& j->Object_0[0].1 == Json::String("null"@)
}

/// The string `"null"`.
pub open spec fn is_null_str(j: Json) -> bool {
    j == Json::String("null"@)
}

/// `oneOf: [{"type": "null"}, X]` is present.
pub open spec fn one_of_applies(es: Seq<(Seq<char>, Json)>) -> bool {
    &&& obj_get(es, "oneOf"@) matches Some(Json::Array(vs))
    &&& vs.len() == 2
    &&& is_null_schema(vs[0])
}

/// The `X` of a `oneOf: [{"type": "null"}, X]`.
pub open spec fn one_of_rest(es: Seq<(Seq<char>, Json)>) -> Json {
    obj_get(es, "oneOf"@)->0->Array_0[1]
}

/// The entries after collapsing `oneOf: [{"type": "null"}, X]` into `X`: `oneOf` is dropped and
/// the keys of `X` (when it is an object) are set over the remaining entries.
pub open spec fn after_one_of(es: Seq<(Seq<char>, Json)>) -> Seq<(Seq<char>, Json)> {
    if one_of_applies(es) {
        match one_of_rest(es) {
            Json::Object(xe) => obj_merge(obj_remove(es, "oneOf"@), xe),
            _ => obj_remove(es, "oneOf"@),
        }
    } else {
        es
    }
}

/// The items that are not the string `"null"`, in order.
pub open spec fn drop_nulls(ts: Seq<Json>) -> Seq<Json>
    decreases ts.len(),
{
    if ts.len() == 0 {
        ts
    } else if is_null_str(ts.last()) {
        drop_nulls(ts.drop_last())
    } else {
        drop_nulls(ts.drop_last()).push(ts.last())
    }
}

/// `type: [.., "null", ..]` is present.
pub open spec fn type_applies(es: Seq<(Seq<char>, Json)>) -> bool {
    &&& obj_get(es, "type"@) matches Some(Json::Array(ts))
    &&& exists|i: int| 0 <= i < ts.len() && is_null_str(#[trigger] ts[i])
}

/// The new `type` once `"null"` is dropped: the single remaining type, or the remaining array.
pub open spec fn type_without_null(es: Seq<(Seq<char>, Json)>) -> Json {
    let ts = drop_nulls(obj_get(es, "type"@)->0->Array_0);
    if ts.len() == 1 {
        ts[0]
    } else {
        Json::Array(ts)
    }
}

/// The entries after dropping `"null"` from a `type` array.
pub open spec fn after_type(es: Seq<(Seq<char>, Json)>) -> Seq<(Seq<char>, Json)> {
    if type_applies(es) {
        obj_insert(es, "type"@, type_without_null(es))
    } else {
        es
    }
}

/// The entries once every `oneOf: [{"type": "null"}, X]` of this level is collapsed: an `X`
/// set over the level may bring a nullable `oneOf` of its own, which collapses in turn.
pub open spec fn settle_one_of(es: Seq<(Seq<char>, Json)>) -> Seq<(Seq<char>, Json)>
    decreases total(es),
{
    if one_of_applies(es) {
        proof {
            lemma_after_one_of_smaller(es);
        }
        settle_one_of(after_one_of(es))
    } else {
        es
    }
}

/// The entries once `"null"` is out of the `type` entry: a single remaining type may itself be
/// an array that holds `"null"`, which is dropped in turn.
pub open spec fn settle_types(es: Seq<(Seq<char>, Json)>) -> Seq<(Seq<char>, Json)>
    decreases total(es),
{
    if type_applies(es) {
        proof {
            lemma_after_type_smaller(es);
        }
        settle_types(after_type(es))
    } else {
        es
    }
}

/// The entries of an object once its own level is rewritten (its values already are).
pub open spec fn level_rewrite(es: Seq<(Seq<char>, Json)>) -> Seq<(Seq<char>, Json)> {
    settle_types(settle_one_of(es))
}

/// Whether the rewrite of an object's own level removed a null form.
pub open spec fn level_removed(es: Seq<(Seq<char>, Json)>) -> bool {
    one_of_applies(es) || type_applies(settle_one_of(es))
}

/// The document with every nullable form removed, and whether any was. Values are rewritten
/// first (arrays item by item); then, at each object, `oneOf: [{"type": "null"}, X]` collapses
/// into `X` (the keys of `X` set over the others) for as long as one is there, and `"null"`
/// leaves the `type` array (a single remaining type becomes a scalar) for as long as it holds
/// one.
pub open spec fn strip(j: Json) -> (Json, bool)
    decreases size(j), 0nat,
{
    match j {
        Json::Object(es) => {
            let (cs, r) = strip_entries(es, es.len() as int);
            (Json::Object(level_rewrite(cs)), r || level_removed(cs))
        },
        Json::Array(items) => {
            let (cs, r) = strip_items(items, items.len() as int);
            (Json::Array(cs), r)
        },
        _ => (j, false),
    }
}

/// The first `n` entries with their values rewritten.
pub open spec fn strip_entries(es: Seq<(Seq<char>, Json)>, n: int) -> (Seq<(Seq<char>, Json)>, bool)
    decreases entries_size(es, n), 1nat,
{
    if n <= 0 || n > es.len() {
        (Seq::empty(), false)
    } else {
        proof {
            lemma_size_positive(es[n - 1].1);
        }
        let (p, r) = strip_entries(es, n - 1);
        let (v, rv) = strip(es[n - 1].1);
        (p.push((es[n - 1].0, v)), r || rv)
    }
}

/// The first `n` items rewritten.
pub open spec fn strip_items(items: Seq<Json>, n: int) -> (Seq<Json>, bool)
    decreases items_size(items, n), 1nat,
{
    if n <= 0 || n > items.len() {
        (Seq::empty(), false)
    } else {
        proof {
            lemma_size_positive(items[n - 1]);
        }
        let (p, r) = strip_items(items, n - 1);
        let (v, rv) = strip(items[n - 1]);
        (p.push(v), r || rv)
    }
}

pub proof fn lemma_size_positive(j: Json)
    ensures
        size(j) >= 1,
{
}

pub proof fn lemma_merge_size(es: Seq<(Seq<char>, Json)>, more: Seq<(Seq<char>, Json)>)
    ensures
        total(obj_merge(es, more)) <= total(es) + total(more),
    decreases more.len(),
{
    if more.len() > 0 {
        let d = more.drop_last();
        lemma_merge_size(es, d);
        lemma_insert_size(obj_merge(es, d), more.last().0, more.last().1);
        assert(more == d.push(more.last()));
        lemma_entries_push(d, more.last());
    }
}

pub proof fn lemma_drop_nulls_size(ts: Seq<Json>)
    ensures
        items_total(drop_nulls(ts)) <= items_total(ts),
    decreases ts.len(),
{
    if ts.len() > 0 {
        let d = ts.drop_last();
        lemma_drop_nulls_size(d);
        assert(ts == d.push(ts.last()));
        lemma_items_push(d, ts.last());
        if !is_null_str(ts.last()) {
            lemma_items_push(drop_nulls(d), ts.last());
        }
    }
}

/// Collapsing a nullable `oneOf` makes an object smaller.
pub proof fn lemma_after_one_of_smaller(es: Seq<(Seq<char>, Json)>)
    requires
        one_of_applies(es),
    ensures
        total(after_one_of(es)) < total(es),
{
    let ov = obj_get(es, "oneOf"@)->0;
    let vs = ov->Array_0;
    let r = obj_remove(es, "oneOf"@);
    lemma_remove_size(es, "oneOf"@);
    lemma_size_positive(vs[0]);
    assert(vs.len() == 2);
    assert(items_size(vs, 0) == 0);
    assert(items_size(vs, 1) == size(vs[0]));
    assert(items_size(vs, 2) == items_size(vs, 1) + size(vs[1]));
    assert(size(ov) == 1 + items_size(vs, 2));
    match one_of_rest(es) {
        Json::Object(xe) => {
            lemma_merge_size(r, xe);
            assert(size(vs[1]) == 1 + total(xe));
        },
        _ => {},
    }
}

/// Dropping `"null"` from an array that holds it makes the array smaller.
pub proof fn lemma_drop_nulls_smaller(ts: Seq<Json>)
    requires
        exists|i: int| 0 <= i < ts.len() && is_null_str(#[trigger] ts[i]),
    ensures
        items_total(drop_nulls(ts)) < items_total(ts),
    decreases ts.len(),
{
    let d = ts.drop_last();
    assert(ts == d.push(ts.last()));
    lemma_items_push(d, ts.last());
    lemma_drop_nulls_size(d);
    if !is_null_str(ts.last()) {
        let i = choose|i: int| 0 <= i < ts.len() && is_null_str(#[trigger] ts[i]);
        assert(i < ts.len() - 1);
        assert(d[i] == ts[i]);
        lemma_drop_nulls_smaller(d);
        lemma_items_push(drop_nulls(d), ts.last());
    }
}

/// Dropping `"null"` from a `type` array makes an object smaller.
pub proof fn lemma_after_type_smaller(es: Seq<(Seq<char>, Json)>)
    requires
        type_applies(es),
    ensures
        total(after_type(es)) < total(es),
{
    let ts = obj_get(es, "type"@)->0->Array_0;
    let dts = drop_nulls(ts);
    let nt = type_without_null(es);
    lemma_drop_nulls_smaller(ts);
    if dts.len() == 1 {
        lemma_item_below(dts, 1, 0);
    }
    assert(size(nt) < size(Json::Array(ts)));
    lemma_key_index(es, "type"@);
    lemma_insert_size(es, "type"@, nt);
}

/// Removing null forms reports `false` exactly when nothing was removed: a `false` report
/// leaves the value as it was.
pub proof fn law_strip_false_is_identity(j: Json)
    ensures
        !strip(j).1 ==> strip(j).0 == j,
    decreases size(j), 0nat,
{
    match j {
        Json::Object(es) => {
            if !strip(j).1 {
                lemma_strip_entries_identity(es, es.len() as int);
                assert(es.take(es.len() as int) =~= es);
                assert(strip_entries(es, es.len() as int).0 == es);
                assert(!one_of_applies(es));
                assert(settle_one_of(es) == es);
                assert(!type_applies(es));
                assert(level_rewrite(es) == es);
            }
        },
        Json::Array(items) => {
            if !strip(j).1 {
                lemma_strip_items_identity(items, items.len() as int);
                assert(items.take(items.len() as int) =~= items);
            }
        },
        _ => {},
    }
}

proof fn lemma_strip_entries_identity(es: Seq<(Seq<char>, Json)>, n: int)
    requires
        0 <= n <= es.len(),
    ensures
        !strip_entries(es, n).1 ==> strip_entries(es, n).0 == es.take(n),
    decreases entries_size(es, n), 1nat,
{
    if n > 0 {
        lemma_size_positive(es[n - 1].1);
        lemma_strip_entries_identity(es, n - 1);
        law_strip_false_is_identity(es[n - 1].1);
        if !strip_entries(es, n).1 {
            assert(es.take(n) =~= es.take(n - 1).push(es[n - 1]));
        }
    } else {
        assert(es.take(0) =~= Seq::<(Seq<char>, Json)>::empty());
    }
}

proof fn lemma_strip_items_identity(items: Seq<Json>, n: int)
    requires
        0 <= n <= items.len(),
    ensures
        !strip_items(items, n).1 ==> strip_items(items, n).0 == items.take(n),
    decreases items_size(items, n), 1nat,
{
    if n > 0 {
        lemma_size_positive(items[n - 1]);
        lemma_strip_items_identity(items, n - 1);
        law_strip_false_is_identity(items[n - 1]);
        if !strip_items(items, n).1 {
            assert(items.take(n) =~= items.take(n - 1).push(items[n - 1]));
        }
    } else {
        assert(items.take(0) =~= Seq::<Json>::empty());
    }
}

// ---------------------------------------------------------------------------
// What the rewrite leaves behind.
// ---------------------------------------------------------------------------

/// Whether `p` holds of every object of the document (its entries), at any depth.
pub open spec fn every_object(j: Json, p: spec_fn(Seq<(Seq<char>, Json)>) -> bool) -> bool
    decreases size(j), 0nat,
{
    match j {
        Json::Object(es) => p(es) && every_entry(es, es.len() as int, p),
        Json::Array(items) => every_item(items, items.len() as int, p),
        _ => true,
    }
}

/// Whether `p` holds of every object inside the values of the first `n` entries.
pub open spec fn every_entry(es: Seq<(Seq<char>, Json)>, n: int, p: spec_fn(Seq<(Seq<char>, Json)>) -> bool) -> bool
    decreases entries_size(es, n), 1nat,
{
    if n <= 0 || n > es.len() {
        true
    } else {
        proof {
            lemma_size_positive(es[n - 1].1);
        }
        every_entry(es, n - 1, p) && every_object(es[n - 1].1, p)
    }
}

/// Whether `p` holds of every object inside the first `n` items.
pub open spec fn every_item(items: Seq<Json>, n: int, p: spec_fn(Seq<(Seq<char>, Json)>) -> bool) -> bool
    decreases items_size(items, n), 1nat,
{
    if n <= 0 || n > items.len() {
        true
    } else {
        proof {
            lemma_size_positive(items[n - 1]);
        }
        every_item(items, n - 1, p) && every_object(items[n - 1], p)
    }
}

proof fn lemma_every_entry(es: Seq<(Seq<char>, Json)>, n: int, p: spec_fn(Seq<(Seq<char>, Json)>) -> bool)
    requires
        0 <= n <= es.len(),
    ensures
        every_entry(es, n, p) <==> forall|i: int| 0 <= i < n ==> every_object(#[trigger] es[i].1, p),
    decreases n,
{
    if n > 0 {
        lemma_every_entry(es, n - 1, p);
    }
}

proof fn lemma_every_item(items: Seq<Json>, n: int, p: spec_fn(Seq<(Seq<char>, Json)>) -> bool)
    requires
        0 <= n <= items.len(),
    ensures
        every_item(items, n, p) <==> forall|i: int| 0 <= i < n ==> every_object(#[trigger] items[i], p),
    decreases n,
{
    if n > 0 {
        lemma_every_item(items, n - 1, p);
    }
}

proof fn lemma_strip_entries_shape(es: Seq<(Seq<char>, Json)>, n: int)
    requires
        0 <= n <= es.len(),
    ensures
        strip_entries(es, n).0.len() == n,
        forall|i: int| 0 <= i < n ==> #[trigger] strip_entries(es, n).0[i] == (es[i].0, strip(es[i].1).0),
    decreases n,
{
    if n > 0 {
        lemma_strip_entries_shape(es, n - 1);
    }
}

proof fn lemma_strip_items_shape(items: Seq<Json>, n: int)
    requires
        0 <= n <= items.len(),
    ensures
        strip_items(items, n).0.len() == n,
        forall|i: int| 0 <= i < n ==> #[trigger] strip_items(items, n).0[i] == strip(items[i]).0,
    decreases n,
{
    if n > 0 {
        lemma_strip_items_shape(items, n - 1);
    }
}

/// Two entry sequences with the same keys find a key at the same position.
proof fn lemma_key_index_same_keys(a: Seq<(Seq<char>, Json)>, b: Seq<(Seq<char>, Json)>, k: Seq<char>)
    requires
        a.len() == b.len(),
        forall|j: int| 0 <= j < a.len() ==> #[trigger] a[j].0 == b[j].0,
    ensures
        key_index(a, k) == key_index(b, k),
{
    lemma_key_index(a, k);
    lemma_key_index(b, k);
    match (key_index(a, k), key_index(b, k)) {
        (Some(i), Some(m)) => {
            assert(a[i].0 == b[i].0);
            assert(a[m].0 == b[m].0);
        },
        (Some(i), None) => {
            assert(a[i].0 == b[i].0);
        },
        (None, Some(m)) => {
            assert(a[m].0 == b[m].0);
        },
        (None, None) => {},
    }
}

/// Every entry of a merge comes from the base or from the merged entries.
proof fn lemma_merge_from(es: Seq<(Seq<char>, Json)>, more: Seq<(Seq<char>, Json)>)
    ensures
        forall|j: int|
            0 <= j < obj_merge(es, more).len() ==> es.contains(#[trigger] obj_merge(es, more)[j]) || more.contains(
                obj_merge(es, more)[j],
            ),
    decreases more.len(),
{
    if more.len() > 0 {
        let d = more.drop_last();
        let s = obj_merge(es, d);
        let e = more.last();
        lemma_merge_from(es, d);
        lemma_key_index(s, e.0);
        let r = obj_merge(es, more);
        assert(r == obj_insert(s, e.0, e.1));
        assert forall|j: int| 0 <= j < r.len() implies es.contains(#[trigger] r[j]) || more.contains(r[j]) by {
            if r[j] == e {
                assert(more[more.len() - 1] == e);
            } else {
                assert(j < s.len() && r[j] == s[j]);
                if d.contains(s[j]) {
                    let m = choose|m: int| 0 <= m < d.len() && d[m] == s[j];
                    assert(more[m] == d[m]);
                }
            }
        }
    }
}

/// The items left by dropping `"null"` are items of the array, and none is `"null"`.
proof fn lemma_drop_nulls_items(ts: Seq<Json>)
    ensures
        forall|m: int|
            0 <= m < drop_nulls(ts).len() ==> !is_null_str(#[trigger] drop_nulls(ts)[m]) && ts.contains(
                drop_nulls(ts)[m],
            ),
    decreases ts.len(),
{
    if ts.len() > 0 {
        let d = ts.drop_last();
        lemma_drop_nulls_items(d);
        let r = drop_nulls(ts);
        assert forall|m: int| 0 <= m < r.len() implies !is_null_str(#[trigger] r[m]) && ts.contains(r[m]) by {
            if m < drop_nulls(d).len() {
                assert(r[m] == drop_nulls(d)[m]);
                let q = choose|q: int| 0 <= q < d.len() && d[q] == drop_nulls(d)[m];
                assert(ts[q] == d[q]);
            } else {
                assert(r[m] == ts.last());
                assert(ts[ts.len() - 1] == ts.last());
            }
        }
    }
}

// ---------------------------------------------------------------------------
// The executable rewrite.
// ---------------------------------------------------------------------------

fn is_string_value(v: &JsonValue, s: &str) -> (r: bool)
    ensures
        r == (v@ == Json::String(s@)),
{
    match v {
        JsonValue::String(t) => str_eq(t.as_str(), s),
        _ => false,
    }
}

fn is_null_schema_value(v: &JsonValue) -> (r: bool)
    ensures
        r == is_null_schema(v@),
{
    match v {
        JsonValue::Object(es) => {
            proof {
                lemma_object_model(*es);
            }
            es.len() == 1 && str_eq(es[0].0.as_str(), "type") && is_string_value(&es[0].1, "null")
        },
        _ => false,
    }
}

/// Sets every entry of `more` over `base`, in order.
fn merge_entries(base: &mut Vec<(String, JsonValue)>, more: Vec<(String, JsonValue)>)
    ensures
        entries_model(final(base)@) == obj_merge(entries_model(old(base)@), entries_model(more@)),
{
    let ghost base0 = entries_model(base@);
    let ghost xm = entries_model(more@);
    let ghost all = more@;
    let mut rest = more;
    let ghost mut k: int = 0;
    assert(xm.take(0) =~= Seq::<(Seq<char>, Json)>::empty());
    while rest.len() > 0
        invariant
            0 <= k <= all.len(),
            rest@ == all.subrange(k, all.len() as int),
            xm == entries_model(all),
            entries_model(base@) == obj_merge(base0, xm.take(k)),
        decreases rest.len(),
    {
        let e = rest.remove(0);
        proof {
            assert(e == all[k]);
            assert(xm.take(k + 1).drop_last() =~= xm.take(k));
            assert(xm.take(k + 1).last() == (e.0@, e.1@));
        }
        insert_entry(base, e.0, e.1);
        proof {
            k = k + 1;
            assert(rest@ =~= all.subrange(k, all.len() as int));
        }
    }
    assert(xm.take(k) =~= xm);
}

/// Collapses `oneOf: [{"type": "null"}, X]` into `X`.
fn apply_one_of(es: Vec<(String, JsonValue)>) -> (r: (Vec<(String, JsonValue)>, bool))
    ensures
        entries_model(r.0@) == after_one_of(entries_model(es@)),
        r.1 == one_of_applies(entries_model(es@)),
{
    let ghost m = entries_model(es@);
    match find_key(&es, "oneOf") {
        None => (es, false),
        Some(i) => {
            proof {
                assert(obj_get(m, "oneOf"@) == Some(es@[i as int].1@));
            }
            let applies = match &es[i].1 {
                JsonValue::Array(vs) => {
                    proof {
                        lemma_array_model(*vs);
                    }
                    vs.len() == 2 && is_null_schema_value(&vs[0])
                },
                _ => false,
            };
            if !applies {
                return (es, false);
            }
            let x = match &es[i].1 {
                JsonValue::Array(vs) => {
                    proof {
                        lemma_array_model(*vs);
                    }
                    duplicate(&vs[1])
                },
                _ => JsonValue::Null,
            };
            assert(x@ == one_of_rest(m));
            let mut base = remove_entries(es, "oneOf");
            match x {
                JsonValue::Object(xe) => {
                    proof {
                        lemma_object_model(xe);
                    }
                    merge_entries(&mut base, xe);
                },
                _ => {},
            }
            (base, true)
        },
    }
}

fn any_null(ts: &Vec<JsonValue>) -> (r: bool)
    ensures
        r == exists|i: int| 0 <= i < ts@.len() && is_null_str(#[trigger] items_model(ts@)[i]),
{
    let mut i: usize = 0;
    while i < ts.len()
        invariant
            i <= ts.len(),
            forall|j: int| 0 <= j < i ==> !is_null_str(#[trigger] items_model(ts@)[j]),
        decreases ts.len() - i,
    {
        if is_string_value(&ts[i], "null") {
            assert(is_null_str(items_model(ts@)[i as int]));
            return true;
        }
        i = i + 1;
    }
    false
}

fn drop_null_items(ts: Vec<JsonValue>) -> (r: Vec<JsonValue>)
    ensures
        items_model(r@) == drop_nulls(items_model(ts@)),
{
    let ghost all = ts@;
    let ghost tm = items_model(all);
    let mut rest = ts;
    let mut out: Vec<JsonValue> = Vec::new();
    let ghost mut k: int = 0;
    assert(items_model(out@) =~= drop_nulls(tm.take(0)));
    while rest.len() > 0
        invariant
            0 <= k <= all.len(),
            rest@ == all.subrange(k, all.len() as int),
            tm == items_model(all),
            items_model(out@) == drop_nulls(tm.take(k)),
        decreases rest.len(),
    {
        let t = rest.remove(0);
        let is_null = is_string_value(&t, "null");
        proof {
            assert(t == all[k]);
            assert(tm.take(k + 1).drop_last() =~= tm.take(k));
            assert(tm.take(k + 1).last() == t@);
        }
        if !is_null {
            proof {
                crate::json::lemma_items_model_push(out@, t);
            }
            out.push(t);
        }
        proof {
            k = k + 1;
            assert(rest@ =~= all.subrange(k, all.len() as int));
        }
    }
    assert(tm.take(k) =~= tm);
    out
}

/// Drops `"null"` from a `type` array.
fn apply_type(es: Vec<(String, JsonValue)>) -> (r: (Vec<(String, JsonValue)>, bool))
    ensures
        entries_model(r.0@) == after_type(entries_model(es@)),
        r.1 == type_applies(entries_model(es@)),
{
    let ghost m = entries_model(es@);
    match find_key(&es, "type") {
        None => (es, false),
        Some(i) => {
            proof {
                assert(obj_get(m, "type"@) == Some(es@[i as int].1@));
            }
            let has_null = match &es[i].1 {
                JsonValue::Array(ts) => {
                    proof {
                        lemma_array_model(*ts);
                    }
                    any_null(ts)
                },
                _ => false,
            };
            if !has_null {
                return (es, false);
            }
            let t = duplicate(&es[i].1);
            let mut es = es;
            match t {
                JsonValue::Array(ts) => {
                    proof {
                        lemma_array_model(ts);
                    }
                    let mut kept = drop_null_items(ts);
                    if kept.len() == 1 {
                        let only = kept.remove(0);
                        insert_entry(&mut es, "type".to_owned(), only);
                    } else {
                        proof {
                            lemma_array_model(kept);
                        }
                        insert_entry(&mut es, "type".to_owned(), JsonValue::Array(kept));
                    }
                    (es, true)
                },
                _ => (es, false),
            }
        },
    }
}

/// Collapses every nullable `oneOf` of a level; reports whether there was one.
fn settle_one_of_entries(es: Vec<(String, JsonValue)>) -> (r: (Vec<(String, JsonValue)>, bool))
    ensures
        entries_model(r.0@) == settle_one_of(entries_model(es@)),
        r.1 == one_of_applies(entries_model(es@)),
    decreases total(entries_model(es@)),
{
    let ghost m = entries_model(es@);
    let (next, applied) = apply_one_of(es);
    if applied {
        proof {
            lemma_after_one_of_smaller(m);
        }
        let (settled, _) = settle_one_of_entries(next);
        (settled, true)
    } else {
        (next, false)
    }
}

/// Drops every `"null"` from the `type` entry of a level; reports whether there was one.
fn settle_types_entries(es: Vec<(String, JsonValue)>) -> (r: (Vec<(String, JsonValue)>, bool))
    ensures
        entries_model(r.0@) == settle_types(entries_model(es@)),
        r.1 == type_applies(entries_model(es@)),
    decreases total(entries_model(es@)),
{
    let ghost m = entries_model(es@);
    let (next, applied) = apply_type(es);
    if applied {
        proof {
            lemma_after_type_smaller(m);
        }
        let (settled, _) = settle_types_entries(next);
        (settled, true)
    } else {
        (next, false)
    }
}

#[verifier::loop_isolation(false)]
fn strip_owned(v: JsonValue) -> (r: (JsonValue, bool))
    ensures
        (r.0@, r.1) == strip(v@),
    decreases size(v@),
{
    let ghost j = v@;
    match v {
        JsonValue::Object(es) => {
            proof {
                lemma_object_model(es);
            }
            let ghost m = entries_model(es@);
            let ghost all = es@;
            let mut rest = es;
            let mut out: Vec<(String, JsonValue)> = Vec::new();
            let mut flag = false;
            let ghost mut k: int = 0;
            assert(entries_model(out@) =~= strip_entries(m, 0).0);
            while rest.len() > 0
                invariant
                    0 <= k <= all.len(),
                    rest@ == all.subrange(k, all.len() as int),
                    m == entries_model(all),
                    j == Json::Object(m),
                    (entries_model(out@), flag) == strip_entries(m, k),
                decreases rest.len(),
            {
                let e = rest.remove(0);
                proof {
                    assert(e == all[k]);
                    assert(m[k] == (e.0@, e.1@));
                    lemma_entry_below(m, m.len() as int, k);
                    assert(size(j) == 1 + total(m));
                    assert(size(e.1@) < size(j));
                }
                let (nv, rv) = strip_owned(e.1);
                proof {
                    crate::json::lemma_entries_model_push(out@, (e.0, nv));
                }
                out.push((e.0, nv));
                flag = flag || rv;
                proof {
                    k = k + 1;
                    assert(rest@ =~= all.subrange(k, all.len() as int));
                }
            }
            let (s1, r1) = settle_one_of_entries(out);
            let (s2, r2) = settle_types_entries(s1);
            proof {
                lemma_object_model(s2);
            }
            (JsonValue::Object(s2), flag || r1 || r2)
        },
        JsonValue::Array(items) => {
            proof {
                lemma_array_model(items);
            }
            let ghost im = items_model(items@);
            let ghost all = items@;
            let mut rest = items;
            let mut out: Vec<JsonValue> = Vec::new();
            let mut flag = false;
            let ghost mut k: int = 0;
            assert(items_model(out@) =~= strip_items(im, 0).0);
            while rest.len() > 0
                invariant
                    0 <= k <= all.len(),
                    rest@ == all.subrange(k, all.len() as int),
                    im == items_model(all),
                    j == Json::Array(im),
                    (items_model(out@), flag) == strip_items(im, k),
                decreases rest.len(),
            {
                let x = rest.remove(0);
                proof {
                    assert(x == all[k]);
                    assert(im[k] == x@);
                    lemma_item_below(im, im.len() as int, k);
                    assert(size(j) == 1 + items_total(im));
                    assert(size(x@) < size(j));
                }
                let (nx, rx) = strip_owned(x);
                proof {
                    crate::json::lemma_items_model_push(out@, nx);
                }
                out.push(nx);
                flag = flag || rx;
                proof {
                    k = k + 1;
                    assert(rest@ =~= all.subrange(k, all.len() as int));
                }
            }
            proof {
                lemma_array_model(out);
            }
            (JsonValue::Array(out), flag)
        },
        other => (other, false),
    }
}

/// Removes the nullable forms in place (see [`strip`]); returns whether any was removed.
pub fn strip_null(value: &mut JsonValue) -> (removed: bool)
    ensures
        (final(value)@, removed) == strip(old(value)@),
        removed == (final(value)@ != old(value)@),
{
    proof {
        law_strip_reports_change(value@);
    }
    let mut v = JsonValue::Null;
    std::mem::swap(value, &mut v);
    let (nv, removed) = strip_owned(v);
    *value = nv;
    removed
}


// ---------------------------------------------------------------------------
// Parameters: a parameter whose schema lost a null form is no longer required.
// ---------------------------------------------------------------------------

/// A parameter with its `schema` rewritten; when that removed a null form, a present
/// `required` becomes `false`.
pub open spec fn fix_param(p: Json) -> Json {
    match p {
        Json::Object(es) => match obj_get(es, "schema"@) {
            Some(sc) => {
                let es1 = obj_insert(es, "schema"@, strip(sc).0);
                if strip(sc).1 && obj_get(es1, "required"@) is Some {
                    Json::Object(obj_insert(es1, "required"@, Json::Bool(false)))
                } else {
                    Json::Object(es1)
                }
            },
            None => p,
        },
        _ => p,
    }
}

/// An operation with each of its `parameters` fixed.
pub open spec fn fix_op(op: Json) -> Json {
    match op {
        Json::Object(es) => match obj_get(es, "parameters"@) {
            Some(Json::Array(ps)) => Json::Object(
                obj_insert(es, "parameters"@, Json::Array(ps.map_values(|x: Json| fix_param(x)))),
            ),
            _ => op,
        },
        _ => op,
    }
}

/// A path item with each of its operations fixed.
pub open spec fn fix_item(item: Json) -> Json {
    match item {
        Json::Object(es) => Json::Object(
            es.map_values(|e: (Seq<char>, Json)| (e.0, fix_op(e.1))),
        ),
        _ => item,
    }
}

/// The document with the parameters of every operation under `paths` fixed.
pub open spec fn fix_paths(doc: Json) -> Json {
    match doc {
        Json::Object(es) => match obj_get(es, "paths"@) {
            Some(Json::Object(pes)) => Json::Object(
                obj_insert(
                    es,
                    "paths"@,
                    Json::Object(pes.map_values(|e: (Seq<char>, Json)| (e.0, fix_item(e.1)))),
                ),
            ),
            _ => doc,
        },
        _ => doc,
    }
}

/// Setting a key makes it read back as the value set.
proof fn lemma_get_insert(es: Seq<(Seq<char>, Json)>, k: Seq<char>, v: Json)
    ensures
        obj_get(obj_insert(es, k, v), k) == Some(v),
{
    lemma_key_index(es, k);
    let r = obj_insert(es, k, v);
    lemma_key_index(r, k);
    match key_index(es, k) {
        Some(i) => {
            lemma_key_index_same_keys(r, es, k);
        },
        None => {
            match key_index(r, k) {
                Some(m) => {
                    if m < es.len() {
                        assert(r[m] == es[m]);
                    }
                },
                None => {
                    assert(r[es.len() as int].0 == k);
                },
            }
        },
    }
}

/// Setting a key leaves what another key reads.
proof fn lemma_get_insert_other(es: Seq<(Seq<char>, Json)>, k: Seq<char>, v: Json, k2: Seq<char>)
    requires
        k2 != k,
    ensures
        obj_get(obj_insert(es, k, v), k2) == obj_get(es, k2),
{
    lemma_key_index(es, k);
    lemma_key_index(es, k2);
    let r = obj_insert(es, k, v);
    lemma_key_index(r, k2);
    match key_index(es, k) {
        Some(i) => {
            lemma_key_index_same_keys(r, es, k2);
            if key_index(es, k2) is Some {
                let j = key_index(es, k2)->0;
                assert(j != i);
                assert(r[j] == es[j]);
            }
        },
        None => {
            assert(r == es.push((k, v)));
            match (key_index(es, k2), key_index(r, k2)) {
                (Some(j), Some(m)) => {
                    assert(r[j] == es[j]);
                    if m < es.len() {
                        assert(r[m] == es[m]);
                    }
                },
                (Some(j), None) => {
                    assert(r[j] == es[j]);
                },
                (None, Some(m)) => {
                    if m < es.len() {
                        assert(r[m] == es[m]);
                    }
                },
                (None, None) => {},
            }
        },
    }
}

/// The `m`-th parameter of the `k`-th operation of the `i`-th path item of a document.
pub open spec fn param_at(doc: Json, i: int, k: int, m: int) -> Option<Json> {
    match doc {
        Json::Object(es) => match obj_get(es, "paths"@) {
            Some(Json::Object(pes)) => if 0 <= i < pes.len() {
                match pes[i].1 {
                    Json::Object(ops) => if 0 <= k < ops.len() {
                        match ops[k].1 {
                            Json::Object(oes) => match obj_get(oes, "parameters"@) {
                                Some(Json::Array(ps)) => if 0 <= m < ps.len() {
                                    Some(ps[m])
                                } else {
                                    None
                                },
                                _ => None,
                            },
                            _ => None,
                        }
                    } else {
                        None
                    },
                    _ => None,
                }
            } else {
                None
            },
            _ => None,
        },
        _ => None,
    }
}

/// Every parameter of every operation of every path item is fixed: a parameter whose schema
/// held a null form has that form removed from its schema, and its `required`, when present,
/// becomes `false`; it stays at its place.
pub proof fn law_fix_paths_reaches_every_parameter(doc: Json, i: int, k: int, m: int, pe: Seq<(Seq<char>, Json)>)
    requires
        param_at(doc, i, k, m) == Some(Json::Object(pe)),
        obj_get(pe, "schema"@) is Some,
        strip(obj_get(pe, "schema"@)->0).1,
    ensures
        param_at(fix_paths(doc), i, k, m) matches Some(Json::Object(pe2)) && obj_get(pe2, "schema"@) == Some(
            strip(obj_get(pe, "schema"@)->0).0,
        ) && (obj_get(pe, "required"@) is Some ==> obj_get(pe2, "required"@) == Some(Json::Bool(false))),
{
    reveal_strlit("paths");
    reveal_strlit("parameters");
    reveal_strlit("schema");
    reveal_strlit("required");
    assert("schema"@.len() == 6 && "required"@.len() == 8);
    let es = doc->Object_0;
    let pes = obj_get(es, "paths"@)->0->Object_0;
    let ops = pes[i].1->Object_0;
    let oes = ops[k].1->Object_0;
    let ps = obj_get(oes, "parameters"@)->0->Array_0;
    let pes2 = pes.map_values(|e: (Seq<char>, Json)| (e.0, fix_item(e.1)));
    lemma_get_insert(es, "paths"@, Json::Object(pes2));
    assert(pes2[i] == (pes[i].0, fix_item(pes[i].1)));
    let ops2 = ops.map_values(|e: (Seq<char>, Json)| (e.0, fix_op(e.1)));
    assert(fix_item(pes[i].1) == Json::Object(ops2));
    assert(ops2[k] == (ops[k].0, fix_op(ops[k].1)));
    let ps2 = ps.map_values(|x: Json| fix_param(x));
    lemma_get_insert(oes, "parameters"@, Json::Array(ps2));
    assert(fix_op(ops[k].1) == Json::Object(obj_insert(oes, "parameters"@, Json::Array(ps2))));
    assert(ps2[m] == fix_param(ps[m]));
    let sc = obj_get(pe, "schema"@)->0;
    let es1 = obj_insert(pe, "schema"@, strip(sc).0);
    lemma_get_insert(pe, "schema"@, strip(sc).0);
    lemma_get_insert_other(pe, "schema"@, strip(sc).0, "required"@);
    if obj_get(es1, "required"@) is Some {
        lemma_get_insert(es1, "required"@, Json::Bool(false));
        lemma_get_insert_other(es1, "required"@, Json::Bool(false), "schema"@);
    }
}

/// The document under the wire discipline: parameters fixed, then every null form removed.
pub open spec fn wire_discipline(doc: Json) -> Json {
    strip(fix_paths(doc)).0
}

/// The objects without any nullable form at their own level.
pub open spec fn without_null_forms() -> spec_fn(Seq<(Seq<char>, Json)>) -> bool {
    |es: Seq<(Seq<char>, Json)>| !one_of_applies(es) && !type_applies(es)
}

/// Whether `p` holds of every object inside every value of the entries.
pub open spec fn values_every(es: Seq<(Seq<char>, Json)>, p: spec_fn(Seq<(Seq<char>, Json)>) -> bool) -> bool {
    forall|i: int| 0 <= i < es.len() ==> every_object(#[trigger] es[i].1, p)
}

/// Whatever holds of every object inside the values, collapsing `oneOf` keeps.
proof fn lemma_after_one_of_values(es: Seq<(Seq<char>, Json)>, p: spec_fn(Seq<(Seq<char>, Json)>) -> bool)
    requires
        values_every(es, p),
    ensures
        values_every(after_one_of(es), p),
{
    let e1 = after_one_of(es);
    if one_of_applies(es) {
        let k = key_index(es, "oneOf"@)->0;
        lemma_key_index(es, "oneOf"@);
        let vs = es[k].1->Array_0;
        assert(every_object(es[k].1, p));
        lemma_every_item(vs, vs.len() as int, p);
        assert(every_object(vs[1], p));
        let r = obj_remove(es, "oneOf"@);
        lemma_remove_size(es, "oneOf"@);
        match one_of_rest(es) {
            Json::Object(xe) => {
                lemma_every_entry(xe, xe.len() as int, p);
                lemma_merge_from(r, xe);
                assert forall|i: int| 0 <= i < e1.len() implies every_object(#[trigger] e1[i].1, p) by {
                    if r.contains(e1[i]) {
                        let m = choose|m: int| 0 <= m < r.len() && r[m] == e1[i];
                        let q = choose|q: int| 0 <= q < es.len() && es[q] == r[m];
                        assert(every_object(es[q].1, p));
                    } else {
                        let m = choose|m: int| 0 <= m < xe.len() && xe[m] == e1[i];
                        assert(every_object(xe[m].1, p));
                    }
                }
            },
            _ => {
                assert forall|i: int| 0 <= i < e1.len() implies every_object(#[trigger] e1[i].1, p) by {
                    let q = choose|q: int| 0 <= q < es.len() && es[q] == r[i];
                    assert(every_object(es[q].1, p));
                }
            },
        }
    }
}

/// Whatever holds of every object inside the values, dropping `"null"` from `type` keeps;
/// and it leaves the `oneOf` entry as it was.
proof fn lemma_after_type_values(es: Seq<(Seq<char>, Json)>, p: spec_fn(Seq<(Seq<char>, Json)>) -> bool)
    requires
        values_every(es, p),
    ensures
        values_every(after_type(es), p),
        obj_get(after_type(es), "oneOf"@) == obj_get(es, "oneOf"@),
{
    let e2 = after_type(es);
    if type_applies(es) {
        lemma_key_index(es, "type"@);
        let i = key_index(es, "type"@)->0;
        let ts = es[i].1->Array_0;
        assert(every_object(es[i].1, p));
        lemma_every_item(ts, ts.len() as int, p);
        let dts = drop_nulls(ts);
        lemma_drop_nulls_items(ts);
        assert forall|m: int| 0 <= m < dts.len() implies every_object(#[trigger] dts[m], p) by {
            let q = choose|q: int| 0 <= q < ts.len() && ts[q] == dts[m];
            assert(every_object(ts[q], p));
        }
        lemma_every_item(dts, dts.len() as int, p);
        let nt = type_without_null(es);
        assert(every_object(nt, p));
        assert(e2 == es.update(i, ("type"@, nt)));
        assert forall|j: int| 0 <= j < e2.len() implies every_object(#[trigger] e2[j].1, p) by {
            if j != i {
                assert(e2[j] == es[j]);
            }
        }
        lemma_key_index_same_keys(e2, es, "oneOf"@);
        lemma_key_index(es, "oneOf"@);
        if key_index(es, "oneOf"@) is Some {
            let k = key_index(es, "oneOf"@)->0;
            reveal_strlit("oneOf");
            reveal_strlit("type");
            assert("oneOf"@.len() == 5 && "type"@.len() == 4);
            assert(k != i);
            assert(e2[k] == es[k]);
        }
    }
}

/// Collapsing every nullable `oneOf` of a level leaves none there, and keeps whatever holds of
/// every object inside the values.
proof fn lemma_settle_one_of_values(es: Seq<(Seq<char>, Json)>, p: spec_fn(Seq<(Seq<char>, Json)>) -> bool)
    requires
        values_every(es, p),
    ensures
        values_every(settle_one_of(es), p),
        !one_of_applies(settle_one_of(es)),
    decreases total(es),
{
    if one_of_applies(es) {
        lemma_after_one_of_smaller(es);
        lemma_after_one_of_values(es, p);
        lemma_settle_one_of_values(after_one_of(es), p);
    }
}

/// Dropping every `"null"` from `type` leaves none there, keeps the `oneOf` entry, and keeps
/// whatever holds of every object inside the values.
proof fn lemma_settle_types_values(es: Seq<(Seq<char>, Json)>, p: spec_fn(Seq<(Seq<char>, Json)>) -> bool)
    requires
        values_every(es, p),
    ensures
        values_every(settle_types(es), p),
        !type_applies(settle_types(es)),
        obj_get(settle_types(es), "oneOf"@) == obj_get(es, "oneOf"@),
    decreases total(es),
{
    if type_applies(es) {
        lemma_after_type_smaller(es);
        lemma_after_type_values(es, p);
        lemma_settle_types_values(after_type(es), p);
    }
}

/// Removing null forms leaves none anywhere: no `oneOf: [{"type": "null"}, X]` and no `type`
/// array that holds `"null"`, in any object of the document.
pub proof fn law_strip_leaves_no_null_forms(j: Json)
    ensures
        every_object(strip(j).0, without_null_forms()),
    decreases size(j),
{
    let q = without_null_forms();
    match j {
        Json::Object(es) => {
            let n = es.len() as int;
            lemma_strip_entries_shape(es, n);
            let cs = strip_entries(es, n).0;
            assert forall|i: int| 0 <= i < n implies every_object(#[trigger] cs[i].1, q) by {
                lemma_entry_below(es, n, i);
                law_strip_leaves_no_null_forms(es[i].1);
            }
            assert(values_every(cs, q));
            lemma_settle_one_of_values(cs, q);
            let s1 = settle_one_of(cs);
            lemma_settle_types_values(s1, q);
            let f = level_rewrite(cs);
            assert(strip(j).0 == Json::Object(f));
            assert(!one_of_applies(f));
            lemma_every_entry(f, f.len() as int, q);
        },
        Json::Array(items) => {
            let n = items.len() as int;
            lemma_strip_items_shape(items, n);
            let cs = strip_items(items, n).0;
            assert forall|i: int| 0 <= i < n implies every_object(#[trigger] cs[i], q) by {
                lemma_item_below(items, n, i);
                law_strip_leaves_no_null_forms(items[i]);
            }
            lemma_every_item(cs, n, q);
        },
        _ => {},
    }
}

/// The wire discipline leaves no null form anywhere in the document.
pub proof fn law_wire_discipline_leaves_no_null_forms(doc: Json)
    ensures
        every_object(wire_discipline(doc), without_null_forms()),
{
    law_strip_leaves_no_null_forms(fix_paths(doc));
}

proof fn lemma_entries_unchanged(es: Seq<(Seq<char>, Json)>, n: int)
    requires
        0 <= n <= es.len(),
        forall|i: int| 0 <= i < n ==> !(#[trigger] strip(es[i].1)).1,
    ensures
        !strip_entries(es, n).1,
    decreases n,
{
    if n > 0 {
        lemma_entries_unchanged(es, n - 1);
        assert(!strip(es[n - 1].1).1);
    }
}

proof fn lemma_items_unchanged(items: Seq<Json>, n: int)
    requires
        0 <= n <= items.len(),
        forall|i: int| 0 <= i < n ==> !(#[trigger] strip(items[i])).1,
    ensures
        !strip_items(items, n).1,
    decreases n,
{
    if n > 0 {
        lemma_items_unchanged(items, n - 1);
        assert(!strip(items[n - 1]).1);
    }
}

proof fn lemma_settle_one_of_size(es: Seq<(Seq<char>, Json)>)
    ensures
        total(settle_one_of(es)) <= total(es),
        one_of_applies(es) ==> total(settle_one_of(es)) < total(es),
    decreases total(es),
{
    if one_of_applies(es) {
        lemma_after_one_of_smaller(es);
        lemma_settle_one_of_size(after_one_of(es));
    }
}

proof fn lemma_settle_types_size(es: Seq<(Seq<char>, Json)>)
    ensures
        total(settle_types(es)) <= total(es),
        type_applies(es) ==> total(settle_types(es)) < total(es),
    decreases total(es),
{
    if type_applies(es) {
        lemma_after_type_smaller(es);
        lemma_settle_types_size(after_type(es));
    }
}

/// Removing null forms never makes a value larger, and makes it smaller when it removes one.
proof fn lemma_strip_size(j: Json)
    ensures
        size(strip(j).0) <= size(j),
        strip(j).1 ==> size(strip(j).0) < size(j),
    decreases size(j), 0nat,
{
    match j {
        Json::Object(es) => {
            let n = es.len() as int;
            lemma_strip_entries_size(es, n);
            lemma_strip_entries_shape(es, n);
            let cs = strip_entries(es, n).0;
            lemma_settle_one_of_size(cs);
            lemma_settle_types_size(settle_one_of(cs));
        },
        Json::Array(items) => {
            let n = items.len() as int;
            lemma_strip_items_size(items, n);
            lemma_strip_items_shape(items, n);
        },
        _ => {},
    }
}

proof fn lemma_strip_entries_size(es: Seq<(Seq<char>, Json)>, n: int)
    requires
        0 <= n <= es.len(),
    ensures
        entries_size(strip_entries(es, n).0, n) <= entries_size(es, n),
        strip_entries(es, n).1 ==> entries_size(strip_entries(es, n).0, n) < entries_size(es, n),
    decreases entries_size(es, n), 1nat,
{
    if n > 0 {
        lemma_size_positive(es[n - 1].1);
        lemma_entry_below(es, n, n - 1);
        lemma_strip_entries_size(es, n - 1);
        lemma_strip_size(es[n - 1].1);
        lemma_strip_entries_shape(es, n - 1);
        let p = strip_entries(es, n - 1).0;
        let x = (es[n - 1].0, strip(es[n - 1].1).0);
        crate::json::lemma_entries_prefix(p, seq![x], n - 1);
        assert(p.push(x) == p + seq![x]);
    }
}

proof fn lemma_strip_items_size(items: Seq<Json>, n: int)
    requires
        0 <= n <= items.len(),
    ensures
        items_size(strip_items(items, n).0, n) <= items_size(items, n),
        strip_items(items, n).1 ==> items_size(strip_items(items, n).0, n) < items_size(items, n),
    decreases items_size(items, n), 1nat,
{
    if n > 0 {
        lemma_size_positive(items[n - 1]);
        lemma_item_below(items, n, n - 1);
        lemma_strip_items_size(items, n - 1);
        lemma_strip_size(items[n - 1]);
        lemma_strip_items_shape(items, n - 1);
        let p = strip_items(items, n - 1).0;
        let x = strip(items[n - 1]).0;
        crate::json::lemma_items_prefix(p, seq![x], n - 1);
        assert(p.push(x) == p + seq![x]);
    }
}

/// Removing null forms reports `true` exactly when it changed the value.
pub proof fn law_strip_reports_change(j: Json)
    ensures
        strip(j).1 == (strip(j).0 != j),
{
    lemma_strip_size(j);
    law_strip_false_is_identity(j);
}

/// A document without any nullable form has nothing removed.
proof fn lemma_nothing_to_remove(j: Json)
    requires
        every_object(j, without_null_forms()),
    ensures
        !strip(j).1,
    decreases size(j),
{
    let p = without_null_forms();
    match j {
        Json::Object(es) => {
            let n = es.len() as int;
            lemma_every_entry(es, n, p);
            assert(!one_of_applies(es) && !type_applies(es));
            assert forall|i: int| 0 <= i < n implies !(#[trigger] strip(es[i].1)).1 by {
                lemma_entry_below(es, n, i);
                lemma_nothing_to_remove(es[i].1);
            }
            lemma_entries_unchanged(es, n);
            lemma_strip_entries_identity(es, n);
            assert(es.take(n) =~= es);
            assert(settle_one_of(es) == es);
        },
        Json::Array(items) => {
            let n = items.len() as int;
            lemma_every_item(items, n, p);
            assert forall|i: int| 0 <= i < n implies !(#[trigger] strip(items[i])).1 by {
                lemma_item_below(items, n, i);
                lemma_nothing_to_remove(items[i]);
            }
            lemma_items_unchanged(items, n);
        },
        _ => {},
    }
}

/// Removing null forms a second time removes nothing and changes nothing.
pub proof fn law_strip_is_idempotent(j: Json)
    ensures
        !strip(strip(j).0).1,
        strip(strip(j).0).0 == strip(j).0,
{
    law_strip_leaves_no_null_forms(j);
    lemma_nothing_to_remove(strip(j).0);
    law_strip_false_is_identity(strip(j).0);
}

fn fix_param_value(p: JsonValue) -> (r: JsonValue)
    ensures
        r@ == fix_param(p@),
{
    match p {
        JsonValue::Object(es) => {
            proof {
                lemma_object_model(es);
            }
            let ghost m = entries_model(es@);
            let mut es = es;
            match find_key(&es, "schema") {
                None => {
                    proof {
                        lemma_object_model(es);
                    }
                    JsonValue::Object(es)
                },
                Some(i) => {
                    let sc = duplicate(&es[i].1);
                    assert(obj_get(m, "schema"@) == Some(sc@));
                    let (s2, removed) = strip_owned(sc);
                    insert_entry(&mut es, "schema".to_owned(), s2);
                    if removed {
                        if find_key(&es, "required").is_some() {
                            insert_entry(&mut es, "required".to_owned(), JsonValue::Bool(false));
                        }
                    }
                    proof {
                        lemma_object_model(es);
                    }
                    JsonValue::Object(es)
                },
            }
        },
        other => other,
    }
}

fn map_fix_param(ps: Vec<JsonValue>) -> (r: Vec<JsonValue>)
    ensures
        items_model(r@) == items_model(ps@).map_values(|x: Json| fix_param(x)),
{
    let ghost all = ps@;
    let ghost pm = items_model(all);
    let mut rest = ps;
    let mut out: Vec<JsonValue> = Vec::new();
    let ghost mut k: int = 0;
    assert(items_model(out@) =~= pm.take(0).map_values(|x: Json| fix_param(x)));
    while rest.len() > 0
        invariant
            0 <= k <= all.len(),
            rest@ == all.subrange(k, all.len() as int),
            pm == items_model(all),
            items_model(out@) == pm.take(k).map_values(|x: Json| fix_param(x)),
        decreases rest.len(),
    {
        let x = rest.remove(0);
        assert(x == all[k]);
        let y = fix_param_value(x);
        proof {
            crate::json::lemma_items_model_push(out@, y);
            assert(pm.take(k + 1).map_values(|x: Json| fix_param(x)) =~= pm.take(k).map_values(
                |x: Json| fix_param(x),
            ).push(y@));
        }
        out.push(y);
        proof {
            k = k + 1;
            assert(rest@ =~= all.subrange(k, all.len() as int));
        }
    }
    assert(pm.take(k) =~= pm);
    out
}

fn fix_op_value(op: JsonValue) -> (r: JsonValue)
    ensures
        r@ == fix_op(op@),
{
    match op {
        JsonValue::Object(es) => {
            proof {
                lemma_object_model(es);
            }
            let ghost m = entries_model(es@);
            let mut es = es;
            match find_key(&es, "parameters") {
                None => {
                    proof {
                        lemma_object_model(es);
                    }
                    JsonValue::Object(es)
                },
                Some(i) => {
                    let pv = duplicate(&es[i].1);
                    assert(obj_get(m, "parameters"@) == Some(pv@));
                    match pv {
                        JsonValue::Array(ps) => {
                            proof {
                                lemma_array_model(ps);
                            }
                            let fixed = map_fix_param(ps);
                            proof {
                                lemma_array_model(fixed);
                            }
                            insert_entry(&mut es, "parameters".to_owned(), JsonValue::Array(fixed));
                            proof {
                                lemma_object_model(es);
                            }
                            JsonValue::Object(es)
                        },
                        _ => {
                            proof {
                                lemma_object_model(es);
                            }
                            JsonValue::Object(es)
                        },
                    }
                },
            }
        },
        other => other,
    }
}

fn map_fix_ops(es: Vec<(String, JsonValue)>) -> (r: Vec<(String, JsonValue)>)
    ensures
        entries_model(r@) == entries_model(es@).map_values(
            |e: (Seq<char>, Json)| (e.0, fix_op(e.1)),
        ),
{
    let ghost all = es@;
    let ghost em = entries_model(all);
    let ghost f = |e: (Seq<char>, Json)| (e.0, fix_op(e.1));
    let mut rest = es;
    let mut out: Vec<(String, JsonValue)> = Vec::new();
    let ghost mut k: int = 0;
    assert(entries_model(out@) =~= em.take(0).map_values(f));
    while rest.len() > 0
        invariant
            0 <= k <= all.len(),
            rest@ == all.subrange(k, all.len() as int),
            em == entries_model(all),
            f == |e: (Seq<char>, Json)| (e.0, fix_op(e.1)),
            entries_model(out@) == em.take(k).map_values(f),
        decreases rest.len(),
    {
        let e = rest.remove(0);
        assert(e == all[k]);
        let y = fix_op_value(e.1);
        proof {
            crate::json::lemma_entries_model_push(out@, (e.0, y));
            assert(em.take(k + 1).map_values(f) =~= em.take(k).map_values(f).push((e.0@, y@)));
        }
        out.push((e.0, y));
        proof {
            k = k + 1;
            assert(rest@ =~= all.subrange(k, all.len() as int));
        }
    }
    assert(em.take(k) =~= em);
    out
}

fn map_fix_items(es: Vec<(String, JsonValue)>) -> (r: Vec<(String, JsonValue)>)
    ensures
        entries_model(r@) == entries_model(es@).map_values(
            |e: (Seq<char>, Json)| (e.0, fix_item(e.1)),
        ),
{
    let ghost all = es@;
    let ghost em = entries_model(all);
    let ghost f = |e: (Seq<char>, Json)| (e.0, fix_item(e.1));
    let mut rest = es;
    let mut out: Vec<(String, JsonValue)> = Vec::new();
    let ghost mut k: int = 0;
    assert(entries_model(out@) =~= em.take(0).map_values(f));
    while rest.len() > 0
        invariant
            0 <= k <= all.len(),
            rest@ == all.subrange(k, all.len() as int),
            em == entries_model(all),
            f == |e: (Seq<char>, Json)| (e.0, fix_item(e.1)),
            entries_model(out@) == em.take(k).map_values(f),
        decreases rest.len(),
    {
        let e = rest.remove(0);
        assert(e == all[k]);
        let y = fix_item_value(e.1);
        proof {
            crate::json::lemma_entries_model_push(out@, (e.0, y));
            assert(em.take(k + 1).map_values(f) =~= em.take(k).map_values(f).push((e.0@, y@)));
        }
        out.push((e.0, y));
        proof {
            k = k + 1;
            assert(rest@ =~= all.subrange(k, all.len() as int));
        }
    }
    assert(em.take(k) =~= em);
    out
}

fn fix_item_value(item: JsonValue) -> (r: JsonValue)
    ensures
        r@ == fix_item(item@),
{
    match item {
        JsonValue::Object(es) => {
            proof {
                lemma_object_model(es);
            }
            let fixed = map_fix_ops(es);
            proof {
                lemma_object_model(fixed);
            }
            JsonValue::Object(fixed)
        },
        other => other,
    }
}

fn fix_paths_value(doc: JsonValue) -> (r: JsonValue)
    ensures
        r@ == fix_paths(doc@),
{
    match doc {
        JsonValue::Object(es) => {
            proof {
                lemma_object_model(es);
            }
            let ghost m = entries_model(es@);
            let mut es = es;
            match find_key(&es, "paths") {
                None => {
                    proof {
                        lemma_object_model(es);
                    }
                    JsonValue::Object(es)
                },
                Some(i) => {
                    let pv = duplicate(&es[i].1);
                    assert(obj_get(m, "paths"@) == Some(pv@));
                    match pv {
                        JsonValue::Object(pes) => {
                            proof {
                                lemma_object_model(pes);
                            }
                            let fixed = map_fix_items(pes);
                            proof {
                                lemma_object_model(fixed);
                            }
                            insert_entry(&mut es, "paths".to_owned(), JsonValue::Object(fixed));
                            proof {
                                lemma_object_model(es);
                            }
                            JsonValue::Object(es)
                        },
                        _ => {
                            proof {
                                lemma_object_model(es);
                            }
                            JsonValue::Object(es)
                        },
                    }
                },
            }
        },
        other => other,
    }
}

/// Applies the wire discipline in place: under `paths`, every operation parameter whose
/// `schema` held a null form has it removed and, if `required` is present, gets
/// `required: false`; then every null form of the whole document is removed.
pub fn enforce_wire_discipline(value: &mut JsonValue)
    ensures
        final(value)@ == wire_discipline(old(value)@),
{
    let mut v = JsonValue::Null;
    std::mem::swap(value, &mut v);
    let fixed = fix_paths_value(v);
    let (out, _removed) = strip_owned(fixed);
    *value = out;
}


// ---------------------------------------------------------------------------
// Expansion of `#/components/schemas/<name>` references.
// ---------------------------------------------------------------------------

/// The depth bound of reference expansion (a guard against cyclic references).
pub const MAX_DEREF_DEPTH: usize = 32;

/// The only reference form that is expanded.
pub open spec fn schema_ref_prefix() -> Seq<char> {
    "#/components/schemas/"@
}

/// The message when the depth bound is passed.
pub open spec fn too_deep_text() -> Seq<char> {
    "工具 Schema $ref 解引用超深（疑似循环引用）"@
}

/// The message for a reference of another form.
pub open spec fn unsupported_ref_text(path: Seq<char>) -> Seq<char> {
    "不支持的 $ref 形态："@ + path
}

/// The message for a reference to a missing component.
pub open spec fn missing_target_text(name: Seq<char>) -> Seq<char> {
    "$ref 目标不存在："@ + name
}

/// The component `name` of the `components` value.
pub open spec fn component(components: Json, name: Seq<char>) -> Option<Json> {
    match components {
        Json::Object(ces) => obj_get(ces, name),
        _ => None,
    }
}

/// Expands references at depth `depth`: the value reached and the error, if any.
///
/// Past the depth bound the value is left as it is with an error. An object with a string
/// `$ref` of the form `#/components/schemas/<name>` is replaced by the expansion of that
/// component (one level deeper), with the object's other keys, their values expanded one level
/// deeper, set over it when it is an object; a reference of another form, or to a missing
/// component, or an error in the component or in the other keys, leaves the object as it is. Every other object has its values expanded one level deeper, in
/// order, stopping at the first error (the values before it stay expanded, the ones after
/// it stay as they were); arrays likewise.
pub open spec fn expand_refs(j: Json, components: Json, depth: int) -> (Json, Option<Seq<char>>)
    decreases (MAX_DEREF_DEPTH + 1 - depth) as nat, 0int,
{
    if depth > MAX_DEREF_DEPTH {
        (j, Some(too_deep_text()))
    } else {
        match j {
            Json::Object(es) => match obj_get(es, "$ref"@) {
                Some(Json::String(path)) => {
                    let p = schema_ref_prefix();
                    if path.len() < p.len() || path.subrange(0, p.len() as int) != p {
                        (j, Some(unsupported_ref_text(path)))
                    } else {
                        let name = path.subrange(p.len() as int, path.len() as int);
                        match component(components, name) {
                            None => (j, Some(missing_target_text(name))),
                            Some(t) => {
                                let (t2, e) = expand_refs(t, components, depth + 1);
                                if e is Some {
                                    (j, e)
                                } else {
                                    let rest = obj_remove(es, "$ref"@);
                                    let (sib, es2) = expand_entries(rest, components, depth + 1, rest.len() as int);
                                    if es2 is Some {
                                        (j, es2)
                                    } else {
                                        match t2 {
                                            Json::Object(tes) => (Json::Object(obj_merge(tes, sib)), None),
                                            _ => (t2, None),
                                        }
                                    }
                                }
                            },
                        }
                    }
                },
                _ => {
                    let (cs, e) = expand_entries(es, components, depth + 1, es.len() as int);
                    (Json::Object(cs), e)
                },
            },
            Json::Array(items) => {
                let (cs, e) = expand_items(items, components, depth + 1, items.len() as int);
                (Json::Array(cs), e)
            },
            _ => (j, None),
        }
    }
}

/// The entries once the values of the first `n` are expanded at `depth`, stopping at the
/// first error.
pub open spec fn expand_entries(es: Seq<(Seq<char>, Json)>, components: Json, depth: int, n: int) -> (
    Seq<(Seq<char>, Json)>,
    Option<Seq<char>>,
)
    decreases (MAX_DEREF_DEPTH + 1 - depth) as nat, n + 1,
{
    if n <= 0 || n > es.len() {
        (es, None)
    } else {
        let (cur, e) = expand_entries(es, components, depth, n - 1);
        if e is Some {
            (cur, e)
        } else {
            let (v, ev) = expand_refs(es[n - 1].1, components, depth);
            (cur.update(n - 1, (es[n - 1].0, v)), ev)
        }
    }
}

/// The items once the first `n` are expanded at `depth`, stopping at the first error.
pub open spec fn expand_items(items: Seq<Json>, components: Json, depth: int, n: int) -> (
    Seq<Json>,
    Option<Seq<char>>,
)
    decreases (MAX_DEREF_DEPTH + 1 - depth) as nat, n + 1,
{
    if n <= 0 || n > items.len() {
        (items, None)
    } else {
        let (cur, e) = expand_items(items, components, depth, n - 1);
        if e is Some {
            (cur, e)
        } else {
            let (v, ev) = expand_refs(items[n - 1], components, depth);
            (cur.update(n - 1, v), ev)
        }
    }
}

pub proof fn lemma_expand_entries_len(es: Seq<(Seq<char>, Json)>, components: Json, depth: int, n: int)
    ensures
        expand_entries(es, components, depth, n).0.len() == es.len(),
        forall|i: int| 0 <= i < es.len() ==> #[trigger] expand_entries(es, components, depth, n).0[i].0 == es[i].0,
        forall|i: int| n <= i < es.len() ==> #[trigger] expand_entries(es, components, depth, n).0[i] == es[i],
    decreases n,
{
    if n > 0 && n <= es.len() {
        lemma_expand_entries_len(es, components, depth, n - 1);
    }
}

pub proof fn lemma_expand_items_len(items: Seq<Json>, components: Json, depth: int, n: int)
    ensures
        expand_items(items, components, depth, n).0.len() == items.len(),
        forall|i: int| n <= i < items.len() ==> #[trigger] expand_items(items, components, depth, n).0[i] == items[i],
    decreases n,
{
    if n > 0 && n <= items.len() {
        lemma_expand_items_len(items, components, depth, n - 1);
    }
}

pub proof fn lemma_expand_entries_stop(es: Seq<(Seq<char>, Json)>, components: Json, depth: int, k: int, n: int)
    requires
        0 <= k <= n <= es.len(),
        expand_entries(es, components, depth, k).1 is Some,
    ensures
        expand_entries(es, components, depth, n) == expand_entries(es, components, depth, k),
    decreases n,
{
    if n > k {
        lemma_expand_entries_stop(es, components, depth, k, n - 1);
    }
}

pub proof fn lemma_expand_items_stop(items: Seq<Json>, components: Json, depth: int, k: int, n: int)
    requires
        0 <= k <= n <= items.len(),
        expand_items(items, components, depth, k).1 is Some,
    ensures
        expand_items(items, components, depth, n) == expand_items(items, components, depth, k),
    decreases n,
{
    if n > k {
        lemma_expand_items_stop(items, components, depth, k, n - 1);
    }
}

fn too_deep_message() -> (m: String)
    ensures
        m@ == too_deep_text(),
{
    "工具 Schema $ref 解引用超深（疑似循环引用）".to_owned()
}

/// Looks up a component by name.
fn find_component(components: &JsonValue, name: &str) -> (r: Option<JsonValue>)
    ensures
        match r {
            Some(t) => component(components@, name@) == Some(t@),
            None => component(components@, name@) is None,
        },
{
    match components {
        JsonValue::Object(ces) => {
            proof {
                lemma_object_model(*ces);
            }
            match find_key(ces, name) {
                Some(i) => Some(duplicate(&ces[i].1)),
                None => None,
            }
        },
        _ => None,
    }
}

/// Expands the values of the entries at depth `d`, in order, stopping at the first error.
#[verifier::loop_isolation(false)]
fn expand_entry_values(es: Vec<(String, JsonValue)>, components: &JsonValue, d: usize) -> (r: (
    Vec<(String, JsonValue)>,
    Result<(), String>,
))
    ensures
        expand_entries(entries_model(es@), components@, d as int, es@.len() as int) == (
            entries_model(r.0@),
            match r.1 {
                Ok(()) => None,
                Err(m) => Some(m@),
            },
        ),
    decreases (MAX_DEREF_DEPTH + 1 - d) as nat, 1int,
{
    let ghost m = entries_model(es@);
    let ghost all = es@;
    proof {
        lemma_expand_entries_len(m, components@, d as int, 0);
    }
    let mut rest = es;
    let mut out: Vec<(String, JsonValue)> = Vec::new();
    let ghost mut k: int = 0;
    while rest.len() > 0
        invariant
            0 <= k <= all.len(),
            out@.len() == k,
            rest@ == all.subrange(k, all.len() as int),
            m == entries_model(all),
            entries_model(out@ + rest@) == expand_entries(m, components@, d as int, k).0,
            expand_entries(m, components@, d as int, k).1 is None,
        decreases rest.len(),
    {
        let e = rest.remove(0);
        proof {
            assert(e == all[k]);
            assert(m[k] == (e.0@, e.1@));
            lemma_expand_entries_len(m, components@, d as int, k);
            assert(entries_model(out@ + all.subrange(k, all.len() as int))[k] == m[k]);
        }
        let (nv, res) = expand_owned(e.1, components, d);
        proof {
            let prev = out@ + all.subrange(k, all.len() as int);
            let next = out@.push((e.0, nv)) + rest@;
            assert(next =~= prev.update(k, (e.0, nv)));
            assert(entries_model(next) =~= entries_model(prev).update(k, (e.0@, nv@)));
        }
        out.push((e.0, nv));
        proof {
            k = k + 1;
            assert(rest@ =~= all.subrange(k, all.len() as int));
        }
        match res {
            Err(msg) => {
                let mut out = out;
                let mut rest = rest;
                out.append(&mut rest);
                proof {
                    lemma_expand_entries_stop(m, components@, d as int, k, all.len() as int);
                }
                return (out, Err(msg));
            },
            Ok(()) => {},
        }
    }
    proof {
        assert(out@ + rest@ =~= out@);
    }
    (out, Ok(()))
}

#[verifier::loop_isolation(false)]
fn expand_owned(v: JsonValue, components: &JsonValue, depth: usize) -> (r: (JsonValue, Result<(), String>))
    ensures
        expand_refs(v@, components@, depth as int) == (
            r.0@,
            match r.1 {
                Ok(()) => None,
                Err(m) => Some(m@),
            },
        ),
    decreases (MAX_DEREF_DEPTH + 1 - depth) as nat, 0int,
{
    if depth > MAX_DEREF_DEPTH {
        return (v, Err(too_deep_message()));
    }
    let ghost j = v@;
    match v {
        JsonValue::Object(es) => {
            proof {
                lemma_object_model(es);
            }
            let ghost m = entries_model(es@);
            let ref_path: Option<String> = match find_key(&es, "$ref") {
                Some(i) => match &es[i].1 {
                    JsonValue::String(p) => Some(p.clone()),
                    _ => None,
                },
                None => None,
            };
            match ref_path {
                Some(path) => {
                    assert(obj_get(m, "$ref"@) == Some(Json::String(path@)));
                    let pv = chars_of(path.as_str());
                    let pre = chars_of("#/components/schemas/");
                    if pv.len() < pre.len() || !chars_eq_range(&pv, 0, pre.len(), &pre) {
                        let mut msg = "不支持的 $ref 形态：".to_owned();
                        msg.append(path.as_str());
                        return (JsonValue::Object(es), Err(msg));
                    }
                    let name = string_of_range(&pv, pre.len(), pv.len());
                    match find_component(components, name.as_str()) {
                        None => {
                            let mut msg = "$ref 目标不存在：".to_owned();
                            msg.append(name.as_str());
                            (JsonValue::Object(es), Err(msg))
                        },
                        Some(t) => {
                            let (t2, res) = expand_owned(t, components, depth + 1);
                            match res {
                                Err(msg) => (JsonValue::Object(es), Err(msg)),
                                Ok(()) => {
                                    let whole = JsonValue::Object(es);
                                    let copy = duplicate(&whole);
                                    let rest = match copy {
                                        JsonValue::Object(ce) => {
                                            proof {
                                                lemma_object_model(ce);
                                            }
                                            remove_entries(ce, "$ref")
                                        },
                                        _ => Vec::new(),
                                    };
                                    let (siblings, sres) = expand_entry_values(rest, components, depth + 1);
                                    if let Err(msg) = sres {
                                        return (whole, Err(msg));
                                    }
                                    match t2 {
                                        JsonValue::Object(tes) => {
                                            proof {
                                                lemma_object_model(tes);
                                                lemma_object_model(siblings);
                                            }
                                            let mut tes = tes;
                                            merge_entries(&mut tes, siblings);
                                            proof {
                                                lemma_object_model(tes);
                                            }
                                            (JsonValue::Object(tes), Ok(()))
                                        },
                                        other => (other, Ok(())),
                                    }
                                },
                            }
                        },
                    }
                },
                None => {
                    let (out, res) = expand_entry_values(es, components, depth + 1);
                    proof {
                        lemma_object_model(out);
                    }
                    (JsonValue::Object(out), res)
                },
            }
        },
        JsonValue::Array(items) => {
            proof {
                lemma_array_model(items);
            }
            let ghost im = items_model(items@);
            let d = depth + 1;
            let ghost all = items@;
            proof {
                lemma_expand_items_len(im, components@, d as int, 0);
            }
            let mut rest = items;
            let mut out: Vec<JsonValue> = Vec::new();
            let ghost mut k: int = 0;
            while rest.len() > 0
                invariant
                    0 <= k <= all.len(),
                    d == depth + 1,
                    depth <= MAX_DEREF_DEPTH,
                    out@.len() == k,
                    rest@ == all.subrange(k, all.len() as int),
                    im == items_model(all),
                    items_model(out@ + rest@) == expand_items(im, components@, d as int, k).0,
                    expand_items(im, components@, d as int, k).1 is None,
                decreases rest.len(),
            {
                let x = rest.remove(0);
                proof {
                    assert(x == all[k]);
                    lemma_expand_items_len(im, components@, d as int, k);
                    assert(items_model(out@ + all.subrange(k, all.len() as int))[k] == im[k]);
                }
                let (nx, res) = expand_owned(x, components, d);
                proof {
                    let prev = out@ + all.subrange(k, all.len() as int);
                    let next = out@.push(nx) + rest@;
                    assert(next =~= prev.update(k, nx));
                    assert(items_model(next) =~= items_model(prev).update(k, nx@));
                }
                out.push(nx);
                proof {
                    k = k + 1;
                    assert(rest@ =~= all.subrange(k, all.len() as int));
                }
                match res {
                    Err(msg) => {
                        let mut out = out;
                        let mut rest = rest;
                        out.append(&mut rest);
                        proof {
                            lemma_array_model(out);
                            lemma_expand_items_stop(im, components@, d as int, k, all.len() as int);
                        }
                        return (JsonValue::Array(out), Err(msg));
                    },
                    Ok(()) => {},
                }
            }
            proof {
                lemma_array_model(out);
                assert(out@ + rest@ =~= out@);
            }
            (JsonValue::Array(out), Ok(()))
        },
        other => (other, Ok(())),
    }
}

/// A reference object whose (first) `$ref` names component `name`.
pub open spec fn refers_to(j: Json, name: Seq<char>) -> bool {
    j matches Json::Object(es) && obj_get(es, "$ref"@) == Some(Json::String(schema_ref_prefix() + name))
}

/// A cycle of references: each of `names` is a component that refers to one of `names`.
pub open spec fn ref_cycle(components: Json, names: Set<Seq<char>>) -> bool {
    forall|n: Seq<char>|
        #![trigger names.contains(n)]
        names.contains(n) ==> exists|m: Seq<char>|
            #![trigger names.contains(m)]
            names.contains(m) && (component(components, n) matches Some(t) && refers_to(t, m))
}

/// A reference into a cycle of references is reported as too deep, at any depth, and the
/// value is left as it was: expansion never loops.
pub proof fn law_ref_cycle_is_too_deep(
    j: Json,
    components: Json,
    names: Set<Seq<char>>,
    name: Seq<char>,
    depth: int,
)
    requires
        ref_cycle(components, names),
        names.contains(name),
        refers_to(j, name),
    ensures
        expand_refs(j, components, depth) == (j, Some(too_deep_text())),
    decreases (MAX_DEREF_DEPTH + 1 - depth) as nat,
{
    if depth <= MAX_DEREF_DEPTH {
        let p = schema_ref_prefix();
        let path = p + name;
        assert(path.subrange(0, p.len() as int) =~= p);
        assert(path.subrange(p.len() as int, path.len() as int) =~= name);
        let m = choose|m: Seq<char>|
            #![trigger names.contains(m)]
            names.contains(m) && (component(components, name) matches Some(t) && refers_to(t, m));
        let t = component(components, name)->0;
        law_ref_cycle_is_too_deep(t, components, names, m, depth + 1);
    }
}

/// The objects whose `$ref`, when there is one, is a string (as JSON Schema has it).
pub open spec fn refs_are_strings() -> spec_fn(Seq<(Seq<char>, Json)>) -> bool {
    |es: Seq<(Seq<char>, Json)>| (obj_get(es, "$ref"@) matches Some(v) ==> v is String)
}

/// The objects without a `$ref` key.
pub open spec fn without_ref() -> spec_fn(Seq<(Seq<char>, Json)>) -> bool {
    |es: Seq<(Seq<char>, Json)>| key_index(es, "$ref"@) is None
}

/// A successful expansion leaves no `$ref` anywhere: the result is self-contained, for a
/// document and components whose references are strings.
pub proof fn law_expansion_leaves_no_ref(j: Json, components: Json, depth: int)
    requires
        every_object(j, refs_are_strings()),
        every_object(components, refs_are_strings()),
    ensures
        expand_refs(j, components, depth).1 is None ==> every_object(expand_refs(j, components, depth).0, without_ref()),
    decreases (MAX_DEREF_DEPTH + 1 - depth) as nat, 0int,
{
    let p = refs_are_strings();
    let q = without_ref();
    if depth <= MAX_DEREF_DEPTH {
        match j {
            Json::Object(es) => {
                lemma_every_entry(es, es.len() as int, p);
                assert(p(es));
                match obj_get(es, "$ref"@) {
                    Some(Json::String(path)) => {
                        let pre = schema_ref_prefix();
                        if !(path.len() < pre.len() || path.subrange(0, pre.len() as int) != pre) {
                            let name = path.subrange(pre.len() as int, path.len() as int);
                            match component(components, name) {
                                Some(t) => {
                                    let ces = components->Object_0;
                                    lemma_key_index(ces, name);
                                    lemma_every_entry(ces, ces.len() as int, p);
                                    let ti = key_index(ces, name)->0;
                                    assert(every_object(ces[ti].1, p));
                                    law_expansion_leaves_no_ref(t, components, depth + 1);
                                    let rest = obj_remove(es, "$ref"@);
                                    lemma_remove_size(es, "$ref"@);
                                    assert forall|i: int| 0 <= i < rest.len() implies every_object(#[trigger] rest[i].1, p) by {
                                        let m = choose|m: int| 0 <= m < es.len() && es[m] == rest[i];
                                        assert(every_object(es[m].1, p));
                                    }
                                    lemma_expand_entries_clean(rest, components, depth + 1, rest.len() as int);
                                    lemma_expand_entries_len(rest, components, depth + 1, rest.len() as int);
                                    let (t2, e) = expand_refs(t, components, depth + 1);
                                    let (sib, e2) = expand_entries(rest, components, depth + 1, rest.len() as int);
                                    if e is None && e2 is None {
                                        match t2 {
                                            Json::Object(tes) => {
                                                let r = obj_merge(tes, sib);
                                                lemma_every_entry(tes, tes.len() as int, q);
                                                lemma_merge_from(tes, sib);
                                                lemma_key_index(tes, "$ref"@);
                                                assert forall|i: int| 0 <= i < r.len() implies every_object(#[trigger] r[i].1, q)
                                                    && r[i].0 != "$ref"@ by {
                                                    if tes.contains(r[i]) {
                                                        let m = choose|m: int| 0 <= m < tes.len() && tes[m] == r[i];
                                                        assert(every_object(tes[m].1, q));
                                                    } else {
                                                        let m = choose|m: int| 0 <= m < sib.len() && sib[m] == r[i];
                                                        assert(sib[m].0 == rest[m].0);
                                                    }
                                                }
                                                lemma_key_index(r, "$ref"@);
                                                lemma_every_entry(r, r.len() as int, q);
                                            },
                                            _ => {},
                                        }
                                    }
                                },
                                None => {},
                            }
                        }
                    },
                    _ => {
                        let n = es.len() as int;
                        lemma_expand_entries_clean(es, components, depth + 1, n);
                        lemma_expand_entries_len(es, components, depth + 1, n);
                        let cs = expand_entries(es, components, depth + 1, n).0;
                        lemma_key_index_same_keys(cs, es, "$ref"@);
                        lemma_every_entry(cs, n, q);
                    },
                }
            },
            Json::Array(items) => {
                let n = items.len() as int;
                lemma_every_item(items, n, p);
                lemma_expand_items_clean(items, components, depth + 1, n);
                lemma_expand_items_len(items, components, depth + 1, n);
                lemma_every_item(expand_items(items, components, depth + 1, n).0, n, q);
            },
            _ => {},
        }
    }
}

proof fn lemma_expand_entries_clean(es: Seq<(Seq<char>, Json)>, components: Json, depth: int, n: int)
    requires
        values_every(es, refs_are_strings()),
        every_object(components, refs_are_strings()),
        0 <= n <= es.len(),
    ensures
        expand_entries(es, components, depth, n).1 is None ==> forall|i: int|
            0 <= i < n ==> every_object(#[trigger] expand_entries(es, components, depth, n).0[i].1, without_ref()),
    decreases (MAX_DEREF_DEPTH + 1 - depth) as nat, n + 1,
{
    if n > 0 {
        lemma_expand_entries_clean(es, components, depth, n - 1);
        assert(every_object(es[n - 1].1, refs_are_strings()));
        law_expansion_leaves_no_ref(es[n - 1].1, components, depth);
        lemma_expand_entries_len(es, components, depth, n - 1);
    }
}

proof fn lemma_expand_items_clean(items: Seq<Json>, components: Json, depth: int, n: int)
    requires
        forall|i: int| 0 <= i < items.len() ==> every_object(#[trigger] items[i], refs_are_strings()),
        every_object(components, refs_are_strings()),
        0 <= n <= items.len(),
    ensures
        expand_items(items, components, depth, n).1 is None ==> forall|i: int|
            0 <= i < n ==> every_object(#[trigger] expand_items(items, components, depth, n).0[i], without_ref()),
    decreases (MAX_DEREF_DEPTH + 1 - depth) as nat, n + 1,
{
    if n > 0 {
        lemma_expand_items_clean(items, components, depth, n - 1);
        law_expansion_leaves_no_ref(items[n - 1], components, depth);
        lemma_expand_items_len(items, components, depth, n - 1);
    }
}

/// Expands `#/components/schemas/<name>` references in place (see [`expand_refs`]).
pub fn deref_refs(value: &mut JsonValue, components: &JsonValue, depth: usize) -> (r: Result<(), String>)
    ensures
        expand_refs(old(value)@, components@, depth as int) == (
            final(value)@,
            match r {
                Ok(()) => None,
                Err(m) => Some(m@),
            },
        ),
        r is Ok && every_object(old(value)@, refs_are_strings()) && every_object(components@, refs_are_strings())
            ==> every_object(final(value)@, without_ref()),
{
    proof {
        if every_object(value@, refs_are_strings()) && every_object(components@, refs_are_strings()) {
            law_expansion_leaves_no_ref(value@, components@, depth as int);
        }
    }
    let mut v = JsonValue::Null;
    std::mem::swap(value, &mut v);
    let (nv, r) = expand_owned(v, components, depth);
    *value = nv;
    r
}

} // verus!
