//! The JSON values that tool-call arguments and transcripts carry, as the library's own plain
//! data, with the structural equality of JSON documents and the argument subset rule used by
//! `CalledToolWith`.
use vstd::prelude::*;

use crate::text::{concat2, same_text};

verus! {

/// A JSON number as a JSON document holds it: a non-negative integer, a negative integer, or a
/// finite float. A float is kept as the text JSON writes for it (the shortest text that reads
/// back as the same double, e.g. `"2.5"`, `"0.0"`, `"-0.0"`), so two floats are equal when
/// their texts are equal, except that `0.0` and `-0.0` are equal.
#[derive(Debug)]
pub enum JsonNumber {
    PosInt(u64),
    /// Always below zero; non-negative integers are `PosInt`.
    NegInt(i64),
    Float(String),
}

/// A JSON value. An object is its list of `(key, value)` entries; a well-formed object (as a
/// JSON parser produces) has no key twice.
#[derive(Debug)]
pub enum Json {
    Null,
    Bool(bool),
    Number(JsonNumber),
    String(String),
    Array(Vec<Json>),
    Object(Vec<(String, Json)>),
}

/// `a` and `b` hold the same document written the same way: same kinds, same texts, same
/// elements and entries in the same order.
pub open spec fn same_json(a: Json, b: Json) -> bool
    decreases a,
{
    match a {
        Json::Null => b is Null,
        Json::Bool(x) => b matches Json::Bool(y) && x == y,
        Json::Number(x) => b matches Json::Number(y) && same_number(x, y),
        Json::String(x) => b matches Json::String(y) && x@ == y@,
        Json::Array(x) => b matches Json::Array(y) && x.len() == y.len() && forall|i: int|
            0 <= i < x.len() ==> same_json(#[trigger] x@[i], y@[i]),
        Json::Object(x) => b matches Json::Object(y) && x.len() == y.len() && forall|i: int|
            0 <= i < x.len() ==> (#[trigger] x@[i]).0@ == y@[i].0@ && same_json(x@[i].1, y@[i].1),
    }
}

/// `a` and `b` are the same number written the same way.
pub open spec fn same_number(a: JsonNumber, b: JsonNumber) -> bool {
    match a {
        JsonNumber::PosInt(x) => b matches JsonNumber::PosInt(y) && x == y,
        JsonNumber::NegInt(x) => b matches JsonNumber::NegInt(y) && x == y,
        JsonNumber::Float(x) => b matches JsonNumber::Float(y) && x@ == y@,
    }
}

impl Clone for JsonNumber {
    fn clone(&self) -> (r: Self)
        ensures
            same_number(r, *self),
    {
        match self {
            JsonNumber::PosInt(u) => JsonNumber::PosInt(*u),
            JsonNumber::NegInt(i) => JsonNumber::NegInt(*i),
            JsonNumber::Float(t) => JsonNumber::Float(t.clone()),
        }
    }
}

impl Clone for Json {
    fn clone(&self) -> (r: Self)
        ensures
            same_json(r, *self),
    {
        copy_json(self)
    }
}

/// A copy of `j`.
pub fn copy_json(j: &Json) -> (r: Json)
    ensures
        same_json(r, *j),
    decreases *j,
{
    match j {
        Json::Null => Json::Null,
        Json::Bool(b) => Json::Bool(*b),
        Json::Number(n) => Json::Number(n.clone()),
        Json::String(s) => Json::String(s.clone()),
        Json::Array(items) => {
            let mut out: Vec<Json> = Vec::new();
            let mut i: usize = 0;
            while i < items.len()
                invariant
                    *j == Json::Array(*items),
                    i <= items.len(),
                    out.len() == i,
                    forall|m: int| 0 <= m < i ==> same_json(#[trigger] out@[m], items@[m]),
                decreases items.len() - i,
            {
                proof {
                    assert(decreases_to!(*j => (*j)->Array_0));
                    assert(decreases_to!(*items => items@));
                    assert(decreases_to!(items@ => items@[i as int]));
                }
                out.push(copy_json(&items[i]));
                i = i + 1;
            }
            Json::Array(out)
        },
        Json::Object(entries) => {
            let mut out: Vec<(String, Json)> = Vec::new();
            let mut i: usize = 0;
            while i < entries.len()
                invariant
                    *j == Json::Object(*entries),
                    i <= entries.len(),
                    out.len() == i,
                    forall|m: int|
                        0 <= m < i ==> (#[trigger] out@[m]).0@ == entries@[m].0@ && same_json(
                            out@[m].1,
                            entries@[m].1,
                        ),
                decreases entries.len() - i,
            {
                proof {
                    assert(decreases_to!(*j => (*j)->Object_0));
                    assert(decreases_to!(*entries => entries@));
                    assert(decreases_to!(entries@ => entries@[i as int]));
                    assert(decreases_to!(entries@[i as int] => entries@[i as int].1));
                }
                let v = copy_json(&entries[i].1);
                out.push((entries[i].0.clone(), v));
                i = i + 1;
            }
            Json::Object(out)
        },
    }
}

/// The text of a float zero, `0.0` or `-0.0`.
pub open spec fn is_float_zero(t: Seq<char>) -> bool {
    t == seq!['0', '.', '0'] || t == seq!['-', '0', '.', '0']
}

/// Equality of JSON numbers: same kind and same value.
pub open spec fn number_eq(a: JsonNumber, b: JsonNumber) -> bool {
    match a {
        JsonNumber::PosInt(x) => b matches JsonNumber::PosInt(y) && x == y,
        JsonNumber::NegInt(x) => b matches JsonNumber::NegInt(y) && x == y,
        JsonNumber::Float(x) => b matches JsonNumber::Float(y) && (x@ == y@ || (is_float_zero(x@)
            && is_float_zero(y@))),
    }
}

/// Equality of JSON documents: scalars by value, arrays element by element in order, objects as
/// key/value maps (same number of entries, and every entry of `a` has an entry with the same
/// key and an equal value in `b`).
pub open spec fn json_eq(a: Json, b: Json) -> bool
    decreases a, 0nat,
{
    match a {
        Json::Null => b is Null,
        Json::Bool(x) => b matches Json::Bool(y) && x == y,
        Json::Number(x) => b matches Json::Number(y) && number_eq(x, y),
        Json::String(x) => b matches Json::String(y) && x@ == y@,
        Json::Array(x) => b matches Json::Array(y) && x.len() == y.len() && forall|i: int|
            0 <= i < x.len() ==> json_eq(#[trigger] x@[i], y@[i]),
        Json::Object(x) => b matches Json::Object(y) && x.len() == y.len() && forall|i: int|
            0 <= i < x.len() ==> has_equal_entry((#[trigger] x@[i]).1, x@[i].0@, y@),
    }
}

/// Some entry of `ys` has key `k` and a value equal to `v`.
pub open spec fn has_equal_entry(v: Json, k: Seq<char>, ys: Seq<(String, Json)>) -> bool
    decreases v, 1nat,
{
    exists|j: int| 0 <= j < ys.len() && (#[trigger] ys[j]).0@ == k && json_eq(v, ys[j].1)
}

/// The argument subset rule: `expected` is a subset of `actual` when both are objects and every
/// entry of `expected` has an entry with the same key in `actual` whose value is again a subset
/// of it; every other pair (scalars, arrays, or an object against a non-object) must be equal.
/// Arrays are compared whole.
pub open spec fn json_subset(expected: Json, actual: Json) -> bool
    decreases expected, 0nat,
{
    match expected {
        Json::Object(x) => match actual {
            Json::Object(y) => forall|i: int|
                0 <= i < x.len() ==> has_subset_entry((#[trigger] x@[i]).1, x@[i].0@, y@),
            _ => json_eq(expected, actual),
        },
        _ => json_eq(expected, actual),
    }
}

/// Some entry of `ys` has key `k` and a value that `v` is a subset of.
pub open spec fn has_subset_entry(v: Json, k: Seq<char>, ys: Seq<(String, Json)>) -> bool
    decreases v, 1nat,
{
    exists|j: int| 0 <= j < ys.len() && (#[trigger] ys[j]).0@ == k && json_subset(v, ys[j].1)
}

fn number_equal(a: &JsonNumber, b: &JsonNumber) -> (r: bool)
    ensures
        r == number_eq(*a, *b),
{
    match (a, b) {
        (JsonNumber::PosInt(x), JsonNumber::PosInt(y)) => *x == *y,
        (JsonNumber::NegInt(x), JsonNumber::NegInt(y)) => *x == *y,
        (JsonNumber::Float(x), JsonNumber::Float(y)) => {
            same_text(x.as_str(), y.as_str()) || (float_zero(x.as_str()) && float_zero(
                y.as_str(),
            ))
        },
        _ => false,
    }
}

fn float_zero(t: &str) -> (r: bool)
    ensures
        r == is_float_zero(t@),
{
    let cs = crate::text::chars_of(t);
    if cs.len() == 3 {
        let r = cs[0] == '0' && cs[1] == '.' && cs[2] == '0';
        assert(r ==> cs@ =~= seq!['0', '.', '0']);
        r
    } else if cs.len() == 4 {
        let r = cs[0] == '-' && cs[1] == '0' && cs[2] == '.' && cs[3] == '0';
        assert(r ==> cs@ =~= seq!['-', '0', '.', '0']);
        r
    } else {
        false
    }
}

/// Whether the object entries `ys` hold an entry with key `k` whose value is equal to `v`
/// (`subset == false`) or a subset-match for `v` (`subset == true`).
fn find_entry(v: &Json, k: &String, ys: &Vec<(String, Json)>, subset: bool) -> (r: bool)
    ensures
        r == (if subset {
            has_subset_entry(*v, k@, ys@)
        } else {
            has_equal_entry(*v, k@, ys@)
        }),
    decreases *v, 2nat,
{
    let mut j: usize = 0;
    while j < ys.len()
        invariant
            j <= ys.len(),
            forall|m: int|
                0 <= m < j ==> !((#[trigger] ys@[m]).0@ == k@ && (if subset {
                    json_subset(*v, ys@[m].1)
                } else {
                    json_eq(*v, ys@[m].1)
                })),
        decreases ys.len() - j,
    {
        let key_ok = ys[j].0 == *k;
        if key_ok {
            let ok = if subset {
                json_subset_matches(v, &ys[j].1)
            } else {
                json_equal(v, &ys[j].1)
            };
            if ok {
                assert(ys@[j as int].0@ == k@);
                return true;
            }
        }
        j = j + 1;
    }
    false
}

/// JSON equality of two documents (`==` on JSON values).
pub fn json_equal(a: &Json, b: &Json) -> (r: bool)
    ensures
        r == json_eq(*a, *b),
    decreases *a, 0nat,
{
    match a {
        Json::Null => match b {
            Json::Null => true,
            _ => false,
        },
        Json::Bool(x) => match b {
            Json::Bool(y) => *x == *y,
            _ => false,
        },
        Json::Number(x) => match b {
            Json::Number(y) => number_equal(x, y),
            _ => false,
        },
        Json::String(x) => match b {
            Json::String(y) => *x == *y,
            _ => false,
        },
        Json::Array(x) => match b {
            Json::Array(y) => {
                if x.len() != y.len() {
                    return false;
                }
                let mut i: usize = 0;
                while i < x.len()
                    invariant
                        *a == Json::Array(*x),
                        *b == Json::Array(*y),
                        x.len() == y.len(),
                        i <= x.len(),
                        forall|m: int| 0 <= m < i ==> json_eq(#[trigger] x@[m], y@[m]),
                    decreases x.len() - i,
                {
                    proof {
                        assert(decreases_to!(*a => (*a)->Array_0));
                        assert(decreases_to!(*x => x@));
                        assert(decreases_to!(x@ => x@[i as int]));
                    }
                    if !json_equal(&x[i], &y[i]) {
                        return false;
                    }
                    i = i + 1;
                }
                true
            },
            _ => false,
        },
        Json::Object(x) => match b {
            Json::Object(y) => {
                if x.len() != y.len() {
                    return false;
                }
                let mut i: usize = 0;
                while i < x.len()
                    invariant
                        *a == Json::Object(*x),
                        *b == Json::Object(*y),
                        x.len() == y.len(),
                        i <= x.len(),
                        forall|m: int|
                            0 <= m < i ==> has_equal_entry((#[trigger] x@[m]).1, x@[m].0@, y@),
                    decreases x.len() - i,
                {
                    proof {
                        assert(decreases_to!(*a => (*a)->Object_0));
                        assert(decreases_to!(*x => x@));
                        assert(decreases_to!(x@ => x@[i as int]));
                        assert(decreases_to!(x@[i as int] => x@[i as int].1));
                    }
                    if !find_entry(&x[i].1, &x[i].0, y, false) {
                        return false;
                    }
                    i = i + 1;
                }
                true
            },
            _ => false,
        },
    }
}

/// The argument subset rule of `CalledToolWith`: is `expected` a subset of `actual`?
pub fn json_subset_matches(expected: &Json, actual: &Json) -> (r: bool)
    ensures
        r == json_subset(*expected, *actual),
    decreases *expected, 1nat,
{
    match expected {
        Json::Object(x) => match actual {
            Json::Object(y) => {
                let mut i: usize = 0;
                while i < x.len()
                    invariant
                        *expected == Json::Object(*x),
                        *actual == Json::Object(*y),
                        i <= x.len(),
                        forall|m: int|
                            0 <= m < i ==> has_subset_entry((#[trigger] x@[m]).1, x@[m].0@, y@),
                    decreases x.len() - i,
                {
                    proof {
                        assert(decreases_to!(*expected => (*expected)->Object_0));
                        assert(decreases_to!(*x => x@));
                        assert(decreases_to!(x@ => x@[i as int]));
                        assert(decreases_to!(x@[i as int] => x@[i as int].1));
                    }
                    if !find_entry(&x[i].1, &x[i].0, y, true) {
                        return false;
                    }
                    i = i + 1;
                }
                true
            },
            _ => json_equal(expected, actual),
        },
        _ => json_equal(expected, actual),
    }
}

/// The compact JSON text of a document: what serde_json writes for it with `to_string`.
pub uninterp spec fn compact_text(j: Json) -> Seq<char>;

/// serde_json's compact serializer (`Value`'s `Display`), applied to `j` converted one for one
/// into a `serde_json::Value`. Its result is a function of `j` alone, named `compact_text`; the
/// text itself (escaping, key order) is not stated.
#[verifier::external_body]
pub(crate) fn compact(j: &Json) -> (r: String)
    ensures
        r@ == compact_text(*j),
{
    to_serde(j).to_string()
}

/// serde_json's document type, carried opaquely (only `to_serde` and `compact` touch it).
#[verifier::external_type_specification]
#[verifier::external_body]
pub struct ExJsonValue(serde_json::Value);

/// The `serde_json::Value` holding the same document as `j`, built constructor by constructor
/// (a float goes through serde_json's own number parser on its text). Nothing is stated of it;
/// it exists only to hand `j` to serde_json in `compact`.
#[verifier::external_body]
fn to_serde(j: &Json) -> serde_json::Value {
    match j {
        Json::Null => serde_json::Value::Null,
        Json::Bool(b) => serde_json::Value::Bool(*b),
        Json::Number(JsonNumber::PosInt(u)) => serde_json::Value::from(*u),
        Json::Number(JsonNumber::NegInt(i)) => serde_json::Value::from(*i),
        Json::Number(JsonNumber::Float(t)) => serde_json::from_str(t).unwrap_or(serde_json::Value::Null),
        Json::String(s) => serde_json::Value::String(s.clone()),
        Json::Array(items) => serde_json::Value::Array(items.iter().map(to_serde).collect()),
        Json::Object(entries) => serde_json::Value::Object(
            entries.iter().map(|(k, v)| (k.clone(), to_serde(v))).collect(),
        ),
    }
}

/// An exact match is always a subset match: if two documents are equal, the first is a
/// subset of the second.
pub proof fn lemma_eq_implies_subset(a: Json, b: Json)
    requires
        json_eq(a, b),
    ensures
        json_subset(a, b),
    decreases a,
{
    if let Json::Object(x) = a {
        if let Json::Object(y) = b {
            assert forall|i: int| 0 <= i < x.len() implies has_subset_entry(
                (#[trigger] x@[i]).1,
                x@[i].0@,
                y@,
            ) by {
                assert(has_equal_entry(x@[i].1, x@[i].0@, y@));
                let j = choose|j: int|
                    0 <= j < y.len() && (#[trigger] y@[j]).0@ == x@[i].0@ && json_eq(
                        x@[i].1,
                        y@[j].1,
                    );
                lemma_eq_implies_subset(x@[i].1, y@[j].1);
            }
        }
    }
}

/// Every JSON document is equal to itself.
pub proof fn lemma_eq_reflexive(a: Json)
    ensures
        json_eq(a, a),
    decreases a,
{
    match a {
        Json::Array(x) => {
            assert forall|i: int| 0 <= i < x.len() implies json_eq(#[trigger] x@[i], x@[i]) by {
                lemma_eq_reflexive(x@[i]);
            }
        },
        Json::Object(x) => {
            assert forall|i: int| 0 <= i < x.len() implies has_equal_entry(
                (#[trigger] x@[i]).1,
                x@[i].0@,
                x@,
            ) by {
                lemma_eq_reflexive(x@[i].1);
                assert(x@[i].0@ == x@[i].0@ && json_eq(x@[i].1, x@[i].1));
            }
        },
        _ => {},
    }
}

/// Every JSON document is a subset-match for itself: a call made with exactly the expected
/// arguments satisfies `CalledToolWith`.
pub proof fn lemma_subset_reflexive(a: Json)
    ensures
        json_subset(a, a),
{
    lemma_eq_reflexive(a);
    lemma_eq_implies_subset(a, a);
}

/// Extra entries in the actual object never break a subset match: if the object `expected`
/// matches the object `actual`, it still matches `actual` with one more entry appended.
pub proof fn lemma_subset_extra_entry(
    expected: Vec<(String, Json)>,
    actual: Vec<(String, Json)>,
    extra: (String, Json),
    bigger: Vec<(String, Json)>,
)
    requires
        json_subset(Json::Object(expected), Json::Object(actual)),
        bigger@ == actual@.push(extra),
    ensures
        json_subset(Json::Object(expected), Json::Object(bigger)),
{
    let x = expected;
    let e = Json::Object(expected);
    let a = Json::Object(actual);
    assert(e->Object_0 == expected && a->Object_0 == actual);
    assert(forall|i: int| 0 <= i < x.len() ==> has_subset_entry((#[trigger] x@[i]).1, x@[i].0@, actual@));
    assert forall|i: int| 0 <= i < x.len() implies has_subset_entry(
        (#[trigger] x@[i]).1,
        x@[i].0@,
        bigger@,
    ) by {
        assert(has_subset_entry(x@[i].1, x@[i].0@, actual@));
        let j = choose|j: int|
            0 <= j < actual.len() && (#[trigger] actual@[j]).0@ == x@[i].0@ && json_subset(
                x@[i].1,
                actual@[j].1,
            );
        assert(bigger@[j] == actual@[j]);
    }
}

/// Arrays are compared whole: two arrays are equal exactly when they have the same length and
/// equal elements at every position, so an array holding a different element is never equal;
/// and an expected array is a subset of an actual one exactly when the two are equal.
pub proof fn lemma_arrays_compared_whole(a: Json, b: Json)
    requires
        a is Array,
        b is Array,
    ensures
        json_eq(a, b) <==> (a->Array_0@.len() == b->Array_0@.len() && forall|i: int|
            0 <= i < a->Array_0@.len() ==> json_eq(a->Array_0@[i], b->Array_0@[i])),
        (exists|i: int|
            0 <= i < a->Array_0@.len() && i < b->Array_0@.len() && !json_eq(
                a->Array_0@[i],
                b->Array_0@[i],
            )) ==> !json_eq(a, b) && !json_subset(a, b),
        json_subset(a, b) <==> json_eq(a, b),
{
}

/// Scalars are equal only when they hold the same value: strings the same characters, booleans
/// the same truth value, and integers the same number.
pub proof fn lemma_scalars_equal_by_value(x: String, y: String, p: bool, q: bool, m: u64, n: u64)
    ensures
        json_eq(Json::String(x), Json::String(y)) <==> x@ == y@,
        json_eq(Json::Bool(p), Json::Bool(q)) <==> p == q,
        json_eq(Json::Number(JsonNumber::PosInt(m)), Json::Number(JsonNumber::PosInt(n))) <==> m
            == n,
        !json_eq(Json::Null, Json::Bool(p)),
{
}

} // verus!
