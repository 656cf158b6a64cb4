//! JSON documents, built and written by `serde_json`.
//!
//! The library describes a document by a mathematical model, [`JsonModel`],
//! and fills the `serde_json` map that has this model through the three
//! trusted functions of this file. What `serde_json` writes for a map is
//! named by [`json_pretty_text`]; nothing is claimed of the text beyond its
//! being a function of the model.

use vstd::prelude::*;
use crate::text::pairs_view;

verus! {

/// What a JSON value holds. Only the kinds of value that this library
/// produces are modelled.
pub enum JsonModel {
    Null,
    Bool(bool),
    Text(Seq<char>),
    Object(Map<Seq<char>, JsonModel>),
}

/// The members of an object without members.
pub open spec fn no_members() -> Map<Seq<char>, JsonModel> {
    Map::empty()
}

/// The outside type `serde_json::Value`, carried through as an opaque value.
#[verifier::external_type_specification]
#[verifier::external_body]
pub struct ExJsonValue(serde_json::Value);

/// The outside type `serde_json::Map`, carried through as an opaque value.
#[verifier::external_type_specification]
#[verifier::external_body]
#[verifier::reject_recursive_types(K)]
#[verifier::reject_recursive_types(V)]
pub struct ExJsonMap<K, V>(serde_json::Map<K, V>);

/// The outside type `serde_json::Error`, carried through as an opaque value.
#[verifier::external_type_specification]
#[verifier::external_body]
pub struct ExJsonError(serde_json::Error);

/// A JSON object in the making: the map of `serde_json` that holds its
/// members.
pub type JsonObject = serde_json::Map<String, serde_json::Value>;

/// The members of a `serde_json::Map`, by key.
pub uninterp spec fn json_members(m: serde_json::Map<String, serde_json::Value>) -> Map<
    Seq<char>,
    JsonModel,
>;

/// The text that `serde_json::to_string_pretty` writes for an object with
/// the given members. The members are written in the order of their keys,
/// so the text depends on what the members are and not on the order in
/// which they were inserted.
pub uninterp spec fn json_pretty_text(members: Map<Seq<char>, JsonModel>) -> Seq<char>;

/// A value on its way into an object.
pub enum JsonValue {
    Null,
    Bool(bool),
    Text(String),
    Object(JsonObject),
}

impl JsonValue {
    /// What the value holds.
    pub open spec fn model(self) -> JsonModel {
        match self {
            JsonValue::Null => JsonModel::Null,
            JsonValue::Bool(b) => JsonModel::Bool(b),
            JsonValue::Text(s) => JsonModel::Text(s@),
            JsonValue::Object(m) => JsonModel::Object(json_members(m)),
        }
    }
}

/// `serde_json::Map::new`: a map without members.
#[verifier::external_body]
pub(crate) fn json_map_new() -> (m: JsonObject)
    ensures
        json_members(m) == no_members(),
{
    serde_json::Map::new()
}

/// `serde_json::Map::insert`: the map gains the member `key`, or has its
/// value replaced where the key was present; the other members stay.
#[verifier::external_body]
pub(crate) fn json_map_insert(m: &mut JsonObject, key: &str, value: JsonValue)
    ensures
        json_members(*final(m)) == json_members(*old(m)).insert(key@, value.model()),
{
    let value = match value {
        JsonValue::Null => serde_json::Value::Null,
        JsonValue::Bool(b) => serde_json::Value::Bool(b),
        JsonValue::Text(s) => serde_json::Value::String(s),
        JsonValue::Object(o) => serde_json::Value::Object(o),
    };
    m.insert(key.to_owned(), value);
}

/// `serde_json::to_string_pretty` on a map from strings to values: it
/// writes into memory and the keys are strings, so it has no way to fail;
/// the text that it writes depends on the members of the map alone.
#[verifier::external_body]
pub(crate) fn json_write_pretty(m: &JsonObject) -> (r: Result<String, serde_json::Error>)
    ensures
        r is Ok,
        r matches Ok(s) ==> s@ == json_pretty_text(json_members(*m)),
{
    serde_json::to_string_pretty(m)
}

/// The members that a list of pairs gives: each key with its value as a
/// JSON string; where a key occurs more than once, its last value.
pub open spec fn pairs_members(pairs: Seq<(Seq<char>, Seq<char>)>) -> Map<Seq<char>, JsonModel>
    decreases pairs.len(),
{
    if pairs.len() == 0 {
        Map::empty()
    } else {
        pairs_members(pairs.drop_last()).insert(pairs.last().0, JsonModel::Text(pairs.last().1))
    }
}

/// Whether a pair of `pairs` has the key `key`.
pub open spec fn has_key(pairs: Seq<(Seq<char>, Seq<char>)>, key: Seq<char>) -> bool {
    exists|i: int| 0 <= i < pairs.len() && (#[trigger] pairs[i]).0 == key
}

/// Whether no two pairs share a key.
pub open spec fn keys_differ(pairs: Seq<(Seq<char>, Seq<char>)>) -> bool {
    forall|i: int, j: int|
        0 <= i < j < pairs.len() ==> (#[trigger] pairs[i]).0 != (#[trigger] pairs[j]).0
}

/// The members of pairs with different keys are the pairs: each key is a
/// member, with its value, and nothing else is.
pub proof fn lemma_pairs_members(pairs: Seq<(Seq<char>, Seq<char>)>)
    requires
        keys_differ(pairs),
    ensures
        forall|k: Seq<char>| #[trigger] pairs_members(pairs).contains_key(k) <==> has_key(pairs, k),
        forall|i: int|
            0 <= i < pairs.len() ==> pairs_members(pairs)[(#[trigger] pairs[i]).0]
                == JsonModel::Text(pairs[i].1),
    decreases pairs.len(),
{
    if pairs.len() > 0 {
        let head = pairs.drop_last();
        let last = pairs.last();
        assert forall|i: int, j: int| 0 <= i < j < head.len() implies (#[trigger] head[i]).0 != (
        #[trigger] head[j]).0 by {
            assert(head[i] == pairs[i]);
            assert(head[j] == pairs[j]);
        }
        lemma_pairs_members(head);
        assert forall|k: Seq<char>| #[trigger]
            pairs_members(pairs).contains_key(k) <==> has_key(pairs, k) by {
            if has_key(pairs, k) {
                let i = choose|i: int| 0 <= i < pairs.len() && (#[trigger] pairs[i]).0 == k;
                if i < head.len() {
                    assert(head[i] == pairs[i]);
                    assert(has_key(head, k));
                }
            }
            if pairs_members(pairs).contains_key(k) {
                if k == last.0 {
                    assert(pairs[pairs.len() - 1].0 == k);
                } else {
                    assert(has_key(head, k));
                    let i = choose|i: int| 0 <= i < head.len() && (#[trigger] head[i]).0 == k;
                    assert(pairs[i] == head[i]);
                }
            }
        }
        assert forall|i: int| 0 <= i < pairs.len() implies pairs_members(pairs)[(
        #[trigger] pairs[i]).0] == JsonModel::Text(pairs[i].1) by {
            if i < head.len() {
                assert(head[i] == pairs[i]);
                assert(pairs[i].0 != pairs[pairs.len() - 1].0);
            }
        }
    }
}

/// Pairs with different keys give the same members in whatever order they
/// stand.
pub proof fn lemma_pairs_members_ignore_order(
    a: Seq<(Seq<char>, Seq<char>)>,
    b: Seq<(Seq<char>, Seq<char>)>,
)
    requires
        keys_differ(a),
        keys_differ(b),
        forall|p: (Seq<char>, Seq<char>)| a.contains(p) <==> b.contains(p),
    ensures
        pairs_members(a) == pairs_members(b),
{
    lemma_pairs_members(a);
    lemma_pairs_members(b);
    let ma = pairs_members(a);
    let mb = pairs_members(b);
    assert forall|k: Seq<char>| ma.contains_key(k) implies mb.contains_key(k) && ma[k] == mb[k] by {
        let i = choose|i: int| 0 <= i < a.len() && (#[trigger] a[i]).0 == k;
        assert(a.contains(a[i]));
        assert(b.contains(a[i]));
        let j = choose|j: int| 0 <= j < b.len() && b[j] == a[i];
        assert(b[j].0 == k);
        assert(has_key(b, k));
    }
    assert forall|k: Seq<char>| mb.contains_key(k) implies ma.contains_key(k) by {
        let j = choose|j: int| 0 <= j < b.len() && (#[trigger] b[j]).0 == k;
        assert(b.contains(b[j]));
        assert(a.contains(b[j]));
        let i = choose|i: int| 0 <= i < a.len() && a[i] == b[j];
        assert(a[i].0 == k);
        assert(has_key(a, k));
    }
    assert(ma =~= mb);
}

/// The JSON object whose members are the given pairs.
pub open spec fn pairs_model(pairs: Seq<(Seq<char>, Seq<char>)>) -> JsonModel {
    JsonModel::Object(pairs_members(pairs))
}

/// The JSON object whose members are the given pairs; of a key that occurs
/// more than once, the last value stays.
pub fn pairs_object(pairs: &Vec<(String, String)>) -> (v: JsonValue)
    ensures
        v.model() == pairs_model(pairs_view(pairs@)),
{
    let mut members = json_map_new();
    let ghost all = pairs_view(pairs@);
    let n: usize = pairs.len();
    let mut i: usize = 0;
    assert(all.take(0) =~= Seq::empty());
    while i < n
        invariant
            n == pairs@.len(),
            i <= n,
            all == pairs_view(pairs@),
            json_members(members) == pairs_members(all.take(i as int)),
        decreases n - i,
    {
        proof {
            let next = all.take(i + 1);
            assert(next.drop_last() =~= all.take(i as int));
            assert(next.last() == all[i as int]);
        }
        json_map_insert(&mut members, pairs[i].0.as_str(), JsonValue::Text(pairs[i].1.clone()));
        i += 1;
    }
    assert(all.take(n as int) =~= all);
    JsonValue::Object(members)
}

/// The JSON string with the characters of `s`, and `null` where there is
/// none.
pub open spec fn optional_text_model(s: Option<Seq<char>>) -> JsonModel {
    match s {
        Some(t) => JsonModel::Text(t),
        None => JsonModel::Null,
    }
}

/// The JSON string with the characters of `s`, and `null` where there is
/// none.
pub fn optional_text(s: &Option<String>) -> (v: JsonValue)
    ensures
        v.model() == optional_text_model(crate::text::option_view(*s)),
{
    match s {
        Some(t) => JsonValue::Text(t.clone()),
        None => JsonValue::Null,
    }
}

/// The JSON object with the one member `key`.
pub fn single_member(key: &str, value: JsonValue) -> (m: JsonObject)
    ensures
        json_members(m) == no_members().insert(key@, value.model()),
{
    let mut members = json_map_new();
    json_map_insert(&mut members, key, value);
    members
}

/// The pretty-printed text of an object.
pub fn write_pretty(m: &JsonObject) -> (r: String)
    ensures
        r@ == json_pretty_text(json_members(*m)),
{
    match json_write_pretty(m) {
        Ok(s) => s,
        Err(_) => String::new(),
    }
}

} // verus!
