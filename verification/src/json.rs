//! JSON values: what a `serde_json::Value` holds, and how one is built, read, written and parsed.

use serde_json::Value;
use vstd::prelude::*;
use vstd::utf8::*;

verus! {

/// What a JSON value holds. A number that is no unsigned 64-bit integer is held as its text.
pub enum JsonV {
    Null,
    Bool(bool),
    Num(u64),
    OtherNum(Seq<char>),
    Str(Seq<char>),
    Arr(Seq<JsonV>),
    Obj(Map<Seq<char>, JsonV>),
}

/// `serde_json::Value`.
#[verifier::external_type_specification]
#[verifier::external_body]
pub struct ExValue(Value);

/// What a `serde_json::Value` holds.
pub uninterp spec fn json_view(v: Value) -> JsonV;

/// What each value of a list holds.
pub open spec fn views(v: Seq<Value>) -> Seq<JsonV> {
    v.map_values(|x: Value| json_view(x))
}

/// What an optional value holds.
pub open spec fn opt_view(v: Option<Value>) -> Option<JsonV> {
    match v {
        Some(x) => Some(json_view(x)),
        None => None,
    }
}

/// The members of an object, from the first pair on: a later pair replaces an earlier one with the
/// same key.
pub open spec fn members(p: Seq<(Seq<char>, JsonV)>) -> Map<Seq<char>, JsonV>
    decreases p.len(),
{
    if p.len() == 0 {
        Map::<Seq<char>, JsonV>::empty()
    } else {
        members(p.drop_last()).insert(p.last().0, p.last().1)
    }
}

/// The object with these members.
pub open spec fn object(p: Seq<(Seq<char>, JsonV)>) -> JsonV {
    JsonV::Obj(members(p))
}

/// What key and value pairs hold.
pub open spec fn pair_views(p: Seq<(String, Value)>) -> Seq<(Seq<char>, JsonV)> {
    p.map_values(|x: (String, Value)| (x.0@, json_view(x.1)))
}

/// A JSON string: `Value::String`.
#[verifier::external_body]
pub(crate) fn json_str(s: String) -> (r: Value)
    ensures
        json_view(r) == JsonV::Str(s@),
{
    Value::String(s)
}

/// A JSON number: `Value::from` of an unsigned integer.
#[verifier::external_body]
pub(crate) fn json_num(n: u64) -> (r: Value)
    ensures
        json_view(r) == JsonV::Num(n),
{
    Value::from(n)
}

/// A JSON truth value: `Value::Bool`.
#[verifier::external_body]
pub(crate) fn json_bool(b: bool) -> (r: Value)
    ensures
        json_view(r) == JsonV::Bool(b),
{
    Value::Bool(b)
}

/// The JSON null: `Value::Null`.
#[verifier::external_body]
pub(crate) fn json_null() -> (r: Value)
    ensures
        json_view(r) == JsonV::Null,
{
    Value::Null
}

/// A JSON array: `Value::Array`.
#[verifier::external_body]
pub(crate) fn json_array(v: Vec<Value>) -> (r: Value)
    ensures
        json_view(r) == JsonV::Arr(views(v@)),
{
    Value::Array(v)
}

/// The JSON object without members: `Value::Object` of `serde_json::Map::new`.
#[verifier::external_body]
fn json_empty() -> (r: Value)
    ensures
        json_view(r) == JsonV::Obj(Map::<Seq<char>, JsonV>::empty()),
{
    Value::Object(serde_json::Map::new())
}

/// Gives an object a member: `serde_json::Map::insert`, which adds the pair, or puts the value in place
/// of the one that the map had for the key.
#[verifier::external_body]
fn json_put(v: &mut Value, key: String, x: Value)
    requires
        json_view(*old(v)) is Obj,
    ensures
        json_view(*final(v)) == JsonV::Obj(json_view(*old(v))->Obj_0.insert(key@, json_view(x))),
{
    match v {
        Value::Object(m) => {
            m.insert(key, x);
        },
        _ => {},
    }
}

/// The JSON object with these members.
pub(crate) fn json_object(p: Vec<(String, Value)>) -> (r: Value)
    ensures
        json_view(r) == object(pair_views(p@)),
{
    let ghost all = pair_views(p@);
    let ghost mut n: int = 0;
    let mut rest: Vec<(String, Value)> = p;
    let mut r: Value = json_empty();
    assert(all.take(0) =~= Seq::empty());
    assert(all.skip(0) =~= all);
    while rest.len() > 0
        invariant
            0 <= n <= all.len(),
            pair_views(rest@) == all.skip(n),
            json_view(r) == object(all.take(n)),
        decreases rest.len(),
    {
        let ghost before = rest@;
        let (key, x) = rest.remove(0);
        json_put(&mut r, key, x);
        proof {
            assert(pair_views(before).len() == before.len());
            assert(all[n] == all.skip(n)[0]);
            assert(pair_views(before)[0] == all[n]);
            assert(pair_views(rest@) =~= pair_views(before).skip(1));
            assert(all.skip(n).skip(1) =~= all.skip(n + 1));
            assert(all.take(n + 1).drop_last() =~= all.take(n));
            n = n + 1;
        }
    }
    assert(pair_views(rest@).len() == 0);
    assert(all.take(n) =~= all);
    r
}

/// `Value::as_str` gives the text of a JSON string and nothing for any other value.
pub assume_specification[ Value::as_str ](v: &Value) -> (r: Option<&str>)
    ensures
        match json_view(*v) {
            JsonV::Str(s) => r is Some && r->0@ == s,
            _ => r is None,
        },
;

/// `Value::as_u64` gives the number of a JSON number that is an unsigned 64-bit integer and nothing
/// for any other value.
pub assume_specification[ Value::as_u64 ](v: &Value) -> (r: Option<u64>)
    ensures
        r == match json_view(*v) {
            JsonV::Num(n) => Some(n),
            _ => None,
        },
;

/// `Value::as_bool` gives the truth value of a JSON boolean and nothing for any other value.
pub assume_specification[ Value::as_bool ](v: &Value) -> (r: Option<bool>)
    ensures
        r == match json_view(*v) {
            JsonV::Bool(b) => Some(b),
            _ => None,
        },
;

/// `Value::as_array` gives the items of a JSON array and nothing for any other value.
pub assume_specification[ Value::as_array ](v: &Value) -> (r: Option<&Vec<Value>>)
    ensures
        match json_view(*v) {
            JsonV::Arr(a) => r is Some && views(r->0@) == a,
            _ => r is None,
        },
;

/// Whether a value is the JSON null: `Value::is_null`.
#[verifier::external_body]
pub(crate) fn json_is_null(v: &Value) -> (r: bool)
    ensures
        r == (json_view(*v) is Null),
{
    v.is_null()
}

/// The member of an object with this key.
pub open spec fn member(v: JsonV, key: Seq<char>) -> Option<JsonV> {
    match v {
        JsonV::Obj(m) => if m.dom().contains(key) {
            Some(m[key])
        } else {
            None
        },
        _ => None,
    }
}

/// The text of the member of an object with this key, where it is a string.
pub open spec fn member_str(v: JsonV, key: Seq<char>) -> Option<Seq<char>> {
    match member(v, key) {
        Some(JsonV::Str(s)) => Some(s),
        _ => None,
    }
}

/// The number of the member of an object with this key, where it is an unsigned integer.
pub open spec fn member_num(v: JsonV, key: Seq<char>) -> Option<u64> {
    match member(v, key) {
        Some(JsonV::Num(n)) => Some(n),
        _ => None,
    }
}

/// The member of an object with this key: `Value::get`, which finds nothing in a value that is no
/// object.
#[verifier::external_body]
pub(crate) fn json_get<'a>(v: &'a Value, key: &str) -> (r: Option<&'a Value>)
    ensures
        match r {
            Some(x) => member(json_view(*v), key@) == Some(json_view(*x)),
            None => member(json_view(*v), key@) is None,
        },
{
    v.get(key)
}

/// The text of the member of an object with this key, where it is a string.
pub fn get_str(v: &Value, key: &str) -> (r: Option<String>)
    ensures
        crate::text::opt_view(r) == member_str(json_view(*v), key@),
{
    match json_get(v, key) {
        Some(x) => match x.as_str() {
            Some(s) => Some(s.to_owned()),
            None => None,
        },
        None => None,
    }
}

/// The number of the member of an object with this key, where it is an unsigned integer.
pub fn get_num(v: &Value, key: &str) -> (r: Option<u64>)
    ensures
        r == member_num(json_view(*v), key@),
{
    match json_get(v, key) {
        Some(x) => x.as_u64(),
        None => None,
    }
}

/// A pair whose key no later pair has gives the member with that key.
pub proof fn member_of_pair(p: Seq<(Seq<char>, JsonV)>, i: int)
    requires
        0 <= i < p.len(),
        forall|j: int| i < j < p.len() ==> (#[trigger] p[j]).0 != p[i].0,
    ensures
        member(object(p), p[i].0) == Some(p[i].1),
    decreases p.len(),
{
    if i < p.len() - 1 {
        assert(p.last() == p[p.len() - 1]);
        member_of_pair(p.drop_last(), i);
    }
}

/// A key that no pair has gives no member.
pub proof fn member_of_no_pair(p: Seq<(Seq<char>, JsonV)>, key: Seq<char>)
    requires
        forall|j: int| 0 <= j < p.len() ==> (#[trigger] p[j]).0 != key,
    ensures
        member(object(p), key) is None,
    decreases p.len(),
{
    if p.len() > 0 {
        assert(p.last() == p[p.len() - 1]);
        member_of_no_pair(p.drop_last(), key);
    }
}

/// The members of a flat object are scalar.
proof fn flat_member(m: Map<Seq<char>, JsonV>, k: Seq<char>)
    requires
        flat(JsonV::Obj(m)),
        m.dom().contains(k),
    ensures
        scalar(m[k]),
{
    let v = JsonV::Obj(m);
    assert(v->Obj_0 == m);
}

/// The object of scalar values is flat.
pub proof fn object_of_scalars(p: Seq<(Seq<char>, JsonV)>)
    requires
        forall|j: int| 0 <= j < p.len() ==> scalar((#[trigger] p[j]).1),
    ensures
        flat(object(p)),
    decreases p.len(),
{
    if p.len() > 0 {
        assert(p.last() == p[p.len() - 1]);
        assert forall|j: int| 0 <= j < p.drop_last().len() implies scalar(
            (#[trigger] p.drop_last()[j]).1,
        ) by {
            assert(p.drop_last()[j] == p[j]);
        }
        object_of_scalars(p.drop_last());
        let m = members(p.drop_last());
        assert(scalar(p.last().1));
        assert forall|k: Seq<char>| #[trigger] members(p).dom().contains(k) implies scalar(
            members(p)[k],
        ) by {
            if k != p.last().0 {
                flat_member(m, k);
            }
        }
    }
}

/// The text that serde_json writes for a value.
pub uninterp spec fn json_text(v: JsonV) -> Seq<char>;

/// The value that serde_json reads from bytes, where they are JSON.
pub uninterp spec fn json_parsed(b: Seq<u8>) -> Option<JsonV>;

/// A value that is a string, an unsigned integer, a truth value or null.
pub open spec fn scalar(v: JsonV) -> bool {
    v is Str || v is Num || v is Bool || v is Null
}

/// An object whose members are all scalar.
pub open spec fn flat(v: JsonV) -> bool {
    match v {
        JsonV::Obj(m) => forall|k: Seq<char>| m.dom().contains(k) ==> scalar(#[trigger] m[k]),
        _ => false,
    }
}

/// The key that `serde_json::from_slice` does not take for that of a member where it comes first in an
/// object: it reads the text of the member in place of the object.
pub const RAW_KEY: &'static str = "$serde_json::private::RawValue";

/// The text of a value: what `Value` displays, compact JSON with the keys in order. Of a flat object
/// without a member `RAW_KEY` it is stated that `serde_json::from_slice` reads from it what was written.
#[verifier::external_body]
pub(crate) fn json_to_text(v: &Value) -> (r: String)
    ensures
        r@ == json_text(json_view(*v)),
        flat(json_view(*v)) && member(json_view(*v), RAW_KEY@) is None ==> json_parsed(encode_utf8(r@)) == Some(
            json_view(*v),
        ),
{
    v.to_string()
}

/// The value that bytes hold: `serde_json::from_slice` into a `Value`.
#[verifier::external_body]
pub(crate) fn json_of_bytes(b: &[u8]) -> (r: Option<Value>)
    ensures
        match r {
            Some(v) => json_parsed(b@) == Some(json_view(v)),
            None => json_parsed(b@) is None,
        },
{
    serde_json::from_slice(b).ok()
}

} // verus!
