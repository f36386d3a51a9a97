//! A plain model of a parsed JSON document, and the trusted boundary to
//! `serde_json`, which does the actual text-to-tree parsing.

use vstd::prelude::*;
use vstd::string::*;

verus! {

/// A parsed JSON value, held in plain data the verifier can reason about.
///
/// Numbers that are representable as `i64` are held exactly; any other
/// number (fractional, or out of the `i64` range) is recorded as
/// [`JsonValue::BigNum`], since this library never reads such a value.
/// An object is held as its entries in ascending key order with duplicate
/// keys already resolved, as `serde_json`'s map hands them out.
pub enum JsonValue {
    Null,
    Bool(bool),
    Int(i64),
    BigNum,
    Str(String),
    Arr(Vec<JsonValue>),
    Obj(Vec<(String, JsonValue)>),
}

/// The JSON document a given body text parses to, or `None` when the
/// parser rejects the text (it is not valid JSON, or is nested beyond the
/// parser's limit). This names the result of `serde_json::from_str`
/// composed with the variant-for-variant carry-over below: that result is
/// a function of the text alone.
pub uninterp spec fn json_of(s: Seq<char>) -> Option<JsonValue>;

#[verifier::external_type_specification]
#[verifier::external_body]
pub struct ExSerdeValue(serde_json::Value);

/// Relies on `serde_json::Value`: carries each variant over one for one.
/// `Number` becomes `Int` exactly when `Number::as_i64` gives a value, else
/// `BigNum`; `Object` entries come out of `serde_json`'s map, which holds
/// them in ascending key order with duplicate keys already resolved.
#[verifier::external_body]
fn value_to_json(v: serde_json::Value) -> JsonValue {
    match v {
        serde_json::Value::Null => JsonValue::Null,
        serde_json::Value::Bool(b) => JsonValue::Bool(b),
        serde_json::Value::Number(n) => match n.as_i64() {
            Some(i) => JsonValue::Int(i),
            None => JsonValue::BigNum,
        },
        serde_json::Value::String(s) => JsonValue::Str(s),
        serde_json::Value::Array(a) => JsonValue::Arr(a.into_iter().map(value_to_json).collect()),
        serde_json::Value::Object(m) => JsonValue::Obj(
            m.into_iter().map(|(k, x)| (k, value_to_json(x))).collect(),
        ),
    }
}

/// Relies on `serde_json::from_str::<serde_json::Value>`: parses the text
/// as one JSON document, `Err` when the parser rejects it. The outcome,
/// with the tree carried over by `value_to_json`, is a function of the
/// text alone, named `json_of`.
#[verifier::external_body]
pub(crate) fn parse_json(s: &str) -> (r: Option<JsonValue>)
    ensures
        r == json_of(s@),
{
    match serde_json::from_str::<serde_json::Value>(s) {
        Ok(v) => Some(value_to_json(v)),
        Err(_) => None,
    }
}

/// Character-for-character equality of two string slices.
pub fn str_eq(a: &str, b: &str) -> (r: bool)
    ensures
        r == (a@ == b@),
{
    let alen = a.unicode_len();
    let blen = b.unicode_len();
    if alen != blen {
        return false;
    }
    let mut i: usize = 0;
    while i < alen
        invariant
            i <= alen,
            alen == a@.len(),
            blen == b@.len(),
            alen == blen,
            forall|k: int| 0 <= k < i ==> a@[k] == b@[k],
        decreases alen - i,
    {
        if a.get_char(i) != b.get_char(i) {
            return false;
        }
        i += 1;
    }
    proof {
        assert(a@ =~= b@);
    }
    true
}

/// The value stored under `key` in an object's entry list: the first entry
/// whose key matches, or `None` when no entry does.
pub open spec fn obj_lookup(fs: Seq<(String, JsonValue)>, key: Seq<char>) -> Option<JsonValue>
    decreases fs.len(),
{
    if fs.len() == 0 {
        None
    } else if fs[0].0@ == key {
        Some(fs[0].1)
    } else {
        obj_lookup(fs.skip(1), key)
    }
}

/// The value stored under whichever of the two key spellings is present,
/// trying `k1` first. A field that has only one spelling passes it twice.
pub open spec fn obj_lookup2(
    fs: Seq<(String, JsonValue)>,
    k1: Seq<char>,
    k2: Seq<char>,
) -> Option<JsonValue> {
    match obj_lookup(fs, k1) {
        Some(v) => Some(v),
        None => obj_lookup(fs, k2),
    }
}

/// Looks `key` up in an object's entry list.
pub fn obj_get<'a>(fields: &'a Vec<(String, JsonValue)>, key: &str) -> (r: Option<&'a JsonValue>)
    ensures
        match r {
            Some(v) => obj_lookup(fields@, key@) == Some(*v),
            None => obj_lookup(fields@, key@) is None,
        },
{
    let mut i: usize = 0;
    proof {
        assert(fields@.skip(0) =~= fields@);
    }
    while i < fields.len()
        invariant
            i <= fields@.len(),
            obj_lookup(fields@, key@) == obj_lookup(fields@.skip(i as int), key@),
        decreases fields@.len() - i,
    {
        proof {
            assert(fields@.skip(i as int)[0] == fields@[i as int]);
            assert(fields@.skip(i as int).skip(1) =~= fields@.skip(i as int + 1));
        }
        if str_eq(fields[i].0.as_str(), key) {
            return Some(&fields[i].1);
        }
        i += 1;
    }
    None
}

/// Looks up a field under either of its two key spellings, `k1` first.
pub fn obj_get2<'a>(
    fields: &'a Vec<(String, JsonValue)>,
    k1: &str,
    k2: &str,
) -> (r: Option<&'a JsonValue>)
    ensures
        match r {
            Some(v) => obj_lookup2(fields@, k1@, k2@) == Some(*v),
            None => obj_lookup2(fields@, k1@, k2@) is None,
        },
{
    match obj_get(fields, k1) {
        Some(v) => Some(v),
        None => obj_get(fields, k2),
    }
}

/// An optional integer field: absent and `null` both mean "no value";
/// an integer gives the value; any other kind of value is a type error.
pub open spec fn as_opt_int(v: Option<JsonValue>) -> Result<Option<i64>, ()> {
    match v {
        None => Ok(None),
        Some(JsonValue::Null) => Ok(None),
        Some(JsonValue::Int(i)) => Ok(Some(i)),
        Some(_) => Err(()),
    }
}

/// An optional boolean field, on the same pattern as [`as_opt_int`].
pub open spec fn as_opt_bool(v: Option<JsonValue>) -> Result<Option<bool>, ()> {
    match v {
        None => Ok(None),
        Some(JsonValue::Null) => Ok(None),
        Some(JsonValue::Bool(b)) => Ok(Some(b)),
        Some(_) => Err(()),
    }
}

/// An optional string field, on the same pattern as [`as_opt_int`].
pub open spec fn as_opt_str(v: Option<JsonValue>) -> Result<Option<String>, ()> {
    match v {
        None => Ok(None),
        Some(JsonValue::Null) => Ok(None),
        Some(JsonValue::Str(s)) => Ok(Some(s)),
        Some(_) => Err(()),
    }
}

/// The strings of an array all of whose elements are strings, or `None`
/// when some element is not a string.
pub open spec fn str_items(es: Seq<JsonValue>) -> Option<Seq<String>>
    decreases es.len(),
{
    if es.len() == 0 {
        Some(Seq::empty())
    } else {
        match str_items(es.drop_last()) {
            None => None,
            Some(pre) => match es.last() {
                JsonValue::Str(s) => Some(pre.push(s)),
                _ => None,
            },
        }
    }
}

/// An array with a non-string element somewhere has no string list.
proof fn lemma_str_items_none(es: Seq<JsonValue>, i: int)
    requires
        0 <= i < es.len(),
        !(es[i] matches JsonValue::Str(_)),
    ensures
        str_items(es) is None,
    decreases es.len(),
{
    if i == es.len() - 1 {
    } else {
        assert(es.drop_last()[i] == es[i]);
        lemma_str_items_none(es.drop_last(), i);
    }
}

/// An optional list-of-strings field: absent and `null` mean "no value";
/// an array of strings gives the list; anything else is a type error.
pub open spec fn as_opt_str_list(v: Option<JsonValue>) -> Result<Option<Seq<String>>, ()> {
    match v {
        None => Ok(None),
        Some(JsonValue::Null) => Ok(None),
        Some(JsonValue::Arr(es)) => match str_items(es@) {
            Some(ss) => Ok(Some(ss)),
            None => Err(()),
        },
        Some(_) => Err(()),
    }
}

/// Reads an optional integer field stored under either key spelling.
pub fn get_opt_int(fields: &Vec<(String, JsonValue)>, k1: &str, k2: &str) -> (r: Result<
    Option<i64>,
    (),
>)
    ensures
        r == as_opt_int(obj_lookup2(fields@, k1@, k2@)),
{
    match obj_get2(fields, k1, k2) {
        None => Ok(None),
        Some(v) => match v {
            JsonValue::Null => Ok(None),
            JsonValue::Int(i) => Ok(Some(*i)),
            _ => Err(()),
        },
    }
}

/// Reads an optional boolean field stored under either key spelling.
pub fn get_opt_bool(fields: &Vec<(String, JsonValue)>, k1: &str, k2: &str) -> (r: Result<
    Option<bool>,
    (),
>)
    ensures
        r == as_opt_bool(obj_lookup2(fields@, k1@, k2@)),
{
    match obj_get2(fields, k1, k2) {
        None => Ok(None),
        Some(v) => match v {
            JsonValue::Null => Ok(None),
            JsonValue::Bool(b) => Ok(Some(*b)),
            _ => Err(()),
        },
    }
}

/// Reads an optional string field stored under either key spelling.
pub fn get_opt_str(fields: &Vec<(String, JsonValue)>, k1: &str, k2: &str) -> (r: Result<
    Option<String>,
    (),
>)
    ensures
        r == as_opt_str(obj_lookup2(fields@, k1@, k2@)),
{
    match obj_get2(fields, k1, k2) {
        None => Ok(None),
        Some(v) => match v {
            JsonValue::Null => Ok(None),
            JsonValue::Str(s) => Ok(Some(s.clone())),
            _ => Err(()),
        },
    }
}

/// Reads an optional list-of-strings field stored under either key spelling.
pub fn get_opt_str_list(fields: &Vec<(String, JsonValue)>, k1: &str, k2: &str) -> (r: Result<
    Option<Vec<String>>,
    (),
>)
    ensures
        match r {
            Ok(Some(ss)) => as_opt_str_list(obj_lookup2(fields@, k1@, k2@)) == Ok::<
                Option<Seq<String>>,
                (),
            >(Some(ss@)),
            Ok(None) => as_opt_str_list(obj_lookup2(fields@, k1@, k2@)) == Ok::<
                Option<Seq<String>>,
                (),
            >(None::<Seq<String>>),
            Err(e) => as_opt_str_list(obj_lookup2(fields@, k1@, k2@)) is Err,
        },
{
    match obj_get2(fields, k1, k2) {
        None => Ok(None),
        Some(v) => match v {
            JsonValue::Null => Ok(None),
            JsonValue::Arr(es) => {
                let mut out: Vec<String> = Vec::new();
                let mut i: usize = 0;
                while i < es.len()
                    invariant
                        i <= es@.len(),
                        str_items(es@.take(i as int)) == Some(out@),
                        obj_lookup2(fields@, k1@, k2@) == Some(JsonValue::Arr(*es)),
                    decreases es@.len() - i,
                {
                    proof {
                        assert(es@.take(i as int + 1).drop_last() =~= es@.take(i as int));
                        assert(es@.take(i as int + 1).last() == es@[i as int]);
                    }
                    match &es[i] {
                        JsonValue::Str(s) => {
                            out.push(s.clone());
                        },
                        _ => {
                            proof {
                                lemma_str_items_none(es@, i as int);
                            }
                            return Err(());
                        },
                    }
                    i += 1;
                }
                proof {
                    assert(es@.take(es@.len() as int) =~= es@);
                }
                Ok(Some(out))
            },
            _ => Err(()),
        },
    }
}

} // verus!
