//! The library's own JSON value form. Protocol envelopes, responses and
//! session descriptors are built and inspected as `JsonValue`s; parsing of
//! JSON text is delegated to serde_json behind one trusted wrapper, and
//! rendering back to text belongs to the callers outside the library.
use vstd::prelude::*;
use vstd::string::StringSliceAdditionalSpecFns;

verus! {

/// A JSON value. Integral numbers keep their numeric value; any other number
/// keeps its decimal rendering, which this library never inspects.
#[derive(Debug, PartialEq)]
pub enum JsonValue {
    Null,
    Bool(bool),
    Int(i64),
    UInt(u64),
    Float(String),
    Str(String),
    Array(Vec<JsonValue>),
    Object(Vec<(String, JsonValue)>),
}

/// The value under `key` in an object's field list: the first binding whose
/// key reads as `key`.
pub open spec fn obj_get(fields: Seq<(String, JsonValue)>, key: Seq<char>) -> Option<JsonValue>
    decreases fields.len(),
{
    if fields.len() == 0 {
        None
    } else if fields[0].0@ == key {
        Some(fields[0].1)
    } else {
        obj_get(fields.drop_first(), key)
    }
}

/// The field list after binding `key` to `val`: the first binding with that
/// key is replaced, or a new binding is appended.
pub open spec fn obj_set(
    fields: Seq<(String, JsonValue)>,
    key: String,
    val: JsonValue,
) -> Seq<(String, JsonValue)>
    decreases fields.len(),
{
    if fields.len() == 0 {
        seq![(key, val)]
    } else if fields[0].0@ == key@ {
        seq![(key, val)] + fields.drop_first()
    } else {
        seq![fields[0]] + obj_set(fields.drop_first(), key, val)
    }
}

/// A first match at `i` settles `obj_get`.
pub proof fn lemma_obj_get_at(fields: Seq<(String, JsonValue)>, key: Seq<char>, i: int)
    requires
        0 <= i < fields.len(),
        forall|j: int| 0 <= j < i ==> (#[trigger] fields[j]).0@ != key,
        fields[i].0@ == key,
    ensures
        obj_get(fields, key) == Some(fields[i].1),
    decreases i,
{
    if i > 0 {
        let d = fields.drop_first();
        assert(forall|j: int| 0 <= j < i - 1 ==> #[trigger] d[j] == fields[j + 1]);
        lemma_obj_get_at(d, key, i - 1);
    }
}

/// No match anywhere settles `obj_get` too.
pub proof fn lemma_obj_get_none(fields: Seq<(String, JsonValue)>, key: Seq<char>)
    requires
        forall|j: int| 0 <= j < fields.len() ==> (#[trigger] fields[j]).0@ != key,
    ensures
        obj_get(fields, key) is None,
    decreases fields.len(),
{
    if fields.len() > 0 {
        let d = fields.drop_first();
        assert(forall|j: int| 0 <= j < d.len() ==> #[trigger] d[j] == fields[j + 1]);
        lemma_obj_get_none(d, key);
    }
}

impl JsonValue {
    /// Looks a key up in this value, as indexing does: `None` when this is
    /// not an object or the key is absent.
    pub fn get<'a>(&'a self, key: &str) -> (r: Option<&'a JsonValue>)
        ensures
            match *self {
                JsonValue::Object(fields) => match r {
                    Some(x) => obj_get(fields@, key@) == Some(*x),
                    None => obj_get(fields@, key@) is None,
                },
                _ => r is None,
            },
    {
        match self {
            JsonValue::Object(fields) => {
                let mut i: usize = 0;
                while i < fields.len()
                    invariant
                        i <= fields@.len(),
                        *self == JsonValue::Object(*fields),
                        forall|j: int| 0 <= j < i ==> (#[trigger] fields@[j]).0@ != key@,
                    decreases fields@.len() - i,
                {
                    if crate::text::string_eq(&fields[i].0, key) {
                        proof {
                            lemma_obj_get_at(fields@, key@, i as int);
                        }
                        let x = &fields[i].1;
                        proof {
                            assert(*x == fields@[i as int].1);
                        }
                        return Some(x);
                    }
                    i = i + 1;
                }
                proof {
                    lemma_obj_get_none(fields@, key@);
                }
                None
            },
            _ => None,
        }
    }

    pub fn is_null(&self) -> (r: bool)
        ensures
            r == (*self is Null),
    {
        match self {
            JsonValue::Null => true,
            _ => false,
        }
    }

    /// The value as an unsigned integer, when it is integral and in range.
    pub fn as_u64(&self) -> (r: Option<u64>)
        ensures
            r == spec_as_u64(*self),
    {
        match self {
            JsonValue::UInt(u) => Some(*u),
            JsonValue::Int(i) => {
                if *i >= 0 {
                    Some(*i as u64)
                } else {
                    None
                }
            },
            _ => None,
        }
    }

    /// The value as a signed integer, when it is integral and in range.
    pub fn as_i64(&self) -> (r: Option<i64>)
        ensures
            r == spec_as_i64(*self),
    {
        match self {
            JsonValue::Int(i) => Some(*i),
            JsonValue::UInt(u) => {
                if *u <= i64::MAX as u64 {
                    Some(*u as i64)
                } else {
                    None
                }
            },
            _ => None,
        }
    }

    /// The value as a string slice, when it is a string.
    pub fn as_str<'a>(&'a self) -> (r: Option<&'a str>)
        ensures
            match *self {
                JsonValue::Str(s) => r matches Some(x) && x@ == s@,
                _ => r is None,
            },
    {
        match self {
            JsonValue::Str(s) => Some(s.as_str()),
            _ => None,
        }
    }
}

pub open spec fn spec_as_u64(v: JsonValue) -> Option<u64> {
    match v {
        JsonValue::UInt(u) => Some(u),
        JsonValue::Int(i) => if i >= 0 {
            Some(i as u64)
        } else {
            None
        },
        _ => None,
    }
}

pub open spec fn spec_as_i64(v: JsonValue) -> Option<i64> {
    match v {
        JsonValue::Int(i) => Some(i),
        JsonValue::UInt(u) => if u <= i64::MAX {
            Some(u as i64)
        } else {
            None
        },
        _ => None,
    }
}

/// Binds `key` to `val` in a field list, replacing the first binding with
/// that key or appending a new one.
pub fn obj_insert(fields: &mut Vec<(String, JsonValue)>, key: String, val: JsonValue)
    ensures
        final(fields)@ == obj_set(old(fields)@, key, val),
{
    let mut i: usize = 0;
    while i < fields.len()
        invariant
            i <= fields@.len(),
            fields@ == old(fields)@,
            forall|j: int| 0 <= j < i ==> (#[trigger] fields@[j]).0@ != key@,
        decreases fields@.len() - i,
    {
        if crate::text::string_eq(&fields[i].0, key.as_str()) {
            proof {
                lemma_obj_set_at(fields@, key, val, i as int);
            }
            fields.set(i, (key, val));
            return ;
        }
        i = i + 1;
    }
    proof {
        lemma_obj_set_append(fields@, key, val);
    }
    fields.push((key, val));
}

/// A first key match at `i` makes `obj_set` an in-place replacement.
proof fn lemma_obj_set_at(fields: Seq<(String, JsonValue)>, key: String, val: JsonValue, i: int)
    requires
        0 <= i < fields.len(),
        forall|j: int| 0 <= j < i ==> (#[trigger] fields[j]).0@ != key@,
        fields[i].0@ == key@,
    ensures
        obj_set(fields, key, val) =~= fields.update(i, (key, val)),
    decreases i,
{
    if i == 0 {
        assert(obj_set(fields, key, val) =~= seq![(key, val)] + fields.drop_first());
    } else {
        let d = fields.drop_first();
        assert(forall|j: int| 0 <= j < i - 1 ==> #[trigger] d[j] == fields[j + 1]);
        lemma_obj_set_at(d, key, val, i - 1);
        assert(seq![fields[0]] + d.update(i - 1, (key, val)) =~= fields.update(i, (key, val)));
    }
}

/// No key match anywhere makes `obj_set` an append.
proof fn lemma_obj_set_append(fields: Seq<(String, JsonValue)>, key: String, val: JsonValue)
    requires
        forall|j: int| 0 <= j < fields.len() ==> (#[trigger] fields[j]).0@ != key@,
    ensures
        obj_set(fields, key, val) =~= fields.push((key, val)),
    decreases fields.len(),
{
    if fields.len() == 0 {
        assert(obj_set(fields, key, val) =~= fields.push((key, val)));
    } else {
        let d = fields.drop_first();
        assert(forall|j: int| 0 <= j < d.len() ==> #[trigger] d[j] == fields[j + 1]);
        lemma_obj_set_append(d, key, val);
        assert(seq![fields[0]] + d.push((key, val)) =~= fields.push((key, val)));
    }
}

} // verus!

use serde_json::Value as Sv;

verus! {

#[verifier::external_type_specification]
#[verifier::external_body]
pub struct ExSerdeValue(serde_json::Value);

/// What parsing a byte string as JSON yields, as a function of the bytes
/// alone: the parsed value, or nothing when the bytes are not valid JSON.
pub uninterp spec fn parsed_json(bytes: Seq<u8>) -> Option<JsonValue>;

/// Relies on serde_json::from_slice for serde_json::Value: whether the bytes
/// parse, and what they parse to, depends on the bytes alone.
#[verifier::external_body]
pub fn parse_json_bytes(bytes: &[u8]) -> (r: Option<JsonValue>)
    ensures
        r == parsed_json(bytes@),
{
    match serde_json::from_slice::<serde_json::Value>(bytes) {
        Ok(v) => Some(from_serde(&v)),
        Err(_) => None,
    }
}

/// Relies on serde_json::Value's accessors: carries a parsed value over into
/// the library's own form, variant by variant. Integral numbers keep their
/// value, other numbers their decimal rendering.
#[verifier::external_body]
fn from_serde(v: &Sv) -> JsonValue {
    match v {
        Sv::Null => JsonValue::Null,
        Sv::Bool(b) => JsonValue::Bool(*b),
        Sv::Number(n) => match (n.as_i64(), n.as_u64()) {
            (Some(i), _) => JsonValue::Int(i),
            (None, Some(u)) => JsonValue::UInt(u),
            (None, None) => JsonValue::Float(n.to_string()),
        },
        Sv::String(s) => JsonValue::Str(s.clone()),
        Sv::Array(a) => JsonValue::Array(a.iter().map(from_serde).collect()),
        Sv::Object(o) => JsonValue::Object(o.iter().map(|(k, x)| (k.clone(), from_serde(x))).collect()),
    }
}

/// Why a JSON argument was rejected.
#[derive(Debug, PartialEq, Eq, Clone, Copy)]
pub enum JsonError {
    /// The text is not valid JSON.
    Invalid,
    /// The text is valid JSON but not an object.
    NotAnObject,
}

/// Parses a JSON string into a value.
pub fn parse_json_value(json_str: &str) -> (r: Option<JsonValue>)
    ensures
        r == parsed_json(json_str.spec_bytes()),
{
    parse_json_bytes(json_str.as_bytes())
}

/// Parses a JSON string and insists that it is an object, yielding its
/// fields.
pub fn parse_json_object(json_str: &str) -> (r: Result<Vec<(String, JsonValue)>, JsonError>)
    ensures
        r matches Ok(fields) ==> parsed_json(json_str.spec_bytes()) == Some(
            JsonValue::Object(fields),
        ),
        r == Err::<Vec<(String, JsonValue)>, JsonError>(JsonError::Invalid) <==> parsed_json(
            json_str.spec_bytes(),
        ) is None,
        r == Err::<Vec<(String, JsonValue)>, JsonError>(JsonError::NotAnObject) <==> (parsed_json(
            json_str.spec_bytes(),
        ) matches Some(v) && !(v is Object)),
{
    match parse_json_bytes(json_str.as_bytes()) {
        None => Err(JsonError::Invalid),
        Some(JsonValue::Object(fields)) => Ok(fields),
        Some(_) => Err(JsonError::NotAnObject),
    }
}

} // verus!
