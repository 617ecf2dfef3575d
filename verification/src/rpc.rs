//! JSON-RPC protocol logic: the parameter builder, the request envelope, and
//! the interpretation of a response body into a result or a classified
//! error. The HTTP transport that carries these values lives outside the
//! library; it hands bodies in as parsed [`JsonValue`]s.
use vstd::prelude::*;

use crate::json::{obj_get, obj_set, spec_as_i64, JsonValue};
use crate::text::string_eq;

verus! {

pub const BEVY_QUERY: &'static str = "bevy/query";

pub const BEVY_LIST: &'static str = "bevy/list";

pub const BEVY_LIST_RESOURCES: &'static str = "bevy/list_resources";

pub const BEVY_GET: &'static str = "bevy/get";

pub const BEVY_GET_RESOURCE: &'static str = "bevy/get_resource";

pub const BEVY_INSERT: &'static str = "bevy/insert";

pub const BEVY_INSERT_RESOURCE: &'static str = "bevy/insert_resource";

pub const BEVY_SPAWN: &'static str = "bevy/spawn";

pub const BEVY_DESTROY: &'static str = "bevy/destroy";

pub const BEVY_REMOVE: &'static str = "bevy/remove";

pub const BEVY_REMOVE_RESOURCE: &'static str = "bevy/remove_resource";

pub const BEVY_MUTATE_COMPONENT: &'static str = "bevy/mutate_component";

pub const BEVY_MUTATE_RESOURCE: &'static str = "bevy/mutate_resource";

pub const BEVY_REPARENT: &'static str = "bevy/reparent";

pub const BEVY_REGISTRY_SCHEMA: &'static str = "bevy/registry/schema";

pub const BEVY_GET_WATCH: &'static str = "bevy/get+watch";

pub const BEVY_LIST_WATCH: &'static str = "bevy/list+watch";

pub const BRP_TOOL_SCREENSHOT: &'static str = "brp_tool/screenshot";

pub const BRP_TOOL_SHUTDOWN: &'static str = "brp_tool/shutdown";

pub const RPC_DISCOVER: &'static str = "rpc.discover";

/// An object's fields as the key-to-value map they stand for; an earlier
/// binding shadows a later one with the same key, as lookup does.
pub open spec fn obj_map(fields: Seq<(String, JsonValue)>) -> Map<Seq<char>, JsonValue>
    decreases fields.len(),
{
    if fields.len() == 0 {
        Map::empty()
    } else {
        obj_map(fields.drop_first()).insert(fields[0].0@, fields[0].1)
    }
}

proof fn lemma_obj_set_map(fields: Seq<(String, JsonValue)>, key: String, val: JsonValue)
    ensures
        obj_map(obj_set(fields, key, val)) == obj_map(fields).insert(key@, val),
    decreases fields.len(),
{
    if fields.len() == 0 {
        let s = obj_set(fields, key, val);
        assert(s =~= seq![(key, val)]);
        assert(s.len() == 1);
        assert(s[0] == (key, val));
        assert(s.drop_first() =~= Seq::<(String, JsonValue)>::empty());
        assert(obj_map(s) == obj_map(s.drop_first()).insert(s[0].0@, s[0].1));
        assert(obj_map(s) =~= obj_map(fields).insert(key@, val));
    } else if fields[0].0@ == key@ {
        let s = obj_set(fields, key, val);
        assert(s =~= seq![(key, val)] + fields.drop_first());
        assert(s.drop_first() =~= fields.drop_first());
        assert(s[0] == (key, val));
        assert(obj_map(s) =~= obj_map(fields).insert(key@, val));
    } else {
        let s = obj_set(fields, key, val);
        assert(s =~= seq![fields[0]] + obj_set(fields.drop_first(), key, val));
        assert(s.drop_first() =~= obj_set(fields.drop_first(), key, val));
        assert(s[0] == fields[0]);
        lemma_obj_set_map(fields.drop_first(), key, val);
        assert(obj_map(s) =~= obj_map(fields).insert(key@, val));
    }
}

/// A fluent builder for the parameter object of a JSON-RPC request.
pub struct RpcParamsBuilder {
    pub params: Vec<(String, JsonValue)>,
}

impl View for RpcParamsBuilder {
    type V = Map<Seq<char>, JsonValue>;

    open spec fn view(&self) -> Map<Seq<char>, JsonValue> {
        obj_map(self.params@)
    }
}

impl RpcParamsBuilder {
    /// An empty parameter object.
    pub fn new() -> (r: Self)
        ensures
            r@ == Map::<Seq<char>, JsonValue>::empty(),
            r.params@.len() == 0,
    {
        RpcParamsBuilder { params: Vec::new() }
    }

    /// Binds any key to any value.
    pub fn field(self, key: &str, value: JsonValue) -> (r: Self)
        ensures
            r@ == self@.insert(key@, value),
    {
        let mut b = self;
        let k = <String as vstd::string::StringExecFns>::from_str(key);
        proof {
            lemma_obj_set_map(b.params@, k, value);
        }
        crate::json::obj_insert(&mut b.params, k, value);
        b
    }

    /// Binds the entity identifier parameter.
    pub fn entity(self, entity: u64) -> (r: Self)
        ensures
            r@ == self@.insert("entity"@, JsonValue::UInt(entity)),
    {
        self.field("entity", JsonValue::UInt(entity))
    }

    /// Binds the component name parameter.
    pub fn component(self, component: &str) -> (r: Self)
        ensures
            r@.dom() == self@.dom().insert("component"@),
            r@["component"@] matches JsonValue::Str(s) && s@ == component@,
            forall|k: Seq<char>| k != "component"@ && self@.dom().contains(k) ==> r@[k] == self@[k],
    {
        let s = <String as vstd::string::StringExecFns>::from_str(component);
        let r = self.field("component", JsonValue::Str(s));
        proof {
            assert(r@.dom() =~= self@.dom().insert("component"@));
        }
        r
    }

    /// Binds the resource name parameter.
    pub fn resource(self, resource: &str) -> (r: Self)
        ensures
            r@.dom() == self@.dom().insert("resource"@),
            r@["resource"@] matches JsonValue::Str(s) && s@ == resource@,
            forall|k: Seq<char>| k != "resource"@ && self@.dom().contains(k) ==> r@[k] == self@[k],
    {
        let s = <String as vstd::string::StringExecFns>::from_str(resource);
        let r = self.field("resource", JsonValue::Str(s));
        proof {
            assert(r@.dom() =~= self@.dom().insert("resource"@));
        }
        r
    }

    /// Binds the file path parameter.
    pub fn path(self, path: &str) -> (r: Self)
        ensures
            r@.dom() == self@.dom().insert("path"@),
            r@["path"@] matches JsonValue::Str(s) && s@ == path@,
            forall|k: Seq<char>| k != "path"@ && self@.dom().contains(k) ==> r@[k] == self@[k],
    {
        let s = <String as vstd::string::StringExecFns>::from_str(path);
        let r = self.field("path", JsonValue::Str(s));
        proof {
            assert(r@.dom() =~= self@.dom().insert("path"@));
        }
        r
    }

    /// Binds the spawn components value as given.
    pub fn components(self, components: JsonValue) -> (r: Self)
        ensures
            r@ == self@.insert("components"@, components),
    {
        self.field("components", components)
    }

    /// Binds the components parameter to a one-entry object mapping the
    /// component name to its data.
    pub fn component_data(self, component: &str, data: JsonValue) -> (r: Self)
        ensures
            r@.dom() == self@.dom().insert("components"@),
            r@["components"@] matches JsonValue::Object(f) && f@.len() == 1 && f@[0].0@
                == component@ && f@[0].1 == data,
            forall|k: Seq<char>| k != "components"@ && self@.dom().contains(k) ==> r@[k] == self@[k],
    {
        let mut inner: Vec<(String, JsonValue)> = Vec::new();
        inner.push((<String as vstd::string::StringExecFns>::from_str(component), data));
        let r = self.field("components", JsonValue::Object(inner));
        proof {
            assert(r@.dom() =~= self@.dom().insert("components"@));
        }
        r
    }

    /// Binds the components parameter to an array of component names.
    pub fn component_list(self, components: &Vec<String>) -> (r: Self)
        ensures
            r@.dom() == self@.dom().insert("components"@),
            r@["components"@] matches JsonValue::Array(a) && a@.len() == components@.len() && (
            forall|i: int|
                0 <= i < a@.len() ==> ((#[trigger] a@[i]) matches JsonValue::Str(s) && s@
                    == components@[i]@)),
            forall|k: Seq<char>| k != "components"@ && self@.dom().contains(k) ==> r@[k] == self@[k],
    {
        let mut names: Vec<JsonValue> = Vec::new();
        let mut i: usize = 0;
        while i < components.len()
            invariant
                i <= components@.len(),
                names@.len() == i,
                forall|j: int|
                    0 <= j < i ==> ((#[trigger] names@[j]) matches JsonValue::Str(s) && s@
                        == components@[j]@),
            decreases components@.len() - i,
        {
            names.push(JsonValue::Str(components[i].clone()));
            i = i + 1;
        }
        let r = self.field("components", JsonValue::Array(names));
        proof {
            assert(r@.dom() =~= self@.dom().insert("components"@));
        }
        r
    }

    /// Binds the parent parameter as given.
    pub fn parent(self, parent: JsonValue) -> (r: Self)
        ensures
            r@ == self@.insert("parent"@, parent),
    {
        self.field("parent", parent)
    }

    /// Binds the entities parameter to an array of entity identifiers.
    pub fn entities(self, entities: &Vec<u64>) -> (r: Self)
        ensures
            r@.dom() == self@.dom().insert("entities"@),
            r@["entities"@] matches JsonValue::Array(a) && a@.len() == entities@.len() && (
            forall|i: int| 0 <= i < a@.len() ==> #[trigger] a@[i] == JsonValue::UInt(entities@[i])),
            forall|k: Seq<char>| k != "entities"@ && self@.dom().contains(k) ==> r@[k] == self@[k],
    {
        let mut ids: Vec<JsonValue> = Vec::new();
        let mut i: usize = 0;
        while i < entities.len()
            invariant
                i <= entities@.len(),
                ids@.len() == i,
                forall|j: int| 0 <= j < i ==> #[trigger] ids@[j] == JsonValue::UInt(entities@[j]),
            decreases entities@.len() - i,
        {
            ids.push(JsonValue::UInt(entities[i]));
            i = i + 1;
        }
        let r = self.field("entities", JsonValue::Array(ids));
        proof {
            assert(r@.dom() =~= self@.dom().insert("entities"@));
        }
        r
    }

    /// The finished parameter object.
    pub fn build(self) -> (r: JsonValue)
        ensures
            r == JsonValue::Object(self.params),
            r matches JsonValue::Object(f) && obj_map(f@) == self@,
    {
        JsonValue::Object(self.params)
    }
}

} // verus!

verus! {

/// Looks a key up in an object's field list, yielding the index of the
/// first binding whose key reads as `key`.
fn lookup_idx(fields: &Vec<(String, JsonValue)>, key: &str) -> (r: Option<usize>)
    ensures
        r matches Some(i) ==> i < fields@.len() && fields@[i as int].0@ == key@ && obj_get(
            fields@,
            key@,
        ) == Some(fields@[i as int].1) && (forall|j: int|
            0 <= j < i ==> (#[trigger] fields@[j]).0@ != key@),
        r is None ==> obj_get(fields@, key@) is None,
{
    let mut i: usize = 0;
    while i < fields.len()
        invariant
            i <= fields@.len(),
            forall|j: int| 0 <= j < i ==> (#[trigger] fields@[j]).0@ != key@,
        decreases fields@.len() - i,
    {
        if string_eq(&fields[i].0, key) {
            proof {
                crate::json::lemma_obj_get_at(fields@, key@, i as int);
            }
            return Some(i);
        }
        i = i + 1;
    }
    proof {
        crate::json::lemma_obj_get_none(fields@, key@);
    }
    None
}

/// Builds the JSON-RPC 2.0 request envelope around a method name, a request
/// identifier and a parameter value.
pub fn build_request(method: &str, id: u64, params: JsonValue) -> (r: JsonValue)
    ensures
        r matches JsonValue::Object(f) && f@.len() == 4 && f@[0].0@ == "jsonrpc"@ && (f@[0].1
            matches JsonValue::Str(v) && v@ == "2.0"@) && f@[1].0@ == "method"@ && (f@[1].1
            matches JsonValue::Str(m) && m@ == method@) && f@[2].0@ == "id"@ && f@[2].1
            == JsonValue::UInt(id) && f@[3].0@ == "params"@ && f@[3].1 == params,
{
    let mut f: Vec<(String, JsonValue)> = Vec::new();
    f.push((
        <String as vstd::string::StringExecFns>::from_str("jsonrpc"),
        JsonValue::Str(<String as vstd::string::StringExecFns>::from_str("2.0")),
    ));
    f.push((
        <String as vstd::string::StringExecFns>::from_str("method"),
        JsonValue::Str(<String as vstd::string::StringExecFns>::from_str(method)),
    ));
    f.push((<String as vstd::string::StringExecFns>::from_str("id"), JsonValue::UInt(id)));
    f.push((<String as vstd::string::StringExecFns>::from_str("params"), params));
    JsonValue::Object(f)
}

/// How a call against the protocol endpoint failed.
#[derive(Debug, PartialEq)]
pub enum RpcError {
    /// The response carried an error object; its code and message are kept
    /// verbatim, defaulting to 0 and "Unknown error" where absent or of the
    /// wrong shape.
    Remote { code: i64, message: String },
    /// The response carried an error value that is not an object.
    RemoteOther { error: JsonValue },
}

/// The code a response's error object carries: its `code` field read as a
/// signed integer, or 0.
pub open spec fn spec_error_code(e: Seq<(String, JsonValue)>) -> i64 {
    match obj_get(e, "code"@) {
        Some(v) => match spec_as_i64(v) {
            Some(c) => c,
            None => 0,
        },
        None => 0,
    }
}

/// The message a response's error object carries: its `message` field when
/// that is a string, or "Unknown error".
pub open spec fn spec_error_message(e: Seq<(String, JsonValue)>) -> Seq<char> {
    match obj_get(e, "message"@) {
        Some(JsonValue::Str(s)) => s@,
        _ => "Unknown error"@,
    }
}

/// What interpreting a response body yields: on a body without an `error`
/// binding, exactly the `result` field (`Null` when absent), never the
/// enclosing envelope; on a body with one, the embedded error, its code and
/// message preserved.
pub open spec fn spec_interpret_response(body: JsonValue, r: Result<JsonValue, RpcError>) -> bool {
    match body {
        JsonValue::Object(bf) => match obj_get(bf@, "error"@) {
            Some(JsonValue::Object(ef)) => r matches Err(RpcError::Remote { code, message })
                && code == spec_error_code(ef@) && message@ == spec_error_message(ef@),
            Some(e) => r == Err::<JsonValue, RpcError>(RpcError::RemoteOther { error: e }),
            None => match obj_get(bf@, "result"@) {
                Some(v) => r == Ok::<JsonValue, RpcError>(v),
                None => r == Ok::<JsonValue, RpcError>(JsonValue::Null),
            },
        },
        _ => r == Ok::<JsonValue, RpcError>(JsonValue::Null),
    }
}

/// Turns a parsed response body into the call's outcome.
pub fn interpret_response(body: JsonValue) -> (r: Result<JsonValue, RpcError>)
    ensures
        spec_interpret_response(body, r),
{
    match body {
        JsonValue::Object(mut bf) => {
            match lookup_idx(&bf, "error") {
                Some(idx) => {
                    let (_k, e) = bf.remove(idx);
                    match e {
                        JsonValue::Object(ef) => {
                            let code: i64 = match lookup_idx(&ef, "code") {
                                Some(ci) => match ef[ci].1.as_i64() {
                                    Some(c) => c,
                                    None => 0,
                                },
                                None => 0,
                            };
                            let message: String = match lookup_idx(&ef, "message") {
                                Some(mi) => match &ef[mi].1 {
                                    JsonValue::Str(s) => s.clone(),
                                    _ => <String as vstd::string::StringExecFns>::from_str(
                                        "Unknown error",
                                    ),
                                },
                                None => <String as vstd::string::StringExecFns>::from_str(
                                    "Unknown error",
                                ),
                            };
                            Err(RpcError::Remote { code, message })
                        },
                        e => Err(RpcError::RemoteOther { error: e }),
                    }
                },
                None => {
                    match lookup_idx(&bf, "result") {
                        Some(idx) => {
                            let (_k, v) = bf.remove(idx);
                            Ok(v)
                        },
                        None => Ok(JsonValue::Null),
                    }
                },
            }
        },
        _ => Ok(JsonValue::Null),
    }
}

/// Relies on std::time::SystemTime::now and duration_since: a reading of the
/// system clock in microseconds since the epoch; nothing is assumed of its
/// value.
#[verifier::external_body]
fn current_micros() -> u64 {
    std::time::SystemTime::now()
        .duration_since(std::time::UNIX_EPOCH)
        .unwrap_or_default()
        .as_micros() as u64
}

/// A request identifier derived from the clock, so that read-only callers
/// need no shared counter. Nothing is promised of its value.
pub fn generate_request_id() -> u64 {
    current_micros()
}

} // verus!

verus! {

/// Whether an HTTP status opens a streaming response: only a status in the
/// success class (200 through 299) does; any other ends the call at once.
pub fn stream_status_accepted(status: u16) -> (r: bool)
    ensures
        r == (200 <= status && status < 300),
{
    200 <= status && status < 300
}

/// The message a refused streaming call reports: the status as rendered,
/// then the response body as context.
pub open spec fn spec_http_error_message(status_text: Seq<char>, body: Seq<char>) -> Seq<char> {
    "HTTP error "@ + status_text + ": "@ + body
}

/// Builds the error message for a streaming call refused by its HTTP
/// status.
pub fn http_error_message(status_text: &str, body: &str) -> (r: String)
    ensures
        r@ == spec_http_error_message(status_text@, body@),
{
    let mut out = crate::text::str_to_chars("HTTP error ");
    let st = crate::text::str_to_chars(status_text);
    crate::text::chars_extend(&mut out, &st);
    let sep = crate::text::str_to_chars(": ");
    crate::text::chars_extend(&mut out, &sep);
    let b = crate::text::str_to_chars(body);
    crate::text::chars_extend(&mut out, &b);
    crate::text::chars_to_string(&out)
}

} // verus!
