//! The computing half of the protocol client's composite calls. The HTTP
//! round trips live outside the library; each function here takes the
//! already-interpreted results of those calls and derives what the original
//! caller is owed: extracted component data, entity existence, the
//! readiness reply, and the aggregated per-entity component listing.
use vstd::prelude::*;

use crate::json::{obj_get, spec_as_u64, JsonValue};
use crate::text::strings_model;

verus! {

/// The generation half of an entity identifier: its upper 32 bits.
pub fn generation_of(entity: u64) -> (g: u32)
    ensures
        g == (entity >> 32) as u32,
{
    (entity >> 32) as u32
}

/// The component type names listed in a `bevy/list` result: the string
/// elements of the array, anything else ignored.
pub open spec fn spec_component_types(v: JsonValue) -> Seq<Seq<char>>
    decreases v,
{
    match v {
        JsonValue::Array(a) => types_of(a@),
        _ => Seq::empty(),
    }
}

/// The string elements of an array, in order.
pub open spec fn types_of(a: Seq<JsonValue>) -> Seq<Seq<char>>
    decreases a.len(),
{
    if a.len() == 0 {
        Seq::empty()
    } else {
        (match a[0] {
            JsonValue::Str(s) => seq![s@],
            _ => Seq::empty(),
        }) + types_of(a.drop_first())
    }
}

/// Collects the component type names out of a `bevy/list` result.
pub fn collect_component_types(result: &JsonValue) -> (r: Vec<String>)
    ensures
        strings_model(r@) == spec_component_types(*result),
{
    let mut r: Vec<String> = Vec::new();
    match result {
        JsonValue::Array(a) => {
            let ghost items = a@;
            let mut i: usize = 0;
            proof {
                assert(items.skip(0) =~= items);
                assert(strings_model(r@) + types_of(items) =~= types_of(items));
            }
            while i < a.len()
                invariant
                    i <= a@.len(),
                    a@ == items,
                    *result == JsonValue::Array(*a),
                    types_of(items) =~= strings_model(r@) + types_of(items.skip(i as int)),
                decreases a@.len() - i,
            {
                let ghost suffix = items.skip(i as int);
                proof {
                    assert(suffix[0] == items[i as int]);
                    assert(suffix.drop_first() =~= items.skip(i + 1));
                }
                match &a[i] {
                    JsonValue::Str(s) => {
                        let copy = <String as vstd::string::StringExecFns>::from_str(s.as_str());
                        proof {
                            assert(strings_model(r@.push(copy)) =~= strings_model(r@).push(copy@));
                            assert((strings_model(r@) + seq![s@]) + types_of(items.skip(i + 1))
                                =~= strings_model(r@) + (seq![s@] + types_of(items.skip(i + 1))));
                        }
                        r.push(copy);
                    },
                    _ => {
                        proof {
                            assert(strings_model(r@) + (Seq::<Seq<char>>::empty() + types_of(
                                items.skip(i + 1),
                            )) =~= strings_model(r@) + types_of(items.skip(i + 1)));
                        }
                    },
                }
                i = i + 1;
            }
            proof {
                assert(items.skip(items.len() as int) =~= Seq::<JsonValue>::empty());
                assert(strings_model(r@) + Seq::<Seq<char>>::empty() =~= strings_model(r@));
            }
        },
        _ => {},
    }
    r
}

/// The data a `bevy/get` result carries for one component: the value under
/// the component's name inside the result's `components` object.
pub open spec fn spec_component_data(result: JsonValue, component: Seq<char>) -> Option<
    JsonValue,
> {
    match result {
        JsonValue::Object(f) => match obj_get(f@, "components"@) {
            Some(JsonValue::Object(cf)) => obj_get(cf@, component),
            _ => None,
        },
        _ => None,
    }
}

/// Picks one component's data out of a `bevy/get` result.
pub fn component_data_of<'a>(result: &'a JsonValue, component: &str) -> (r: Option<
    &'a JsonValue,
>)
    ensures
        match r {
            Some(x) => spec_component_data(*result, component@) == Some(*x),
            None => spec_component_data(*result, component@) is None,
        },
{
    match result.get("components") {
        Some(components) => {
            match components {
                JsonValue::Object(_) => components.get(component),
                _ => None,
            }
        },
        None => None,
    }
}

/// The entity identifier a query-result element carries, when it is an
/// object whose `entity` field is an integral number.
pub open spec fn spec_entry_entity(e: JsonValue) -> Option<u64> {
    match e {
        JsonValue::Object(f) => match obj_get(f@, "entity"@) {
            Some(v) => spec_as_u64(v),
            None => None,
        },
        _ => None,
    }
}

fn entry_entity(e: &JsonValue) -> (r: Option<u64>)
    ensures
        r == spec_entry_entity(*e),
{
    match e.get("entity") {
        Some(v) => v.as_u64(),
        None => None,
    }
}

/// Whether a query result names the entity among its elements.
pub open spec fn spec_query_contains(v: JsonValue, entity: u64) -> bool {
    match v {
        JsonValue::Array(a) => exists|i: int|
            0 <= i < a.len() && spec_entry_entity(#[trigger] a[i]) == Some(entity),
        _ => false,
    }
}

/// Looks for an entity among a query result's elements.
pub fn query_contains_entity(result: &JsonValue, entity: u64) -> (r: bool)
    ensures
        r == spec_query_contains(*result, entity),
{
    match result {
        JsonValue::Array(a) => {
            let mut i: usize = 0;
            while i < a.len()
                invariant
                    i <= a@.len(),
                    *result == JsonValue::Array(*a),
                    forall|j: int| 0 <= j < i ==> spec_entry_entity(#[trigger] a@[j]) != Some(
                        entity,
                    ),
                decreases a@.len() - i,
            {
                match entry_entity(&a[i]) {
                    Some(id) => {
                        if id == entity {
                            proof {
                                assert(spec_entry_entity(a@[i as int]) == Some(entity));
                            }
                            return true;
                        }
                    },
                    None => {},
                }
                i = i + 1;
            }
            false
        },
        _ => false,
    }
}

/// Builds the composite per-entity value: the entity, its generation, and
/// the collected components object.
pub fn entity_json(entity: u64, components: Vec<(String, JsonValue)>) -> (r: JsonValue)
    ensures
        r matches JsonValue::Object(f) && f@.len() == 3 && f@[0].0@ == "entity"@ && f@[0].1
            == JsonValue::UInt(entity) && f@[1].0@ == "generation"@ && f@[1].1 == JsonValue::UInt(
            (entity >> 32) as u64,
        ) && f@[2].0@ == "components"@ && f@[2].1 == JsonValue::Object(components),
{
    let mut f: Vec<(String, JsonValue)> = Vec::new();
    f.push((
        <String as vstd::string::StringExecFns>::from_str("entity"),
        JsonValue::UInt(entity),
    ));
    let g = generation_of(entity);
    f.push((
        <String as vstd::string::StringExecFns>::from_str("generation"),
        JsonValue::UInt(g as u64),
    ));
    proof {
        assert((entity >> 32) as u32 as u64 == (entity >> 32) as u64) by (bit_vector);
    }
    f.push((
        <String as vstd::string::StringExecFns>::from_str("components"),
        JsonValue::Object(components),
    ));
    JsonValue::Object(f)
}

/// Builds the reply of the readiness command: whether the target answered,
/// and a message saying so.
pub fn ready_response(ready: bool) -> (r: JsonValue)
    ensures
        r matches JsonValue::Object(f) && f@.len() == 2 && f@[0].0@ == "ready"@ && f@[0].1
            == JsonValue::Bool(ready) && f@[1].0@ == "message"@ && (f@[1].1 matches JsonValue::Str(
            m,
        ) && m@ == (if ready {
            "App is ready and responding to BRP commands"@
        } else {
            "App is not responding to BRP commands"@
        })),
{
    let mut f: Vec<(String, JsonValue)> = Vec::new();
    f.push((<String as vstd::string::StringExecFns>::from_str("ready"), JsonValue::Bool(ready)));
    let msg: &str = if ready {
        "App is ready and responding to BRP commands"
    } else {
        "App is not responding to BRP commands"
    };
    f.push((
        <String as vstd::string::StringExecFns>::from_str("message"),
        JsonValue::Str(<String as vstd::string::StringExecFns>::from_str(msg)),
    ));
    JsonValue::Object(f)
}

/// A patch's fields, when the patch is an object; mutating by a patch of
/// any other shape is refused.
pub fn patch_fields(patch: JsonValue) -> (r: Result<Vec<(String, JsonValue)>, ()>)
    ensures
        match patch {
            JsonValue::Object(f) => r == Ok::<Vec<(String, JsonValue)>, ()>(f),
            _ => r is Err,
        },
{
    match patch {
        JsonValue::Object(f) => Ok(f),
        _ => Err(()),
    }
}

} // verus!

verus! {

/// Whether some name in `names` reads as `n`.
pub open spec fn group_names_contain(names: Seq<String>, n: Seq<char>) -> bool {
    exists|j: int| 0 <= j < names.len() && (#[trigger] names[j])@ == n
}

/// Whether the grouped listing credits entity `id` with component `name`.
pub open spec fn groups_have(r: Seq<(u64, Vec<String>)>, id: u64, name: Seq<char>) -> bool {
    exists|i: int|
        0 <= i < r.len() && (#[trigger] r[i]).0 == id && group_names_contain(r[i].1@, name)
}

/// The groups are strictly ordered by entity identifier.
pub open spec fn groups_sorted(r: Seq<(u64, Vec<String>)>) -> bool {
    forall|i: int, j: int| 0 <= i < j < r.len() ==> (#[trigger] r[i]).0 < (#[trigger] r[j]).0
}

/// Every group lists at least one component.
pub open spec fn groups_nonempty(r: Seq<(u64, Vec<String>)>) -> bool {
    forall|i: int| 0 <= i < r.len() ==> (#[trigger] r[i]).1@.len() >= 1
}

/// Credits `id` with `name`, keeping the groups ordered: the name joins the
/// entity's group, or a new group is spliced in at the entity's place.
fn groups_insert(groups: &mut Vec<(u64, Vec<String>)>, id: u64, name: String)
    requires
        groups_sorted(old(groups)@),
        groups_nonempty(old(groups)@),
    ensures
        groups_sorted(final(groups)@),
        groups_nonempty(final(groups)@),
        forall|id2: u64, n2: Seq<char>|
            groups_have(final(groups)@, id2, n2) == (groups_have(old(groups)@, id2, n2) || (id2
                == id && n2 == name@)),
{
    let ghost orig = groups@;
    let mut i: usize = 0;
    while i < groups.len() && groups[i].0 < id
        invariant
            i <= groups@.len(),
            groups@ == orig,
            forall|k: int| 0 <= k < i ==> (#[trigger] orig[k]).0 < id,
        decreases groups@.len() - i,
    {
        i = i + 1;
    }
    if i < groups.len() && groups[i].0 == id {
        let (gid, mut names) = groups.remove(i);
        let ghost old_names = names@;
        names.push(name);
        proof {
            assert(forall|n2: Seq<char>|
                group_names_contain(names@, n2) == (group_names_contain(old_names, n2) || n2
                    == name@)) by {
                assert forall|n2: Seq<char>|
                    group_names_contain(names@, n2) == (group_names_contain(old_names, n2) || n2
                        == name@) by {
                    if group_names_contain(old_names, n2) {
                        let j = choose|j: int|
                            0 <= j < old_names.len() && (#[trigger] old_names[j])@ == n2;
                        assert(names@[j]@ == n2);
                    }
                    if n2 == name@ {
                        assert(names@[names@.len() - 1]@ == n2);
                    }
                    if group_names_contain(names@, n2) {
                        let j = choose|j: int|
                            0 <= j < names@.len() && (#[trigger] names@[j])@ == n2;
                        if j < old_names.len() {
                            assert(old_names[j]@ == n2);
                        }
                    }
                }
            }
        }
        groups.insert(i, (gid, names));
        proof {
            assert(groups@ =~= orig.update(i as int, (gid, names)));
            assert forall|id2: u64, n2: Seq<char>|
                groups_have(groups@, id2, n2) == (groups_have(orig, id2, n2) || (id2 == id && n2
                    == name@)) by {
                if groups_have(orig, id2, n2) {
                    let k = choose|k: int|
                        0 <= k < orig.len() && (#[trigger] orig[k]).0 == id2
                            && group_names_contain(orig[k].1@, n2);
                    if k == i {
                        assert(groups@[k].0 == id2 && group_names_contain(groups@[k].1@, n2));
                    } else {
                        assert(groups@[k].0 == id2 && group_names_contain(groups@[k].1@, n2));
                    }
                }
                if id2 == id && n2 == name@ {
                    assert(groups@[i as int].0 == id2 && group_names_contain(
                        groups@[i as int].1@,
                        n2,
                    ));
                }
                if groups_have(groups@, id2, n2) {
                    let k = choose|k: int|
                        0 <= k < groups@.len() && (#[trigger] groups@[k]).0 == id2
                            && group_names_contain(groups@[k].1@, n2);
                    if k == i {
                        if n2 != name@ {
                            assert(group_names_contain(orig[k].1@, n2));
                        }
                    } else {
                        assert(orig[k] == groups@[k]);
                    }
                }
            }
        }
    } else {
        proof {
            if i < orig.len() {
                assert(orig[i as int].0 > id);
            }
        }
        let mut names: Vec<String> = Vec::new();
        names.push(name);
        groups.insert(i, (id, names));
        proof {
            assert(groups@.len() == orig.len() + 1);
            assert(groups@[i as int] == (id, names));
            assert(forall|k: int| 0 <= k < i ==> #[trigger] groups@[k] == orig[k]);
            assert(forall|k: int|
                i < k < groups@.len() ==> #[trigger] groups@[k] == orig[k - 1]);
            assert forall|a: int, b: int|
                0 <= a < b < groups@.len() implies (#[trigger] groups@[a]).0 < (
            #[trigger] groups@[b]).0 by {
                if a == i {
                    assert(orig[b - 1].0 > id);
                } else if b == i {
                    assert(orig[a].0 < id);
                } else if a < i && b > i {
                    assert(orig[a].0 < id);
                    assert(orig[b - 1].0 > id || orig[b - 1].0 >= id);
                    if orig[b - 1].0 == id {
                    }
                    assert(orig[a].0 < orig[b - 1].0 || orig[a].0 < id);
                }
            }
            assert forall|id2: u64, n2: Seq<char>|
                groups_have(groups@, id2, n2) == (groups_have(orig, id2, n2) || (id2 == id && n2
                    == name@)) by {
                if groups_have(orig, id2, n2) {
                    let k = choose|k: int|
                        0 <= k < orig.len() && (#[trigger] orig[k]).0 == id2
                            && group_names_contain(orig[k].1@, n2);
                    if k < i {
                        assert(groups@[k].0 == id2 && group_names_contain(groups@[k].1@, n2));
                    } else {
                        assert(groups@[k + 1].0 == id2 && group_names_contain(
                            groups@[k + 1].1@,
                            n2,
                        ));
                    }
                }
                if id2 == id && n2 == name@ {
                    assert(names@[0]@ == n2);
                    assert(groups@[i as int].0 == id2 && group_names_contain(
                        groups@[i as int].1@,
                        n2,
                    ));
                }
                if groups_have(groups@, id2, n2) {
                    let k = choose|k: int|
                        0 <= k < groups@.len() && (#[trigger] groups@[k]).0 == id2
                            && group_names_contain(groups@[k].1@, n2);
                    if k == i {
                        assert(names@.len() == 1);
                        assert(forall|j: int| 0 <= j < names@.len() ==> (#[trigger] names@[j])@
                            == name@);
                    } else if k < i {
                        assert(orig[k].0 == id2 && group_names_contain(orig[k].1@, n2));
                    } else {
                        assert(orig[k - 1].0 == id2 && group_names_contain(orig[k - 1].1@, n2));
                    }
                }
            }
        }
    }
}

/// Whether the processed part of the queries credits `id` with `name`: the
/// whole of the first `q` queries, and the first `e` elements of query `q`.
pub open spec fn pair_before(
    queries: Seq<(String, JsonValue)>,
    q: int,
    e: int,
    id: u64,
    name: Seq<char>,
) -> bool {
    (exists|q2: int|
        0 <= q2 < q && (#[trigger] queries[q2]).0@ == name && spec_query_contains(
            queries[q2].1,
            id,
        )) || (0 <= q < queries.len() && queries[q].0@ == name && partial_contains(
        queries[q].1,
        e,
        id,
    ))
}

/// Whether the first `e` elements of a query result name the entity.
pub open spec fn partial_contains(v: JsonValue, e: int, id: u64) -> bool {
    match v {
        JsonValue::Array(a) => exists|i: int|
            0 <= i < e && i < a.len() && spec_entry_entity(#[trigger] a[i]) == Some(id),
        _ => false,
    }
}

/// Whether the queries, taken whole, credit `id` with `name`.
pub open spec fn queries_have(
    queries: Seq<(String, JsonValue)>,
    id: u64,
    name: Seq<char>,
) -> bool {
    exists|q: int|
        0 <= q < queries.len() && (#[trigger] queries[q]).0@ == name && spec_query_contains(
            queries[q].1,
            id,
        )
}

/// Aggregates per-component query results into the per-entity listing: each
/// entity that any query names, credited with exactly the component types
/// whose queries name it, the groups in strictly increasing entity order.
pub fn aggregate_entities(queries: &Vec<(String, JsonValue)>) -> (r: Vec<(u64, Vec<String>)>)
    ensures
        groups_sorted(r@),
        groups_nonempty(r@),
        forall|id: u64, name: Seq<char>|
            groups_have(r@, id, name) == queries_have(queries@, id, name),
{
    let mut groups: Vec<(u64, Vec<String>)> = Vec::new();
    let mut q: usize = 0;
    while q < queries.len()
        invariant
            q <= queries@.len(),
            groups_sorted(groups@),
            groups_nonempty(groups@),
            forall|id: u64, name: Seq<char>|
                groups_have(groups@, id, name) == pair_before(queries@, q as int, 0, id, name),
        decreases queries@.len() - q,
    {
        let tname = &queries[q].0;
        match &queries[q].1 {
            JsonValue::Array(a) => {
                let mut e: usize = 0;
                proof {
                    assert(forall|id: u64, name: Seq<char>|
                        pair_before(queries@, q as int, 0, id, name) == pair_before(
                            queries@,
                            q as int,
                            0,
                            id,
                            name,
                        ));
                }
                while e < a.len()
                    invariant
                        e <= a@.len(),
                        q < queries@.len(),
                        queries@[q as int].1 == JsonValue::Array(*a),
                        tname@ == queries@[q as int].0@,
                        groups_sorted(groups@),
                        groups_nonempty(groups@),
                        forall|id: u64, name: Seq<char>|
                            groups_have(groups@, id, name) == pair_before(
                                queries@,
                                q as int,
                                e as int,
                                id,
                                name,
                            ),
                    decreases a@.len() - e,
                {
                    match entry_entity(&a[e]) {
                        Some(id0) => {
                            let copy = <String as vstd::string::StringExecFns>::from_str(
                                tname.as_str(),
                            );
                            groups_insert(&mut groups, id0, copy);
                            proof {
                                assert forall|id: u64, name: Seq<char>|
                                    groups_have(groups@, id, name) == pair_before(
                                        queries@,
                                        q as int,
                                        e + 1,
                                        id,
                                        name,
                                    ) by {
                                    if pair_before(queries@, q as int, e + 1, id, name) {
                                        if !pair_before(queries@, q as int, e as int, id, name) {
                                            assert(name == queries@[q as int].0@);
                                            assert(partial_contains(
                                                queries@[q as int].1,
                                                e + 1,
                                                id,
                                            ));
                                            assert(spec_entry_entity(a@[e as int]) == Some(id0));
                                            if id != id0 {
                                                let w = choose|i: int|
                                                    0 <= i < e + 1 && i < a@.len()
                                                        && spec_entry_entity(#[trigger] a@[i])
                                                        == Some(id);
                                                assert(partial_contains(
                                                    queries@[q as int].1,
                                                    e as int,
                                                    id,
                                                ));
                                            }
                                        }
                                    }
                                    if id == id0 && name == tname@ {
                                        assert(spec_entry_entity(a@[e as int]) == Some(id0));
                                        assert(partial_contains(queries@[q as int].1, e + 1, id));
                                    }
                                    if pair_before(queries@, q as int, e as int, id, name) {
                                        if partial_contains(queries@[q as int].1, e as int, id)
                                            && name == queries@[q as int].0@ {
                                            assert(partial_contains(
                                                queries@[q as int].1,
                                                e + 1,
                                                id,
                                            ));
                                        }
                                    }
                                }
                            }
                        },
                        None => {
                            proof {
                                assert forall|id: u64, name: Seq<char>|
                                    pair_before(queries@, q as int, e + 1, id, name)
                                        == pair_before(queries@, q as int, e as int, id, name) by {
                                    if partial_contains(queries@[q as int].1, e + 1, id) {
                                        let w = choose|i: int|
                                            0 <= i < e + 1 && i < a@.len() && spec_entry_entity(
                                                #[trigger] a@[i],
                                            ) == Some(id);
                                        assert(w < e);
                                    }
                                }
                            }
                        },
                    }
                    e = e + 1;
                }
                proof {
                    assert forall|id: u64, name: Seq<char>|
                        pair_before(queries@, q as int, a@.len() as int, id, name) == pair_before(
                            queries@,
                            q + 1,
                            0,
                            id,
                            name,
                        ) by {
                        if pair_before(queries@, q as int, a@.len() as int, id, name) {
                            if partial_contains(queries@[q as int].1, a@.len() as int, id) && name
                                == queries@[q as int].0@ {
                                assert(spec_query_contains(queries@[q as int].1, id));
                            }
                        }
                        if pair_before(queries@, q + 1, 0, id, name) {
                            let q2 = choose|q2: int|
                                0 <= q2 < q + 1 && (#[trigger] queries@[q2]).0@ == name
                                    && spec_query_contains(queries@[q2].1, id);
                            if q2 == q {
                                assert(partial_contains(queries@[q as int].1, a@.len() as int, id));
                            }
                        }
                    }
                }
            },
            _ => {
                proof {
                    assert forall|id: u64, name: Seq<char>|
                        pair_before(queries@, q + 1, 0, id, name) == pair_before(
                            queries@,
                            q as int,
                            0,
                            id,
                            name,
                        ) by {
                        if pair_before(queries@, q + 1, 0, id, name) {
                            let q2 = choose|q2: int|
                                0 <= q2 < q + 1 && (#[trigger] queries@[q2]).0@ == name
                                    && spec_query_contains(queries@[q2].1, id);
                            if q2 == q {
                                assert(!(queries@[q as int].1 is Array));
                            }
                        }
                    }
                }
            },
        }
        q = q + 1;
    }
    proof {
        assert forall|id: u64, name: Seq<char>|
            pair_before(queries@, queries@.len() as int, 0, id, name) == queries_have(
                queries@,
                id,
                name,
            ) by {}
    }
    groups
}

} // verus!

verus! {

/// The ports one detection pass probes: the requested port first and, when
/// it is the default, the five ports just above it, where sessions started
/// alongside a busy default tend to sit.
pub fn detection_candidates(requested: u16) -> (r: Vec<u16>)
    ensures
        requested != crate::DEFAULT_REMOTE_PORT ==> r@ == seq![requested],
        requested == crate::DEFAULT_REMOTE_PORT ==> r@ == seq![
            requested,
            (requested + 1) as u16,
            (requested + 2) as u16,
            (requested + 3) as u16,
            (requested + 4) as u16,
            (requested + 5) as u16,
        ],
{
    let mut r: Vec<u16> = Vec::new();
    r.push(requested);
    if requested == crate::DEFAULT_REMOTE_PORT {
        r.push(requested + 1);
        r.push(requested + 2);
        r.push(requested + 3);
        r.push(requested + 4);
        r.push(requested + 5);
        proof {
            assert(r@ =~= seq![
                requested,
                (requested + 1) as u16,
                (requested + 2) as u16,
                (requested + 3) as u16,
                (requested + 4) as u16,
                (requested + 5) as u16,
            ]);
        }
    } else {
        proof {
            assert(r@ =~= seq![requested]);
        }
    }
    r
}

} // verus!
