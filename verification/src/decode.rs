//! Reading inspection records out of the JSON that the container runtime
//! prints.
//!
//! The JSON itself is read by `serde_json`. What this module decides is the
//! shape that a document must have to be a list of records, and what each
//! record holds. Member names are matched exactly.

use serde_json::Value;
use vstd::prelude::*;
use vstd::string::*;

use crate::host::{Failure, Inspect, InspectView, Network, NetworkView};
use crate::text::texts;

verus! {

/// `serde_json::Value`, a JSON document. Nothing is known of what is inside
/// one but through the names below.
#[verifier::external_type_specification]
#[verifier::external_body]
pub struct ExValue(Value);

/// `serde_json::Error`, why a text could not be read. It is only ever
/// replaced by `Failure::Decode`.
#[verifier::external_type_specification]
#[verifier::external_body]
pub struct ExJsonError(serde_json::Error);

/// `serde_json::Map`, the members of a JSON object. Nothing is known of
/// what is inside one but through `json_keys`.
#[verifier::external_type_specification]
#[verifier::external_body]
#[verifier::reject_recursive_types(K)]
#[verifier::reject_recursive_types(V)]
pub struct ExJsonMap<K, V>(serde_json::Map<K, V>);

/// The document that `serde_json` reads from a text, if it reads one.
pub uninterp spec fn json_document(text: Seq<char>) -> Option<Value>;

/// The elements of a JSON array in order; `None` for any other value.
pub uninterp spec fn json_items(v: Value) -> Option<Seq<Value>>;

/// The members of a JSON object; `None` for any other value.
pub uninterp spec fn json_object(v: Value) -> Option<serde_json::Map<String, Value>>;

/// The member names of a JSON object, in the order in which the object
/// hands them out.
pub uninterp spec fn json_keys(members: serde_json::Map<String, Value>) -> Seq<Seq<char>>;

/// The member of a JSON object under a name; `None` if the value is no
/// object or has no such member.
pub uninterp spec fn json_member(v: Value, key: Seq<char>) -> Option<Value>;

/// The text of a JSON string; `None` for any other value.
pub uninterp spec fn json_text(v: Value) -> Option<Seq<char>>;

/// Calls `serde_json::from_str` to read a whole text as one JSON value.
/// The contract names the outcome: the same text always reads as the same
/// value, or always fails.
#[verifier::external_body]
fn parse(text: &str) -> (res: Result<Value, serde_json::Error>)
    ensures
        match res {
            Ok(v) => json_document(text@) == Some(v),
            Err(_) => json_document(text@) is None,
        },
{
    serde_json::from_str::<Value>(text)
}

/// Calls `Value::as_array`: the elements if the value is an array, `None`
/// otherwise.
#[verifier::external_body]
fn items(v: &Value) -> (res: Option<&Vec<Value>>)
    ensures
        match res {
            Some(a) => json_items(*v) == Some(a@),
            None => json_items(*v) is None,
        },
{
    v.as_array()
}

/// Calls `Value::as_object`: the members if the value is an object, `None`
/// otherwise.
#[verifier::external_body]
fn object(v: &Value) -> (res: Option<&serde_json::Map<String, Value>>)
    ensures
        match res {
            Some(m) => json_object(*v) == Some(*m),
            None => json_object(*v) is None,
        },
{
    v.as_object()
}

/// Calls `Map::keys` and copies each name: the member names in the order
/// in which the map iterates.
#[verifier::external_body]
fn keys(members: &serde_json::Map<String, Value>) -> (res: Vec<String>)
    ensures
        texts(res@) == json_keys(*members),
{
    members.keys().cloned().collect()
}

/// Calls `Value::get` with a name: the member under that name if the value
/// is an object that has one, `None` otherwise.
#[verifier::external_body]
fn member<'a>(v: &'a Value, key: &str) -> (res: Option<&'a Value>)
    ensures
        match res {
            Some(m) => json_member(*v, key@) == Some(*m),
            None => json_member(*v, key@) is None,
        },
{
    v.get(key)
}

/// Calls `Value::as_str`: the text if the value is a string, `None`
/// otherwise.
#[verifier::external_body]
fn text_of(v: &Value) -> (res: Option<&str>)
    ensures
        match res {
            Some(s) => json_text(*v) == Some(s@),
            None => json_text(*v) is None,
        },
{
    v.as_str()
}

/// The text of the member of `v` under `key`, if there is such a member
/// and it is a string.
pub open spec fn text_member(v: Value, key: Seq<char>) -> Option<Seq<char>> {
    match json_member(v, key) {
        Some(m) => json_text(m),
        None => None,
    }
}

/// The member names of the member of `v` under `key`, if there is such a
/// member and it is an object.
pub open spec fn keys_member(v: Value, key: Seq<char>) -> Option<Seq<Seq<char>>> {
    match json_member(v, key) {
        Some(m) => match json_object(m) {
            Some(members) => Some(json_keys(members)),
            None => None,
        },
        None => None,
    }
}

/// The network that `networks` holds under `name`: an object with a string
/// member `IPAddress`.
pub open spec fn network_of(networks: Value, name: Seq<char>) -> Option<NetworkView> {
    match json_member(networks, name) {
        Some(n) => match text_member(n, "IPAddress"@) {
            Some(ip_address) => Some(NetworkView { name, ip_address }),
            None => None,
        },
        None => None,
    }
}

/// The networks that `networks` holds under `names`, in the order of the
/// names, if it holds one under each.
pub open spec fn networks_of(networks: Value, names: Seq<Seq<char>>) -> Option<Seq<NetworkView>> {
    if forall|i: int| 0 <= i < names.len() ==> (#[trigger] network_of(networks, names[i])) is Some {
        Some(Seq::new(names.len(), |i: int| network_of(networks, names[i])->0))
    } else {
        None
    }
}

/// The record that a JSON value describes. It must be an object with a
/// string `Name` and an object `NetworkSettings`, which in turn holds an
/// object `Ports` and an object `Networks` with at least one network.
pub open spec fn record_of(v: Value) -> Option<InspectView> {
    match (text_member(v, "Name"@), json_member(v, "NetworkSettings"@)) {
        (Some(name), Some(settings)) => match (
            keys_member(settings, "Ports"@),
            json_member(settings, "Networks"@),
            keys_member(settings, "Networks"@),
        ) {
            (Some(port_keys), Some(networks), Some(names)) => match networks_of(networks, names) {
                Some(nets) => if names.len() > 0 {
                    Some(InspectView { name, networks: nets, port_keys })
                } else {
                    None
                },
                None => None,
            },
            _ => None,
        },
        _ => None,
    }
}

/// The records that a JSON value describes: it must be an array, and each
/// element a record.
pub open spec fn records_of(v: Value) -> Option<Seq<InspectView>> {
    match json_items(v) {
        Some(elements) => if forall|i: int|
            0 <= i < elements.len() ==> (#[trigger] record_of(elements[i])) is Some {
            Some(Seq::new(elements.len(), |i: int| record_of(elements[i])->0))
        } else {
            None
        },
        None => None,
    }
}

/// The records that a text describes when read as JSON.
pub open spec fn decoded(text: Seq<char>) -> Option<Seq<InspectView>> {
    match json_document(text) {
        Some(v) => records_of(v),
        None => None,
    }
}

/// What a list of records stands for.
pub open spec fn inspect_views(records: Seq<Inspect>) -> Seq<InspectView> {
    Seq::new(records.len(), |i: int| records[i]@)
}

/// The text of the string member of `v` under `key`.
fn member_text(v: &Value, key: &str) -> (res: Option<String>)
    ensures
        match res {
            Some(s) => text_member(*v, key@) == Some(s@),
            None => text_member(*v, key@) is None,
        },
{
    match member(v, key) {
        Some(m) => match text_of(m) {
            Some(s) => Some(s.to_owned()),
            None => None,
        },
        None => None,
    }
}

/// The member names of the object member of `v` under `key`.
fn member_keys(v: &Value, key: &str) -> (res: Option<Vec<String>>)
    ensures
        match res {
            Some(names) => keys_member(*v, key@) == Some(texts(names@)),
            None => keys_member(*v, key@) is None,
        },
{
    match member(v, key) {
        Some(m) => match object(m) {
            Some(members) => Some(keys(members)),
            None => None,
        },
        None => None,
    }
}

/// Reads the network that `networks` holds under `name`.
fn network_from_value(networks: &Value, name: &String) -> (res: Option<Network>)
    ensures
        match res {
            Some(n) => network_of(*networks, name@) == Some(n@),
            None => network_of(*networks, name@) is None,
        },
{
    match member(networks, name.as_str()) {
        Some(n) => match member_text(n, "IPAddress") {
            Some(ip_address) => Some(Network { name: name.clone(), ip_address }),
            None => None,
        },
        None => None,
    }
}

/// Reads the networks that `networks` holds under `names`, in the order of
/// the names.
fn networks_from_value(networks: &Value, names: &Vec<String>) -> (res: Option<Vec<Network>>)
    ensures
        match res {
            Some(nets) => networks_of(*networks, texts(names@)) == Some(
                Seq::new(nets@.len(), |i: int| nets@[i]@),
            ),
            None => networks_of(*networks, texts(names@)) is None,
        },
{
    let ghost keys = texts(names@);
    let mut nets: Vec<Network> = Vec::new();
    let mut i: usize = 0;
    while i < names.len()
        invariant
            i <= names.len(),
            keys == texts(names@),
            nets@.len() == i,
            forall|j: int|
                0 <= j < i ==> (#[trigger] network_of(*networks, keys[j])) == Some(nets@[j]@),
        decreases names.len() - i,
    {
        match network_from_value(networks, &names[i]) {
            Some(n) => {
                nets.push(n);
            },
            None => {
                assert(network_of(*networks, keys[i as int]) is None);
                return None;
            },
        }
        i = i + 1;
    }
    assert(networks_of(*networks, keys) is Some);
    assert(networks_of(*networks, keys)->0 =~= Seq::new(nets@.len(), |i: int| nets@[i]@));
    Some(nets)
}

/// Reads one record out of a JSON value. Any value that is not shaped as a
/// record is a decode failure.
pub fn record_from_value(v: &Value) -> (res: Result<Inspect, Failure>)
    ensures
        match res {
            Ok(record) => record_of(*v) == Some(record@),
            Err(e) => e == Failure::Decode && record_of(*v) is None,
        },
{
    let name = match member_text(v, "Name") {
        Some(name) => name,
        None => {
            return Err(Failure::Decode);
        },
    };
    let settings = match member(v, "NetworkSettings") {
        Some(settings) => settings,
        None => {
            return Err(Failure::Decode);
        },
    };
    let port_keys = match member_keys(settings, "Ports") {
        Some(port_keys) => port_keys,
        None => {
            return Err(Failure::Decode);
        },
    };
    let networks = match member(settings, "Networks") {
        Some(networks) => networks,
        None => {
            return Err(Failure::Decode);
        },
    };
    let names = match member_keys(settings, "Networks") {
        Some(names) => names,
        None => {
            return Err(Failure::Decode);
        },
    };
    let nets = match networks_from_value(networks, &names) {
        Some(nets) => nets,
        None => {
            return Err(Failure::Decode);
        },
    };
    if names.len() == 0 {
        return Err(Failure::Decode);
    }
    let record = Inspect { name, networks: nets, port_keys };
    assert(record@.port_keys =~= texts(port_keys@));
    Ok(record)
}

/// Reads a list of records out of a JSON value: an array in which every
/// element is a record. The records keep the order of the array.
pub fn records_from_value(v: &Value) -> (res: Result<Vec<Inspect>, Failure>)
    ensures
        match res {
            Ok(records) => records_of(*v) == Some(inspect_views(records@)),
            Err(e) => e == Failure::Decode && records_of(*v) is None,
        },
{
    let elements = match items(v) {
        Some(elements) => elements,
        None => {
            return Err(Failure::Decode);
        },
    };
    let mut records: Vec<Inspect> = Vec::new();
    let mut i: usize = 0;
    while i < elements.len()
        invariant
            i <= elements.len(),
            json_items(*v) == Some(elements@),
            records@.len() == i,
            forall|j: int|
                0 <= j < i ==> (#[trigger] record_of(elements@[j])) == Some(records@[j]@),
        decreases elements.len() - i,
    {
        match record_from_value(&elements[i]) {
            Ok(record) => {
                records.push(record);
            },
            Err(e) => {
                assert(record_of(elements@[i as int]) is None);
                return Err(e);
            },
        }
        i = i + 1;
    }
    assert(records_of(*v) is Some);
    assert(records_of(*v)->0 =~= inspect_views(records@));
    Ok(records)
}

/// Reads the inspection records out of the JSON text that the container
/// runtime printed. Text that is not JSON, or JSON that is not a list of
/// records, is a decode failure.
pub fn decode(text: &str) -> (res: Result<Vec<Inspect>, Failure>)
    ensures
        match res {
            Ok(records) => decoded(text@) == Some(inspect_views(records@)),
            Err(e) => e == Failure::Decode && decoded(text@) is None,
        },
{
    match parse(text) {
        Ok(v) => records_from_value(&v),
        Err(_) => Err(Failure::Decode),
    }
}

} // verus!
