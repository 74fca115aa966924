//! The stored document: a JSON object in which the chosen date is kept
//! under a key. Reading and writing JSON is left to `serde_json`; opening
//! the file is left to the caller.

use std::path::PathBuf;
use vstd::prelude::*;
use vstd::string::StringExecFns;

verus! {

/// `serde_json::Map`, the members of a JSON object.
#[verifier::external_type_specification]
#[verifier::external_body]
#[verifier::reject_recursive_types(K)]
#[verifier::reject_recursive_types(V)]
pub struct ExJsonMap<K, V>(serde_json::Map<K, V>);

/// `serde_json::Value`, a JSON value of any kind.
#[verifier::external_type_specification]
#[verifier::external_body]
pub struct ExJsonValue(serde_json::Value);

/// `serde_json::Error`, why JSON could not be read or written.
#[verifier::external_type_specification]
#[verifier::external_body]
pub struct ExJsonError(serde_json::Error);

/// The members of a JSON object as `serde_json` holds them.
pub type JsonMap = serde_json::Map<String, serde_json::Value>;

/// A JSON value in specifications. A number stands here as the text that
/// it is written with.
pub ghost enum JsonView {
    Null,
    Bool(bool),
    Number(Seq<char>),
    Text(Seq<char>),
    Array(Seq<JsonView>),
    Object(Map<Seq<char>, JsonView>),
}

/// The members of an object that holds nothing.
pub open spec fn no_members() -> Map<Seq<char>, JsonView> {
    Map::empty()
}

/// What a `serde_json::Map` holds: each key with its value.
pub uninterp spec fn json_members(map: JsonMap) -> Map<Seq<char>, JsonView>;

/// The value that `serde_json::from_slice` reads from `bytes`; none where
/// it refuses them.
pub uninterp spec fn parsed_json(bytes: Seq<u8>) -> Option<JsonView>;

/// The bytes that `serde_json::to_vec_pretty` writes for an object with
/// these members. The members are written in the order of their keys:
/// that is how `serde_json::Map` keeps them as it is built here, without
/// its feature `preserve_order`.
pub uninterp spec fn pretty_json(members: Map<Seq<char>, JsonView>) -> Seq<u8>;

/// `serde_json::from_slice`, asked for a `Value`: what it reads is named
/// `parsed_json`. An object is handed out as its members, a value of
/// another kind as it is.
#[verifier::external_body]
fn parse_object(bytes: &[u8]) -> (res: Result<Result<JsonMap, serde_json::Value>, serde_json::Error>)
    ensures
        match res {
            Ok(Ok(map)) => parsed_json(bytes@) == Some(JsonView::Object(json_members(map))),
            Ok(Err(_)) => parsed_json(bytes@) is Some && !(parsed_json(bytes@)->0 is Object),
            Err(_) => parsed_json(bytes@) is None,
        },
{
    match serde_json::from_slice::<serde_json::Value>(bytes) {
        Ok(serde_json::Value::Object(map)) => Ok(Ok(map)),
        Ok(other) => Ok(Err(other)),
        Err(error) => Err(error),
    }
}

/// `serde_json::Map::new`: a map without members.
#[verifier::external_body]
fn empty_object() -> (object: JsonMap)
    ensures
        json_members(object) == no_members(),
{
    serde_json::Map::new()
}

/// `serde_json::Map::insert` with a string for the value: the key holds
/// that string afterwards, whether the map had the key before or not, and
/// every other key holds what it held.
#[verifier::external_body]
fn insert_text(map: &mut JsonMap, key: String, text: String)
    ensures
        json_members(*final(map)) == json_members(*old(map)).insert(key@, JsonView::Text(text@)),
{
    map.insert(key, serde_json::Value::String(text));
}

/// `serde_json::to_vec_pretty`, asked to write a map: what it writes is
/// named `pretty_json`. It succeeds: it writes into memory, and writing a
/// map with strings for keys has no other way to fail.
#[verifier::external_body]
fn pretty_bytes(map: &JsonMap) -> (res: Result<Vec<u8>, serde_json::Error>)
    ensures
        match res {
            Ok(bytes) => bytes@ == pretty_json(json_members(*map)),
            Err(_) => false,
        },
{
    serde_json::to_vec_pretty(map)
}

/// Why a stored document cannot be used.
#[derive(Debug)]
pub enum JsonError {
    /// The file does not hold JSON.
    Parse(serde_json::Error),
    /// The file holds JSON, but this value and no object.
    NotAnObject(serde_json::Value),
    /// The object could not be written as JSON. Writing an object into
    /// memory does not fail, so `write_json_file` never gives this.
    Write(serde_json::Error),
}

/// A stored document: where it is kept, and the members of its object
/// where the file was there.
#[derive(Debug)]
pub struct JsonFile {
    /// The members of the object; none where there was no file.
    pub map: Option<JsonMap>,
    /// Where the document is kept.
    pub path: PathBuf,
}

impl JsonFile {
    /// What the document holds. A file that is not there holds nothing.
    pub open spec fn members(&self) -> Map<Seq<char>, JsonView> {
        match self.map {
            Some(map) => json_members(map),
            None => no_members(),
        }
    }

    /// The members of the document with `date` kept under `key`, in place
    /// of what was kept there before.
    pub fn with_date(self, key: String, date: &str) -> (map: JsonMap)
        ensures
            json_members(map) == self.members().insert(key@, JsonView::Text(date@)),
    {
        let mut map = match self.map {
            Some(map) => map,
            None => empty_object(),
        };
        insert_text(&mut map, key, String::from_str(date));
        map
    }
}

/// Takes in a stored document. `contents` is what the file at `path`
/// holds, or nothing where there is no such file. The file must hold one
/// JSON object.
pub fn read_json_file(path: PathBuf, contents: Option<&[u8]>) -> (res: Result<JsonFile, JsonError>)
    ensures
        match contents {
            None => res matches Ok(file) && file.map is None && file.path == path,
            Some(bytes) => match parsed_json(bytes@) {
                None => res matches Err(JsonError::Parse(_)),
                Some(JsonView::Object(members)) => {
                    &&& res matches Ok(file)
                    &&& file.path == path
                    &&& file.map matches Some(map)
                    &&& json_members(map) == members
                },
                Some(_) => res matches Err(JsonError::NotAnObject(_)),
            },
        },
{
    match contents {
        None => Ok(JsonFile { map: None, path }),
        Some(bytes) => match parse_object(bytes) {
            Err(error) => Err(JsonError::Parse(error)),
            Ok(Err(value)) => Err(JsonError::NotAnObject(value)),
            Ok(Ok(map)) => Ok(JsonFile { map: Some(map), path }),
        },
    }
}

/// The bytes to write to the file for an object with the members `value`:
/// pretty-printed JSON. There are such bytes for every object.
pub fn write_json_file(value: &JsonMap) -> (res: Result<Vec<u8>, JsonError>)
    ensures
        match res {
            Ok(bytes) => bytes@ == pretty_json(json_members(*value)),
            Err(_) => false,
        },
{
    match pretty_bytes(value) {
        Ok(bytes) => Ok(bytes),
        Err(error) => Err(JsonError::Write(error)),
    }
}

} // verus!
