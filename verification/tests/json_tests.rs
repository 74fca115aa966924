use beet_smart_cutoff::config::{output_file_key, ConfigError};
use beet_smart_cutoff::json::{read_json_file, write_json_file, JsonError, JsonFile};
use serde_json::Value;
use std::path::PathBuf;

#[test]
fn missing_file_holds_nothing() {
    let file = read_json_file(PathBuf::from("dates.json"), None).ok().unwrap();
    assert!(file.map.is_none());
    assert_eq!(file.path, PathBuf::from("dates.json"));
}

#[test]
fn object_is_taken_in() {
    let contents = br#"{"rock": "2024-01-02", "count": 3, "nested": {"a": [1, 2]}}"#;
    let file = read_json_file(PathBuf::from("dates.json"), Some(contents)).ok().unwrap();
    let map = file.map.unwrap();
    assert_eq!(map.len(), 3);
    assert_eq!(map.get("rock"), Some(&Value::String("2024-01-02".to_string())));
    assert_eq!(map.get("count").and_then(Value::as_u64), Some(3));
    assert_eq!(file.path, PathBuf::from("dates.json"));
}

#[test]
fn empty_object_is_taken_in() {
    let file = read_json_file(PathBuf::from("dates.json"), Some(b"{}")).ok().unwrap();
    assert_eq!(file.map.unwrap().len(), 0);
}

#[test]
fn value_of_another_kind_is_refused() {
    for contents in [&b"[1, 2]"[..], b"\"text\"", b"3", b"null", b"true"] {
        match read_json_file(PathBuf::from("dates.json"), Some(contents)) {
            Err(JsonError::NotAnObject(value)) => {
                assert_eq!(value, serde_json::from_slice::<Value>(contents).unwrap())
            }
            _ => panic!("accepted or refused for another reason"),
        }
    }
}

#[test]
fn what_is_no_json_is_refused() {
    for contents in [&b""[..], b"{", b"{\"a\": }", b"{} x", b"{'a': 1}", &[0xff, 0xfe]] {
        assert!(matches!(
            read_json_file(PathBuf::from("dates.json"), Some(contents)),
            Err(JsonError::Parse(_))
        ));
    }
}

#[test]
fn date_is_kept_under_the_key() {
    let file = JsonFile { map: None, path: PathBuf::from("dates.json") };
    let map = file.with_date("rock".to_string(), "2024-05-17");
    assert_eq!(map.len(), 1);
    assert_eq!(map.get("rock"), Some(&Value::String("2024-05-17".to_string())));
}

#[test]
fn date_takes_the_place_of_what_was_kept() {
    let contents = br#"{"rock": "2024-01-02", "jazz": "2023-12-31", "other": [1]}"#;
    let file = read_json_file(PathBuf::from("dates.json"), Some(contents)).ok().unwrap();
    let map = file.with_date("rock".to_string(), "2024-05-17");
    assert_eq!(map.len(), 3);
    assert_eq!(map.get("rock"), Some(&Value::String("2024-05-17".to_string())));
    assert_eq!(map.get("jazz"), Some(&Value::String("2023-12-31".to_string())));
    assert_eq!(map.get("other"), Some(&Value::Array(vec![Value::from(1)])));

    let contents = br#"{"rock": 7}"#;
    let file = read_json_file(PathBuf::from("dates.json"), Some(contents)).ok().unwrap();
    let map = file.with_date("rock".to_string(), "2024-05-17");
    assert_eq!(map.get("rock"), Some(&Value::String("2024-05-17".to_string())));
}

#[test]
fn document_is_written_pretty() {
    let contents = br#"{"rock":"2024-01-02","jazz":"2023-12-31"}"#;
    let file = read_json_file(PathBuf::from("dates.json"), Some(contents)).ok().unwrap();
    let map = file.with_date("pop".to_string(), "2024-05-17");
    let bytes = write_json_file(&map).ok().unwrap();
    let text = String::from_utf8(bytes).unwrap();
    assert_eq!(
        text,
        "{\n  \"jazz\": \"2023-12-31\",\n  \"pop\": \"2024-05-17\",\n  \"rock\": \"2024-01-02\"\n}"
    );
}

#[test]
fn every_document_can_be_written() {
    let contents = br#"{"n": -1.5e300, "big": 18446744073709551615, "list": [null, true, {"k": []}], "": ""}"#;
    let file = read_json_file(PathBuf::from("dates.json"), Some(contents)).ok().unwrap();
    let map = file.with_date("key".to_string(), "2024-05-17");
    assert!(write_json_file(&map).is_ok());
    let empty = JsonFile { map: Some(serde_json::Map::new()), path: PathBuf::from("x") };
    assert_eq!(write_json_file(&empty.map.unwrap()).ok().unwrap(), b"{}");
}

#[test]
fn written_document_is_read_back() {
    let file = JsonFile { map: None, path: PathBuf::from("dates.json") };
    let map = file.with_date("a \"quoted\" key".to_string(), "2024-05-17");
    let bytes = write_json_file(&map).ok().unwrap();
    let again = read_json_file(PathBuf::from("dates.json"), Some(&bytes)).ok().unwrap();
    assert_eq!(again.map.unwrap(), map);
}

#[test]
fn file_and_key_belong_together() {
    assert_eq!(output_file_key(Some("f"), Some("k")).unwrap(), Some(("f", "k")));
    assert_eq!(output_file_key(None::<&str>, None::<&str>).unwrap(), None);
    assert!(matches!(
        output_file_key(Some("f"), None::<&str>),
        Err(ConfigError::MissingOutputKey)
    ));
    assert!(matches!(
        output_file_key(None::<&str>, Some("k")),
        Err(ConfigError::MissingOutputFile)
    ));
}
