use wei_docker_linux::chunked::parse_chunked_response;
use wei_docker_linux::codec::{compact_json, json_number, parse_json, pretty_json, JsonError};
use wei_docker_linux::json::{find_member, upsert_member, Json};
use wei_docker_linux::progress::{apply_updates, merge_entry, merge_json_by_id, ProgressDocument};
use wei_docker_linux::snapshot::snapshot_text;

fn string(value: &str) -> Json {
    Json::String(value.to_string())
}

fn number(value: u64) -> Json {
    Json::Number(serde_json::Number::from(value))
}

fn members(list: Vec<(&str, Json)>) -> Json {
    Json::Object(list.into_iter().map(|(key, value)| (key.to_string(), value)).collect())
}

fn parsed(text: &str) -> Json {
    parse_json(text).unwrap()
}

fn sorted(json: &Json) -> Json {
    parse_json(&compact_json(json).unwrap()).unwrap()
}

fn document_of(updates: &[&str]) -> ProgressDocument {
    let mut document = ProgressDocument::new();
    for update in updates {
        merge_json_by_id(&mut document, parsed(update));
    }
    document
}

#[test]
fn scenario_two_updates_to_one_layer() {
    let chunks = [
        "a\n{\"id\":\"L1\",\"status\":\"Downloading\"}\n",
        "b\n{\"id\":\"L1\",\"status\":\"Extracting\"}\n",
        "0\n",
    ];
    let mut document = ProgressDocument::new();
    for chunk in chunks {
        for result in parse_chunked_response(chunk) {
            match result {
                Ok(update) => merge_json_by_id(&mut document, update),
                Err(error) => panic!("unexpected {:?}", error),
            }
        }
    }
    let expected = members(vec![(
        "L1",
        members(vec![("id", string("L1")), ("status", string("Extracting"))]),
    )]);
    assert_eq!(document.as_json(), &expected);
    assert_eq!(
        snapshot_text(&document).unwrap(),
        "{\n  \"L1\": {\n    \"id\": \"L1\",\n    \"status\": \"Extracting\"\n  }\n}"
    );
}

#[test]
fn new_document_is_empty() {
    let document = ProgressDocument::new();
    assert_eq!(document.as_json(), &Json::Object(vec![]));
    assert_eq!(document.get("L1"), None);
    assert_eq!(snapshot_text(&document).unwrap(), "{}");
}

#[test]
fn merge_keeps_fields_that_an_update_does_not_mention() {
    let document = document_of(&[
        "{\"id\":\"L1\",\"status\":\"Downloading\",\"progressDetail\":{\"current\":1,\"total\":9}}",
        "{\"id\":\"L1\",\"status\":\"Download complete\"}",
    ]);
    let entry = document.get("L1").unwrap();
    assert_eq!(entry.get("status"), Some(&string("Download complete")));
    assert_eq!(
        entry.get("progressDetail"),
        Some(&members(vec![("current", number(1)), ("total", number(9))]))
    );
    assert_eq!(entry.get("id"), Some(&string("L1")));
}

#[test]
fn merge_replaces_a_field_whole() {
    let document = document_of(&[
        "{\"id\":\"L1\",\"progressDetail\":{\"current\":1,\"total\":9}}",
        "{\"id\":\"L1\",\"progressDetail\":{}}",
    ]);
    assert_eq!(document.get("L1").unwrap().get("progressDetail"), Some(&members(vec![])));
}

#[test]
fn merge_keeps_layers_apart() {
    let document = document_of(&[
        "{\"id\":\"L2\",\"status\":\"Waiting\"}",
        "{\"id\":\"L1\",\"status\":\"Downloading\"}",
        "{\"id\":\"L2\",\"status\":\"Verifying\"}",
    ]);
    assert_eq!(document.get("L1").unwrap().get("status"), Some(&string("Downloading")));
    assert_eq!(document.get("L2").unwrap().get("status"), Some(&string("Verifying")));
    assert_eq!(document.get("L3"), None);
    assert_eq!(
        snapshot_text(&document).unwrap(),
        "{\n  \"L1\": {\n    \"id\": \"L1\",\n    \"status\": \"Downloading\"\n  },\n  \"L2\": {\n    \"id\": \"L2\",\n    \"status\": \"Verifying\"\n  }\n}"
    );
}

#[test]
fn same_identifier_gives_field_wise_union_last_write_wins() {
    let updates = [
        "{\"id\":\"L1\",\"a\":1,\"b\":1}",
        "{\"id\":\"L1\",\"b\":2,\"c\":2}",
        "{\"id\":\"L1\",\"c\":3,\"d\":3}",
        "{\"id\":\"L1\",\"a\":4}",
    ];
    let document = document_of(&updates);
    let entry = document.get("L1").unwrap();
    assert_eq!(
        sorted(entry),
        members(vec![
            ("a", number(4)),
            ("b", number(2)),
            ("c", number(3)),
            ("d", number(3)),
            ("id", string("L1")),
        ])
    );
}

#[test]
fn merging_is_associative_over_consecutive_updates() {
    let first = "{\"id\":\"L1\",\"a\":1,\"b\":1}";
    let second = "{\"id\":\"L1\",\"b\":2,\"c\":2}";
    let one_by_one = document_of(&["{\"id\":\"L1\",\"z\":0}", first, second]);
    let mut combined = parsed(first);
    merge_entry(&mut combined, parsed(second));
    let mut at_once = document_of(&["{\"id\":\"L1\",\"z\":0}"]);
    merge_json_by_id(&mut at_once, combined);
    assert_eq!(snapshot_text(&one_by_one).unwrap(), snapshot_text(&at_once).unwrap());
    assert_eq!(sorted(one_by_one.as_json()), sorted(at_once.as_json()));
}

#[test]
fn object_without_identifier_changes_nothing() {
    let mut document = document_of(&["{\"id\":\"L1\",\"status\":\"Downloading\"}"]);
    let before = snapshot_text(&document).unwrap();
    let kept = document.as_json().clone();
    for update in [
        "{\"status\":\"Pulling from library/nginx\"}",
        "{\"id\":7,\"status\":\"x\"}",
        "{\"id\":null}",
        "{\"id\":[\"L1\"]}",
        "{\"ID\":\"L1\",\"status\":\"x\"}",
        "{}",
        "[\"id\",\"L1\"]",
        "\"id\"",
        "12",
        "null",
    ] {
        merge_json_by_id(&mut document, parsed(update));
        assert_eq!(document.as_json(), &kept, "{}", update);
    }
    assert_eq!(snapshot_text(&document).unwrap(), before);
}

#[test]
fn empty_identifier_is_an_identifier() {
    let document = document_of(&["{\"id\":\"\",\"status\":\"x\"}"]);
    assert_eq!(document.get("").unwrap().get("status"), Some(&string("x")));
}

#[test]
fn merge_entry_overwrites_and_adds() {
    let mut entry = members(vec![("a", number(1)), ("b", number(2))]);
    merge_entry(&mut entry, members(vec![("b", number(3)), ("c", number(4))]));
    assert_eq!(entry, members(vec![("a", number(1)), ("b", number(3)), ("c", number(4))]));
}

#[test]
fn merge_entry_needs_two_objects() {
    let mut entry = string("text");
    merge_entry(&mut entry, members(vec![("a", number(1))]));
    assert_eq!(entry, string("text"));
    let mut entry = members(vec![("a", number(1))]);
    merge_entry(&mut entry, Json::Array(vec![number(1)]));
    assert_eq!(entry, members(vec![("a", number(1))]));
    let mut entry = Json::Null;
    merge_entry(&mut entry, Json::Null);
    assert_eq!(entry, Json::Null);
}

#[test]
fn merge_entry_takes_the_last_of_repeated_keys() {
    let mut entry = members(vec![]);
    merge_entry(&mut entry, members(vec![("a", number(1)), ("a", number(2))]));
    assert_eq!(entry, members(vec![("a", number(2))]));
}

#[test]
fn upsert_member_replaces_in_place_or_appends() {
    let mut list = vec![("a".to_string(), number(1)), ("b".to_string(), number(2))];
    upsert_member(&mut list, "a".to_string(), number(3));
    assert_eq!(list, vec![("a".to_string(), number(3)), ("b".to_string(), number(2))]);
    upsert_member(&mut list, "c".to_string(), number(4));
    assert_eq!(list.len(), 3);
    assert_eq!(list[2], ("c".to_string(), number(4)));
}

#[test]
fn find_member_gives_the_last_place() {
    let list = vec![
        ("a".to_string(), number(1)),
        ("b".to_string(), number(2)),
        ("a".to_string(), number(3)),
    ];
    assert_eq!(find_member(&list, "a"), Some(2));
    assert_eq!(find_member(&list, "b"), Some(1));
    assert_eq!(find_member(&list, "c"), None);
    assert_eq!(find_member(&list, ""), None);
    assert_eq!(find_member(&vec![], "a"), None);
}

#[test]
fn get_reads_members_of_objects_only() {
    let value = members(vec![("a", number(1)), ("a", number(2)), ("b", Json::Null)]);
    assert_eq!(value.get("a"), Some(&number(2)));
    assert_eq!(value.get("b"), Some(&Json::Null));
    assert_eq!(value.get("c"), None);
    assert_eq!(Json::Array(vec![number(1)]).get("0"), None);
    assert_eq!(string("a").get("a"), None);
}

#[test]
fn as_str_reads_strings_only() {
    assert_eq!(string("x").as_str(), Some("x"));
    assert_eq!(string("").as_str(), Some(""));
    assert_eq!(number(1).as_str(), None);
    assert_eq!(Json::Null.as_str(), None);
    assert_eq!(members(vec![]).as_str(), None);
}

#[test]
fn clone_copies_the_whole_value() {
    let value = parsed("{\"a\":[1,-2,3.5,{\"b\":null}],\"c\":\"d\",\"e\":true}");
    assert_eq!(value.clone(), value);
}

#[test]
fn apply_updates_merges_values_and_returns_errors() {
    let mut document = ProgressDocument::new();
    let results = vec![
        Ok(parsed("{\"id\":\"L1\",\"status\":\"a\"}")),
        Err(JsonError { message: "first".to_string() }),
        Ok(parsed("{\"status\":\"no id\"}")),
        Ok(parsed("{\"id\":\"L1\",\"status\":\"b\"}")),
        Err(JsonError { message: "second".to_string() }),
    ];
    let failures = apply_updates(&mut document, results);
    assert_eq!(
        failures,
        vec![
            JsonError { message: "first".to_string() },
            JsonError { message: "second".to_string() }
        ]
    );
    assert_eq!(document.get("L1").unwrap().get("status"), Some(&string("b")));
}

#[test]
fn snapshot_is_the_same_twice() {
    let document = document_of(&[
        "{\"id\":\"L1\",\"status\":\"Downloading\",\"progressDetail\":{\"current\":512,\"total\":1024}}",
        "{\"id\":\"L2\",\"status\":\"Waiting\"}",
    ]);
    let first = snapshot_text(&document).unwrap();
    let second = snapshot_text(&document).unwrap();
    assert_eq!(first.as_bytes(), second.as_bytes());
}

#[test]
fn snapshot_goes_by_entries_not_by_their_order() {
    let one = document_of(&["{\"id\":\"L1\",\"a\":1,\"b\":2}", "{\"id\":\"L2\",\"c\":3}"]);
    let other = document_of(&["{\"id\":\"L2\",\"c\":3}", "{\"id\":\"L1\",\"b\":2}", "{\"id\":\"L1\",\"a\":1}"]);
    assert_eq!(snapshot_text(&one).unwrap(), snapshot_text(&other).unwrap());
}

#[test]
fn parse_json_reads_every_kind_of_value() {
    assert_eq!(parsed("null"), Json::Null);
    assert_eq!(parsed("true"), Json::Bool(true));
    assert_eq!(parsed(" false "), Json::Bool(false));
    assert_eq!(parsed("17"), number(17));
    assert_eq!(parsed("\"a\\nb\""), string("a\nb"));
    assert_eq!(parsed("[1,[2]]"), Json::Array(vec![number(1), Json::Array(vec![number(2)])]));
    assert_eq!(
        parsed("{\"b\":1,\"a\":{\"c\":[]}}"),
        members(vec![("a", members(vec![("c", Json::Array(vec![]))])), ("b", number(1))])
    );
    assert_eq!(parsed("{\"a\":1,\"a\":2}"), members(vec![("a", number(2))]));
}

#[test]
fn parse_json_rejects_what_is_not_json() {
    for text in ["", " ", "{", "{\"a\":}", "[1,]", "nul", "1 2", "{\"a\":1}x", "'a'", "\u{feff}1"] {
        assert!(parse_json(text).is_err(), "{:?}", text);
    }
}

#[test]
fn numbers_are_written_as_they_were_read() {
    for text in ["0", "-1", "18446744073709551615", "-9223372036854775808", "1.5", "-0.0", "0.1"] {
        assert_eq!(compact_json(&parsed(text)).unwrap(), text);
    }
    assert_eq!(compact_json(&parsed("1.0E2")).unwrap(), "100.0");
}

#[test]
fn json_number_is_the_number() {
    assert_eq!(json_number(0), number(0));
    assert_eq!(json_number(200), parsed("200"));
    assert_eq!(compact_json(&json_number(u64::MAX)).unwrap(), "18446744073709551615");
}

#[test]
fn compact_and_pretty_text() {
    let value = members(vec![
        ("b", Json::Array(vec![number(1), Json::Null])),
        ("a", string("x\"y")),
        ("c", members(vec![])),
    ]);
    assert_eq!(compact_json(&value).unwrap(), "{\"a\":\"x\\\"y\",\"b\":[1,null],\"c\":{}}");
    assert_eq!(
        pretty_json(&value).unwrap(),
        "{\n  \"a\": \"x\\\"y\",\n  \"b\": [\n    1,\n    null\n  ],\n  \"c\": {}\n}"
    );
}

#[test]
fn written_text_takes_the_last_of_repeated_keys() {
    let value = members(vec![("a", number(1)), ("b", number(2)), ("a", number(3))]);
    assert_eq!(compact_json(&value).unwrap(), "{\"a\":3,\"b\":2}");
}

#[test]
fn text_round_trip_keeps_the_value() {
    let text = "{\"id\":\"L1\",\"progressDetail\":{\"current\":1,\"total\":2},\"status\":\"Downloading\"}";
    assert_eq!(compact_json(&parsed(text)).unwrap(), text);
    assert_eq!(parsed(&pretty_json(&parsed(text)).unwrap()), parsed(text));
}
