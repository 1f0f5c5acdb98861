use database::json::{
    clone_entries, contains_key, display, dump, dump_array, dump_object, find_key, insert_entry,
    len_of, member, owned, parse_json, quote, value_of, Json, JsonEntry,
};

fn entry(k: &str, v: &str) -> JsonEntry {
    JsonEntry { key: k.to_string(), value: v.to_string() }
}

#[test]
fn parse_json_scalars() {
    assert_eq!(parse_json("null"), Some(Json::Null));
    assert_eq!(parse_json("true"), Some(Json::Boolean(true)));
    assert_eq!(parse_json("12"), Some(Json::Number("12".to_string())));
    assert_eq!(parse_json("\"hi\""), Some(Json::Text("hi".to_string())));
    assert_eq!(parse_json("\"a much longer string than thirty chars\""), Some(Json::Text("a much longer string than thirty chars".to_string())));
}

#[test]
fn parse_json_rejects_bad_text() {
    assert_eq!(parse_json("{"), None);
    assert_eq!(parse_json(""), None);
    assert_eq!(parse_json("{'a': 1}"), None);
}

#[test]
fn parse_json_keeps_member_texts() {
    let v = parse_json(r#"{ "token" : "abc", "body" : [ {"name": "t"}, 2 ] }"#).unwrap();
    assert_eq!(
        v,
        Json::Object(vec![entry("token", "\"abc\""), entry("body", r#"[{"name":"t"},2]"#)])
    );
    let a = parse_json(r#"[1, "x", null]"#).unwrap();
    assert_eq!(a, Json::Array(vec!["1".to_string(), "\"x\"".to_string(), "null".to_string()]));
}

#[test]
fn parse_json_object_keys_are_distinct() {
    let v = parse_json(r#"{"a": 1, "a": 2}"#).unwrap();
    match v {
        Json::Object(es) => {
            assert_eq!(es.len(), 1);
            assert_eq!(es[0].value, "2");
        }
        _ => panic!("not an object"),
    }
}

#[test]
fn quote_escapes_like_json() {
    assert_eq!(quote("abc"), "\"abc\"");
    assert_eq!(quote("a\"b"), "\"a\\\"b\"");
}

#[test]
fn dump_writes_compact_text() {
    assert_eq!(dump(&Json::Null), "null");
    assert_eq!(dump(&Json::Boolean(false)), "false");
    assert_eq!(dump(&Json::Text("x".to_string())), "\"x\"");
    assert_eq!(dump_array(&vec!["1".to_string(), "2".to_string()]), "[1,2]");
    assert_eq!(dump_array(&Vec::new()), "[]");
    assert_eq!(dump_object(&vec![entry("a", "1"), entry("b", "\"c\"")]), r#"{"a":1,"b":"c"}"#);
    assert_eq!(dump_object(&Vec::new()), "{}");
}

#[test]
fn dump_matches_json_crate() {
    for text in [r#"{"a":[1,2,{"b":null}],"c":"d"}"#, "[]", r#"[true,"x"]"#] {
        let ours = dump(&parse_json(text).unwrap());
        assert_eq!(ours, json::parse(text).unwrap().dump());
    }
}

#[test]
fn value_of_reads_members() {
    let v = parse_json(r#"{"token":"abc","n":3,"body":[1]}"#).unwrap();
    assert_eq!(value_of(&v, "token"), Json::Text("abc".to_string()));
    assert_eq!(value_of(&v, "n"), Json::Number("3".to_string()));
    assert_eq!(value_of(&v, "body"), Json::Array(vec!["1".to_string()]));
    assert_eq!(value_of(&v, "missing"), Json::Null);
    assert_eq!(value_of(&Json::Array(Vec::new()), "token"), Json::Null);
}

#[test]
fn contains_key_and_len() {
    let v = parse_json(r#"{"dev":"m_1","body":[]}"#).unwrap();
    assert!(contains_key(&v, "dev"));
    assert!(!contains_key(&v, "modelname"));
    assert!(!contains_key(&Json::Null, "dev"));
    assert_eq!(len_of(&v), 2);
    assert_eq!(len_of(&parse_json("[1,2,3]").unwrap()), 3);
    assert_eq!(len_of(&Json::Text("abc".to_string())), 0);
}

#[test]
fn insert_entry_replaces_or_appends() {
    let mut es = vec![entry("a", "1"), entry("b", "2")];
    insert_entry(&mut es, "a", "9".to_string());
    assert_eq!(es, vec![entry("a", "9"), entry("b", "2")]);
    insert_entry(&mut es, "c", "3".to_string());
    assert_eq!(es, vec![entry("a", "9"), entry("b", "2"), entry("c", "3")]);
    assert_eq!(find_key(&es, "c"), Some(2));
    assert_eq!(find_key(&es, "z"), None);
}

#[test]
fn insert_then_read_back_law() {
    let mut es = vec![entry("x", "1")];
    insert_entry(&mut es, "token", quote("t"));
    insert_entry(&mut es, "timestamp", quote("now"));
    let obj = Json::Object(clone_entries(&es));
    assert_eq!(value_of(&obj, "token"), Json::Text("t".to_string()));
    assert_eq!(value_of(&obj, "timestamp"), Json::Text("now".to_string()));
    assert_eq!(value_of(&obj, "x"), Json::Number("1".to_string()));
}

#[test]
fn member_and_display() {
    assert_eq!(member("\"s\""), Json::Text("s".to_string()));
    assert_eq!(member("not json"), Json::Null);
    assert_eq!(display(&Json::Text("s".to_string())), "s");
    assert_eq!(display(&Json::Number("5".to_string())), "5");
    assert_eq!(display(&parse_json(r#"{"a":1}"#).unwrap()), r#"{"a":1}"#);
    assert_eq!(owned("x"), "x".to_string());
    let j = parse_json(r#"{"a":[1]}"#).unwrap();
    assert_eq!(j.duplicate(), j);
}

#[test]
fn quote_escape_table() {
    assert_eq!(
        quote("a\"b\\\n\t\r\u{8}\u{c}\u{1}\u{1f}é\u{7f} "),
        "\"a\\\"b\\\\\\n\\t\\r\\b\\f\\u0001\\u001fé\u{7f} \""
    );
    assert_eq!(quote(""), "\"\"");
}
