use database::common::{
    clone_kvs, gen_timestamp, gen_token, gen_topic, get_appname, get_array_array, get_array_items,
    get_key_value_str, get_text_or_empty, get_token, package_message, package_message_at,
    parse_request, read_request, token_is_readable, KeyValue,
};
use database::json::{parse_json, Json, JsonEntry};

#[test]
fn gen_topic_swaps_app_and_database() {
    assert_eq!(gen_topic("app/get/request/database/version"), "database/get/response/app/version");
    assert_eq!(gen_topic("a/b/c/d"), "d/b/response/a");
}

#[test]
fn gen_topic_of_short_topic_is_empty() {
    assert_eq!(gen_topic("a/b/c"), "");
    assert_eq!(gen_topic(""), "");
}

#[test]
fn reply_goes_back_to_the_app() {
    for t in ["app1/get/request/database/model", "x/notify/event/db/m/g", "a/b/c/d"] {
        let reply: Vec<String> = gen_topic(t).split('/').map(|s| s.to_string()).collect();
        let req: Vec<&str> = t.split('/').collect();
        assert_eq!(reply[3], get_appname(t));
        assert_eq!(reply[0], req[3]);
        assert_eq!(reply[2], "response");
        assert_eq!(reply.len(), req.len());
    }
}

#[test]
fn get_appname_reads_first_segment() {
    assert_eq!(get_appname("app/get/request/database/version"), "app");
    assert_eq!(get_appname("app/get"), "");
    assert_eq!(gen_token("tok"), "tok");
}

#[test]
fn get_token_defaults_to_123() {
    let with = parse_json(r#"{"token":"abc"}"#).unwrap();
    let without = parse_json(r#"{"x":1}"#).unwrap();
    let null = parse_json(r#"{"token":null}"#).unwrap();
    assert_eq!(get_token(&with), "abc");
    assert_eq!(get_token(&without), "123");
    assert_eq!(get_token(&null), "123");
    assert!(token_is_readable(&with));
    assert!(token_is_readable(&without));
    assert!(!token_is_readable(&parse_json(r#"{"token":5}"#).unwrap()));
}

#[test]
fn get_key_value_str_only_strings() {
    let m = parse_json(r#"{"s":"v","n":1}"#).unwrap();
    assert_eq!(get_key_value_str("s", &m), Some("v".to_string()));
    assert_eq!(get_key_value_str("n", &m), None);
    assert_eq!(get_key_value_str("missing", &m), None);
    assert_eq!(get_text_or_empty("n", &m), "");
    assert_eq!(get_text_or_empty("s", &m), "v");
}

#[test]
fn get_array_array_or_empty() {
    let m = parse_json(r#"{"body":[1,"a"],"s":"x"}"#).unwrap();
    assert_eq!(get_array_array("body", &m), Json::Array(vec!["1".to_string(), "\"a\"".to_string()]));
    assert_eq!(get_array_array("s", &m), Json::Array(Vec::new()));
    assert_eq!(get_array_array("none", &m), Json::Array(Vec::new()));
    assert_eq!(get_array_items("body", &m).len(), 2);
}

#[test]
fn parse_request_falls_back_to_empty_object() {
    assert_eq!(parse_request("not json"), Json::Object(Vec::new()));
    assert_eq!(parse_request(r#"{"a":"b"}"#), parse_json(r#"{"a":"b"}"#).unwrap());
}

#[test]
fn read_request_refuses_unreadable_token() {
    assert!(read_request(r#"{"token":[1]}"#).is_none());
    assert!(read_request(r#"{"token":"t"}"#).is_some());
    assert_eq!(read_request("garbage"), Some(Json::Object(Vec::new())));
}

#[test]
fn package_message_at_adds_token_and_timestamp() {
    assert_eq!(
        package_message_at("123", Vec::new(), "2024-01-02T03:04:05Z"),
        r#"{"token":"123","timestamp":"2024-01-02T03:04:05Z"}"#
    );
    let msg = vec![JsonEntry { key: "status".to_string(), value: "\"OK\"".to_string() }];
    assert_eq!(
        package_message_at("t", msg, "ts"),
        r#"{"status":"OK","token":"t","timestamp":"ts"}"#
    );
}

#[test]
fn package_message_at_replaces_existing_token() {
    let msg = vec![JsonEntry { key: "token".to_string(), value: "\"old\"".to_string() }];
    assert_eq!(package_message_at("new", msg, "ts"), r#"{"token":"new","timestamp":"ts"}"#);
}

#[test]
fn package_message_carries_token_and_time() {
    let text = package_message("abc", Vec::new());
    let v = json::parse(&text).unwrap();
    assert_eq!(v["token"].as_str(), Some("abc"));
    let ts = v["timestamp"].as_str().unwrap().to_string();
    assert_eq!(ts.len(), 20);
    assert!(ts.ends_with('Z'));
    assert_eq!(&ts[4..5], "-");
}

#[test]
fn gen_timestamp_has_iso_shape() {
    let ts = gen_timestamp();
    assert_eq!(ts.len(), "2024-01-02T03:04:05Z".len());
    assert_eq!(&ts[10..11], "T");
}

#[test]
fn key_values_copy() {
    let kvs = vec![KeyValue::of("a", "1"), KeyValue::of("b", "2")];
    assert_eq!(clone_kvs(&kvs), kvs);
    assert_eq!(kvs[0].duplicate(), kvs[0]);
}

#[test]
fn cacher_keeps_first_result() {
    let calls = std::cell::Cell::new(0);
    let mut c = database::common::CacherExample::new(|x: u32| {
        calls.set(calls.get() + 1);
        x * 2
    });
    assert_eq!(c.value(3), 6);
    assert_eq!(c.value(10), 6);
    assert_eq!(calls.get(), 1);
    assert_eq!(c.value, Some(6));
}
