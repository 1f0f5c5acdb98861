use database::common::KeyValue;
use database::deals::device::{
    response_device_cancel_register, response_device_guid_get, response_device_register,
    response_device_register_get,
};
use database::deals::model::{
    response_model_delete, response_model_get, response_model_schema, response_model_set,
};
use database::deals::realtime::{response_realtime_get, response_realtime_set};
use database::deals::version::{response_version, version_answer};
use database::json::{parse_json, JsonEntry};
use database::protocol::{DbReply, DbRequest, Response, Step};
use std::collections::hash_map::DefaultHasher;
use std::hash::Hasher;

fn kvs(p: &[(&str, &str)]) -> Vec<KeyValue> {
    p.iter().map(|(k, v)| KeyValue::of(k, v)).collect()
}

fn status(topic: &str, token: &str, ok: bool) -> Step {
    let v = if ok { "\"OK\"" } else { "\"FAILURE\"" };
    Step::Respond(Response {
        topic: topic.to_string(),
        token: token.to_string(),
        message: vec![JsonEntry { key: "status".to_string(), value: v.to_string() }],
    })
}

fn body(topic: &str, token: &str, items: &[&str]) -> Step {
    Step::Respond(Response {
        topic: topic.to_string(),
        token: token.to_string(),
        message: vec![JsonEntry { key: "body".to_string(), value: format!("[{}]", items.join(",")) }],
    })
}

fn rows(r: &[&[&str]]) -> DbReply {
    DbReply::Rows(Some(r.iter().map(|row| row.iter().map(|c| c.to_string()).collect()).collect()))
}

fn flag(b: bool) -> DbReply {
    DbReply::Flag(Some(b))
}

// ---------- version ----------

#[test]
fn version_reply_carries_versions() {
    let step = response_version("app/get/request/database/version", r#"{"token":"abc"}"#);
    assert_eq!(
        step,
        Step::Respond(Response {
            topic: "database/get/response/app/version".to_string(),
            token: "abc".to_string(),
            message: vec![
                JsonEntry { key: "version".to_string(), value: "\"2.1\"".to_string() },
                JsonEntry { key: "Compatible".to_string(), value: "\"1.0\"".to_string() },
            ],
        })
    );
}

#[test]
fn version_without_token_is_not_answered() {
    assert_eq!(response_version("app/get/request/database/version", r#"{"x":1}"#), Step::Quit);
    assert_eq!(response_version("app/get/request/database/version", r#"{"token":""}"#), Step::Quit);
    assert_eq!(response_version("app/get/request/database/version", r#"{"token":7}"#), Step::Quit);
    assert_eq!(response_version("app/get/request/database/version", "not json"), Step::Quit);
    assert_eq!(version_answer("a/b/c/d", None), Step::Quit);
    assert_eq!(version_answer("a/b/c/d", parse_json("[]")), Step::Quit);
}

// ---------- model ----------

#[test]
fn model_set_inserts_then_rebuilds_table() {
    let payload = r#"{"token":"t","model":"temp","body":[{"name":"a"},{"name":"b"},{"x":1}]}"#;
    let (mut s, step) = response_model_set("app/set/request/database/model", payload).unwrap();
    assert_eq!(step, Step::Query(DbRequest::ExistsData { table: "model".to_string(), params: kvs(&[("name", "temp")]) }));
    let record = kvs(&[("name", "temp"), ("params", "[{'name':'a'},{'name':'b'},{'x':1}]")]);
    assert_eq!(s.resume(flag(false)), Step::Query(DbRequest::InsertOneData { table: "model".to_string(), params: record }));
    assert_eq!(s.resume(flag(true)), Step::Query(DbRequest::DeleteTable { table: "temp".to_string() }));
    let cols = kvs(&[("guid", "TEXT"), ("a", "TEXT"), ("b", "TEXT")]);
    assert_eq!(s.resume(DbReply::Flag(None)), Step::Query(DbRequest::CreateTable { table: "temp".to_string(), params: cols }));
    assert_eq!(s.resume(flag(true)), status("database/set/response/app/model", "t", true));
    assert_eq!(s.resume(flag(true)), Step::Quit);
}

#[test]
fn model_set_updates_existing_model() {
    let payload = r#"{"token":"t","model":"m","body":[{"name":"a"}]}"#;
    let (mut s, _) = response_model_set("app/set/request/database/model", payload).unwrap();
    let record = kvs(&[("name", "m"), ("params", "[{'name':'a'}]")]);
    assert_eq!(
        s.resume(flag(true)),
        Step::Query(DbRequest::UpdateData { table: "model".to_string(), conditions: kvs(&[("name", "m")]), params: record })
    );
}

#[test]
fn model_set_failures() {
    let t = "app/set/request/database/model";
    let (_, step) = response_model_set(t, r#"{"token":"t","body":[{"name":"a"}]}"#).unwrap();
    assert_eq!(step, status("database/set/response/app/model", "t", false));
    let (_, step) = response_model_set(t, r#"{"token":"t","model":"m","body":[{"x":1}]}"#).unwrap();
    assert_eq!(step, status("database/set/response/app/model", "t", false));
    let (_, step) = response_model_set(t, "not json").unwrap();
    assert_eq!(step, status("database/set/response/app/model", "123", false));
    let (mut s, _) = response_model_set(t, r#"{"token":"t","model":"m","body":[{"name":"a"}]}"#).unwrap();
    assert_eq!(s.resume(DbReply::Flag(None)), status("database/set/response/app/model", "t", false));
    assert!(response_model_set(t, r#"{"token":{}}"#).is_none());
}

#[test]
fn model_get_reads_definitions() {
    let payload = r#"{"token":"t","body":["temp","none"]}"#;
    let (mut s, step) = response_model_get("app/get/request/database/model", payload).unwrap();
    assert_eq!(step, Step::Query(DbRequest::SelectData { table: "model".to_string(), params: kvs(&[("name", "temp")]) }));
    let found = rows(&[&["temp", "[{'name':'a'}]"]]);
    assert!(s.fits(&found));
    let step = s.resume(found);
    assert_eq!(step, Step::Query(DbRequest::SelectData { table: "model".to_string(), params: kvs(&[("name", "none")]) }));
    assert!(s.fits(&rows(&[])));
    assert_eq!(
        s.resume(rows(&[])),
        body("database/get/response/app/model", "t", &[r#"{"model":"temp","body":[{"name":"a"}]}"#])
    );
    assert!(!s.fits(&rows(&[])));
}

#[test]
fn model_get_bad_definition_reads_as_empty_array() {
    let (mut s, _) = response_model_get("a/get/request/d/model", r#"{"body":["m"]}"#).unwrap();
    assert!(!s.fits(&rows(&[&["m"]])));
    assert_eq!(s.resume(rows(&[&["m", "not json"]])), body("d/get/response/a/model", "123", &[r#"{"model":"m","body":[]}"#]));
}

#[test]
fn model_schema_lists_names() {
    let (mut s, step) = response_model_schema("app/get/request/database/modelschema", r#"{"token":"t"}"#).unwrap();
    assert_eq!(step, Step::Query(DbRequest::SelectColumnAll { table: "model".to_string(), key: "name".to_string() }));
    let names = rows(&[&["a"], &["b"]]);
    assert!(s.fits(&names));
    assert!(!s.fits(&rows(&[&[]])));
    assert_eq!(s.resume(names), body("database/get/response/app/modelschema", "t", &["\"a\"", "\"b\""]));
    assert_eq!(s.resume(rows(&[])), Step::Quit);
}

#[test]
fn model_schema_failed_query_gives_empty_body() {
    let (mut s, _) = response_model_schema("a/get/request/d/modelschema", "{}").unwrap();
    assert_eq!(s.resume(DbReply::Rows(None)), body("d/get/response/a/modelschema", "123", &[]));
}

#[test]
fn model_delete_stops_at_first_failure() {
    let (mut s, step) = response_model_delete("app/action/request/database/deletemodel", r#"{"token":"t","body":["a","b"]}"#).unwrap();
    assert_eq!(step, Step::Query(DbRequest::DeleteData { table: "model".to_string(), params: kvs(&[("name", "a")]) }));
    assert!(s.fits(&flag(true)));
    assert_eq!(s.resume(flag(true)), Step::Query(DbRequest::DeleteData { table: "model".to_string(), params: kvs(&[("name", "b")]) }));
    assert_eq!(s.resume(flag(false)), status("database/action/response/app/deletemodel", "t", false));
    assert_eq!(s.resume(flag(true)), Step::Quit);
}

#[test]
fn model_delete_all_succeed() {
    let (mut s, _) = response_model_delete("app/action/request/database/deletemodel", r#"{"body":["a"]}"#).unwrap();
    assert_eq!(s.resume(flag(true)), status("database/action/response/app/deletemodel", "123", true));
    let (_, step) = response_model_delete("app/action/request/database/deletemodel", r#"{"body":[]}"#).unwrap();
    assert_eq!(step, status("database/action/response/app/deletemodel", "123", true));
}

// ---------- devices ----------

fn guid_of(model: &str, port: &str, addr: &str) -> String {
    let mut h = DefaultHasher::new();
    h.write(model.as_bytes());
    h.write(port.as_bytes());
    h.write(addr.as_bytes());
    h.finish().to_string()
}

const DEVICE: &str = r#"{"model":"m1","port":"502","addr":"1","desc":"d","manuID":"x","isreport":"1"}"#;

#[test]
fn device_register_inserts_new_device() {
    let payload = format!(r#"{{"token":"t","body":[{}]}}"#, DEVICE);
    let (mut s, step) = response_device_register("app/set/request/database/register", &payload).unwrap();
    let id = kvs(&[("model", "m1"), ("port", "502"), ("addr", "1")]);
    assert_eq!(step, Step::Query(DbRequest::ExistsData { table: "device".to_string(), params: id.clone() }));
    let guid = guid_of("m1", "502", "1");
    let record = kvs(&[
        ("model", "m1"),
        ("port", "502"),
        ("addr", "1"),
        ("desc", "d"),
        ("manuID", "x"),
        ("isreport", "1"),
        ("appname", "app"),
        ("guid", &guid),
    ]);
    assert_eq!(s.resume(flag(false)), Step::Query(DbRequest::InsertOneData { table: "device".to_string(), params: record.clone() }));
    assert_eq!(s.resume(flag(true)), status("database/set/response/app/register", "t", true));
    let (mut s2, _) = response_device_register("app/set/request/database/register", &payload).unwrap();
    assert_eq!(
        s2.resume(flag(true)),
        Step::Query(DbRequest::UpdateData { table: "device".to_string(), conditions: id, params: record })
    );
    assert_eq!(s2.resume(flag(false)), status("database/set/response/app/register", "t", false));
}

#[test]
fn device_register_missing_field_fails() {
    let payload = r#"{"token":"t","body":[{"model":"m1","port":"502"}]}"#;
    let (_, step) = response_device_register("app/set/request/database/register", payload).unwrap();
    assert_eq!(step, status("database/set/response/app/register", "t", false));
    let (_, step) = response_device_register("app/set/request/database/register", r#"{"body":[]}"#).unwrap();
    assert_eq!(step, status("database/set/response/app/register", "123", true));
}

#[test]
fn device_list_groups_by_model_and_port() {
    let (mut s, step) = response_device_register_get("app/get/request/database/register", r#"{"token":"t"}"#).unwrap();
    assert_eq!(step, Step::Query(DbRequest::SelectAll { table: "device".to_string() }));
    let found = rows(&[
        &["m1", "502", "1", "d", "g1", "app", "x", "1"],
        &["m2", "502", "2", "d", "g2", "app", "x", "0"],
        &["m1", "502", "3", "e", "g3", "app", "y", "1"],
    ]);
    assert!(s.fits(&found));
    let item1 = r#"{"model":"m1","port":"502","body":[{"addr":"1","desc":"d","guid":"g1","appname":"app","manuID":"x","isreport":"1"},{"addr":"3","desc":"e","guid":"g3","appname":"app","manuID":"y","isreport":"1"}]}"#;
    let item2 = r#"{"model":"m2","port":"502","body":[{"addr":"2","desc":"d","guid":"g2","appname":"app","manuID":"x","isreport":"0"}]}"#;
    assert_eq!(s.resume(found), body("database/get/response/app/register", "t", &[item1, item2]));
    assert!(!s.fits(&rows(&[&["only"]])));
}

#[test]
fn device_guid_lookup() {
    let payload = r#"{"token":"t","body":[{"model":"m1","port":"502","addr":"1"}]}"#;
    let (mut s, step) = response_device_guid_get("app/get/request/database/guid", payload).unwrap();
    assert_eq!(
        step,
        Step::Query(DbRequest::SelectByColumn {
            table: "device".to_string(),
            keys: vec!["guid".to_string()],
            params: kvs(&[("model", "m1"), ("port", "502"), ("addr", "1")]),
        })
    );
    assert!(s.fits(&rows(&[])));
    assert_eq!(
        s.resume(rows(&[&["42"]])),
        body("database/get/response/app/guid", "t", &[r#"{"guid":"42","dev":"m1_42"}"#])
    );
    assert!(!s.fits(&rows(&[])));
}

#[test]
fn device_guid_incomplete_device_gives_empty_body() {
    let (_, step) = response_device_guid_get("app/get/request/database/guid", r#"{"body":[{"model":"m1"}]}"#).unwrap();
    assert_eq!(step, body("database/get/response/app/guid", "123", &[]));
}

#[test]
fn device_cancel_deletes_each_device() {
    let payload = r#"{"token":"t","body":[{"model":"m1","port":"502","addr":"1"}]}"#;
    let (mut s, step) = response_device_cancel_register("app/action/request/database/unregister", payload).unwrap();
    assert_eq!(
        step,
        Step::Query(DbRequest::DeleteData {
            table: "device".to_string(),
            params: kvs(&[("model", "m1"), ("port", "502"), ("addr", "1")]),
        })
    );
    assert_eq!(s.resume(flag(true)), status("database/action/response/app/unregister", "t", true));
    let (_, step) = response_device_cancel_register("app/action/request/database/unregister", r#"{"body":[{"port":"1"}]}"#).unwrap();
    assert_eq!(step, status("database/action/response/app/unregister", "123", false));
}

// ---------- realtime ----------

const REPORT_TOPIC: &str = "app/notify/event/database/temp/temp_12345";

#[test]
fn realtime_report_is_stored() {
    let payload = r#"{"token":"t","data_row":"single","body":[{"name":"v","value":3}]}"#;
    let (mut s, step) = response_realtime_set(REPORT_TOPIC, payload).unwrap();
    assert_eq!(step, Step::Query(DbRequest::CheckTable { table: "temp".to_string() }));
    assert_eq!(s.resume(flag(true)), Step::Query(DbRequest::ExistsData { table: "model".to_string(), params: kvs(&[("name", "temp")]) }));
    let cond = kvs(&[("guid", "12345")]);
    assert_eq!(s.resume(flag(true)), Step::Query(DbRequest::ExistsData { table: "device".to_string(), params: cond.clone() }));
    assert_eq!(s.resume(flag(true)), Step::Query(DbRequest::ExistsData { table: "temp".to_string(), params: cond.clone() }));
    let record = kvs(&[("v", "{'name':'v','value':3}"), ("guid", "12345")]);
    assert_eq!(s.resume(flag(false)), Step::Query(DbRequest::InsertOneData { table: "temp".to_string(), params: record }));
    let reply_topic = "database/notify/response/app/temp/temp_12345";
    assert_eq!(s.resume(flag(false)), status(reply_topic, "t", true));
    assert_eq!(s.resume(flag(true)), Step::Quit);
}

#[test]
fn realtime_report_updates_existing_row() {
    let payload = r#"{"token":"t","data_row":"single","body":[{"name":"v"}]}"#;
    let (mut s, _) = response_realtime_set(REPORT_TOPIC, payload).unwrap();
    s.resume(flag(true));
    s.resume(flag(true));
    s.resume(flag(true));
    let record = kvs(&[("v", "{'name':'v'}"), ("guid", "12345")]);
    assert_eq!(
        s.resume(flag(true)),
        Step::Query(DbRequest::UpdateData { table: "temp".to_string(), conditions: kvs(&[("guid", "12345")]), params: record })
    );
}

#[test]
fn realtime_report_refused() {
    let reply_topic = "database/notify/response/app/temp/temp_12345";
    for payload in [
        r#"{"token":"t","data_row":"many","body":[{"name":"v"}]}"#,
        r#"{"token":"t","data_row":"single","body":[]}"#,
        r#"{"token":"t","data_row":"single","body":[{"value":1}]}"#,
    ] {
        let (_, step) = response_realtime_set(REPORT_TOPIC, payload).unwrap();
        assert_eq!(step, status(reply_topic, "t", false));
    }
    let (_, step) = response_realtime_set("app/notify/event/database/temp/t_1", r#"{"token":"t","data_row":"single","body":[{"name":"v"}]}"#).unwrap();
    assert_eq!(step, status("database/notify/response/app/temp/t_1", "t", false));
    let (mut s, _) = response_realtime_set(REPORT_TOPIC, r#"{"token":"t","data_row":"single","body":[{"name":"v"}]}"#).unwrap();
    assert_eq!(s.resume(flag(false)), status(reply_topic, "t", false));
}

#[test]
fn realtime_get_reads_devices_and_models() {
    let payload = r#"{"token":"t","body":[{"dev":"temp_7"},{"dev":"temp_8","body":["a","b"]},{"modelname":"temp"},{"dev":"x","modelname":"y"},{"dev":"nounderscore"}]}"#;
    let (mut s, step) = response_realtime_get("app/get/request/database/realtime", payload).unwrap();
    assert_eq!(step, Step::Query(DbRequest::SelectData { table: "temp".to_string(), params: kvs(&[("guid", "7")]) }));
    let r1 = rows(&[&["7", "{'name':'v'}"]]);
    assert!(s.fits(&r1));
    assert_eq!(
        s.resume(r1),
        Step::Query(DbRequest::SelectByColumn {
            table: "temp".to_string(),
            keys: vec!["a".to_string(), "b".to_string()],
            params: kvs(&[("guid", "8")]),
        })
    );
    assert_eq!(s.resume(rows(&[&["{'x':1}", "bad"]])), Step::Query(DbRequest::SelectAll { table: "temp".to_string() }));
    assert!(!s.fits(&rows(&[&[]])));
    let last = s.resume(rows(&[&["7", "{'name':'v'}"]]));
    let items = [
        r#"{"dev":"temp_7","body":[{"name":"v"}]}"#,
        r#"{"dev":"temp_8","body":[{"x":1},{}]}"#,
        r#"{"modelname":"temp","body":[{"dev":"temp_7","body":[{"name":"v"}]}]}"#,
    ];
    assert_eq!(last, body("database/get/response/app/realtime", "t", &items));
}

#[test]
fn realtime_get_with_nothing_to_read() {
    let (_, step) = response_realtime_get("app/get/request/database/realtime", r#"{"token":"t","body":[]}"#).unwrap();
    assert_eq!(step, body("database/get/response/app/realtime", "t", &[]));
}

fn record_guid(step: &Step) -> String {
    match step {
        Step::Query(DbRequest::InsertOneData { params, .. }) => {
            params.iter().find(|kv| kv.key == "guid").unwrap().value.clone()
        }
        other => panic!("unexpected step {:?}", other),
    }
}

#[test]
fn device_id_depends_only_on_model_port_addr() {
    let a = r#"{"body":[{"model":"m","port":"1","addr":"2","desc":"one","manuID":"x","isreport":"1"}]}"#;
    let b = r#"{"body":[{"model":"m","port":"1","addr":"2","desc":"two","manuID":"y","isreport":"0"}]}"#;
    let c = r#"{"body":[{"model":"m","port":"1","addr":"3","desc":"one","manuID":"x","isreport":"1"}]}"#;
    let t = "app/set/request/database/register";
    let guid = |p: &str| {
        let (mut s, _) = response_device_register(t, p).unwrap();
        record_guid(&s.resume(flag(false)))
    };
    assert_eq!(guid(a), guid(b));
    assert_ne!(guid(a), guid(c));
}

#[test]
fn registration_ends_within_two_operations_per_device() {
    let payload = format!(r#"{{"token":"t","body":[{},{},{}]}}"#, DEVICE, DEVICE, DEVICE);
    let (mut s, mut step) = response_device_register("app/set/request/database/register", &payload).unwrap();
    let mut operations = 0;
    while let Step::Query(_) = step {
        operations += 1;
        step = s.resume(flag(true));
    }
    assert_eq!(operations, 6);
    assert_eq!(step, status("database/set/response/app/register", "t", true));
}

#[test]
fn report_ends_within_five_operations() {
    let payload = r#"{"token":"t","data_row":"single","body":[{"name":"v"}]}"#;
    let (mut s, mut step) = response_realtime_set(REPORT_TOPIC, payload).unwrap();
    let mut operations = 0;
    while let Step::Query(_) = step {
        operations += 1;
        step = s.resume(flag(true));
    }
    assert_eq!(operations, 5);
}

// ---------- inserting several rows ----------

use database::deals::insertion::{InsertManySession, InsertStep};

#[test]
fn insert_many_inserts_each_row_in_order() {
    let rows = vec![kvs(&[("a", "1")]), kvs(&[("a", "2")])];
    let (mut s, step) = InsertManySession::start("t", &rows);
    assert_eq!(step, InsertStep::Query(DbRequest::InsertOneData { table: "t".to_string(), params: kvs(&[("a", "1")]) }));
    assert!(s.fits(&flag(true)));
    assert_eq!(s.resume(flag(true)), InsertStep::Query(DbRequest::InsertOneData { table: "t".to_string(), params: kvs(&[("a", "2")]) }));
    assert_eq!(s.resume(flag(true)), InsertStep::Done(true));
    assert_eq!(s.resume(flag(true)), InsertStep::Done(true));
}

#[test]
fn insert_many_stops_at_first_failure() {
    let rows = vec![kvs(&[("a", "1")]), kvs(&[("a", "2")]), kvs(&[("a", "3")])];
    let (mut s, _) = InsertManySession::start("t", &rows);
    assert_eq!(s.resume(DbReply::Flag(None)), InsertStep::Done(false));
    assert_eq!(s.resume(flag(true)), InsertStep::Done(false));
    let (_, step) = InsertManySession::start("t", &Vec::new());
    assert_eq!(step, InsertStep::Done(true));
}
