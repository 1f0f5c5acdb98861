use database::register::{
    dispatch_message, register_func, register_static_func, route_pattern, Register, StaticHandlers,
};
use std::cell::RefCell;
use std::rc::Rc;

type Callback = Box<dyn Fn(&str, &str)>;
type Log = Rc<RefCell<Vec<String>>>;

fn recorder(log: &Log, name: &str) -> Callback {
    let log = log.clone();
    let name = name.to_string();
    Box::new(move |topic: &str, payload: &str| {
        log.borrow_mut().push(format!("{} {} {}", name, topic, payload));
    })
}

fn static_handlers(log: &Log) -> StaticHandlers<Callback> {
    StaticHandlers {
        version: recorder(log, "version"),
        model_set: recorder(log, "model_set"),
        model_get: recorder(log, "model_get"),
        model_schema: recorder(log, "model_schema"),
        model_delete: recorder(log, "model_delete"),
        device_register: recorder(log, "device_register"),
        device_register_get: recorder(log, "device_register_get"),
        device_guid_get: recorder(log, "device_guid_get"),
        device_cancel_register: recorder(log, "device_cancel_register"),
        realtime_set: recorder(log, "realtime_set"),
        realtime_get: recorder(log, "realtime_get"),
    }
}

#[test]
fn route_pattern_replaces_app() {
    assert_eq!(route_pattern("app/get/request/database/version"), "+/get/request/database/version");
    assert_eq!(route_pattern("x/y"), "+/y");
}

#[test]
fn route_pattern_of_notify_topic() {
    assert_eq!(route_pattern("app/notify/event/database/temp/temp_12345"), "+/notify/event/database/+/+");
    assert_eq!(route_pattern("a/notify"), "+/+");
}

#[test]
fn deal_calls_matching_callback() {
    let log: Log = Rc::new(RefCell::new(Vec::new()));
    let mut r: Register<Callback> = Register::new();
    r.add_callback("+/get/request/database/version", recorder(&log, "v"));
    assert!(r.deal("app/get/request/database/version", "{}"));
    assert!(!r.deal("app/get/request/database/other", "{}"));
    assert_eq!(*log.borrow(), vec!["v app/get/request/database/version {}".to_string()]);
}

#[test]
fn delete_and_update_callback() {
    let log: Log = Rc::new(RefCell::new(Vec::new()));
    let mut r: Register<Callback> = Register::new();
    r.add_callback("+/a", recorder(&log, "first"));
    r.update_callback("+/a", recorder(&log, "second"));
    assert!(r.deal("x/a", "p"));
    r.delete_callback("+/a");
    assert!(!r.deal("x/a", "p"));
    r.delete_callback("+/never");
    assert_eq!(*log.borrow(), vec!["second x/a p".to_string()]);
}

#[test]
fn register_func_and_dispatch_message() {
    let log: Log = Rc::new(RefCell::new(Vec::new()));
    let mut r: Register<Callback> = Register::new();
    register_func(&mut r, "+/get/request/database/model", recorder(&log, "m"));
    assert!(dispatch_message(&mut r, "app/get/request/database/model", "body"));
    assert!(dispatch_message(&mut r, "app/get/request/database/none", "body"));
    assert_eq!(log.borrow().len(), 1);
}

#[test]
fn static_routes_reach_their_handlers() {
    let log: Log = Rc::new(RefCell::new(Vec::new()));
    let mut r: Register<Callback> = Register::new();
    register_static_func(&mut r, static_handlers(&log));
    let cases = [
        ("a/get/request/database/version", "version"),
        ("a/set/request/database/model", "model_set"),
        ("a/get/request/database/model", "model_get"),
        ("a/get/request/database/modelschema", "model_schema"),
        ("a/action/request/database/deletemodel", "model_delete"),
        ("a/set/request/database/register", "device_register"),
        ("a/get/request/database/register", "device_register_get"),
        ("a/get/request/database/guid", "device_guid_get"),
        ("a/action/request/database/unregister", "device_cancel_register"),
        ("a/notify/event/database/temp/temp_12345", "realtime_set"),
        ("a/get/request/database/realtime", "realtime_get"),
    ];
    for (topic, handler) in cases {
        log.borrow_mut().clear();
        assert!(r.deal(topic, "{}"));
        assert_eq!(*log.borrow(), vec![format!("{} {} {{}}", handler, topic)]);
    }
}

#[test]
fn version_query_of_any_app_is_routed() {
    let log: Log = Rc::new(RefCell::new(Vec::new()));
    let mut r: Register<Callback> = Register::new();
    register_static_func(&mut r, static_handlers(&log));
    for app in ["a", "another_app", ""] {
        let topic = format!("{}/get/request/database/version", app);
        assert!(r.deal(&topic, "x"));
    }
    assert!(log.borrow().iter().all(|l| l.starts_with("version ")));
}
