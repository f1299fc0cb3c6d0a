use ocean::controller::mandela::GetAllReq;
use ocean::controller::user::AuthReq;
use ocean::controller::ApiError;
use ocean::json_rpc::{Params, Reply, Request};
use ocean::model::Store;
use ocean::router::{exec_at, factory, operation, resolve, split_method, Controller, Operation};

fn call(s: &mut Store, id: &str, method: &str, params: Option<Params>) -> ocean::json_rpc::Response {
    exec_at(s, Request { id: id.to_string(), method: method.to_string(), params }, 100)
}

#[test]
fn split_at_first_dot() {
    assert_eq!(split_method("entry.getAll"), Some(("entry", "getAll")));
    assert_eq!(split_method("a.b.c"), Some(("a", "b.c")));
    assert_eq!(split_method("nodot"), None);
    assert_eq!(split_method(".x"), Some(("", "x")));
}

#[test]
fn registry_knows_namespaces_and_operations() {
    assert_eq!(factory("topic"), Some(Controller::Topic));
    assert_eq!(factory("entry"), Some(Controller::Mandela));
    assert_eq!(factory("mandela"), Some(Controller::Mandela));
    assert_eq!(factory("nope"), None);
    assert_eq!(operation(Controller::User, "changePassword"), Some(Operation::UserChangePassword));
    assert_eq!(operation(Controller::Comment, "delete"), None);
    assert_eq!(resolve("entry.vote"), Ok(Operation::EntryVote));
    assert_eq!(resolve("entry.fly"), Err(ApiError::UnknownOperation));
    assert_eq!(resolve("ghost.getAll"), Err(ApiError::UnknownMethod));
    assert_eq!(resolve("getAll"), Err(ApiError::UnknownMethod));
}

#[test]
fn envelope_echoes_id_and_method_on_success() {
    let mut s = Store::new();
    let p = Params::EntryGetAll(GetAllReq { offset: 0, limit: 10, user_id: None, filter: None });
    let r = call(&mut s, "req-1", "entry.getAll", Some(p));
    assert_eq!(r.id, "req-1");
    assert_eq!(r.method, "entry.getAll");
    assert!(r.error.is_none());
    match r.result {
        Some(Reply::EntryList(l)) => assert_eq!(l.total_count, 0),
        _ => panic!("expected a listing"),
    }
}

#[test]
fn envelope_holds_one_error_for_unknown_namespace() {
    let mut s = Store::new();
    let r = call(&mut s, "7", "ghost.getAll", Some(Params::TopicGetAll));
    assert_eq!(r.id, "7");
    assert_eq!(r.method, "ghost.getAll");
    assert!(r.result.is_none());
    assert_eq!(r.error.unwrap().code, ApiError::UnknownMethod.code());
}

#[test]
fn unknown_operation_and_mismatched_params_are_errors() {
    let mut s = Store::new();
    let r = call(&mut s, "8", "topic.fly", Some(Params::TopicGetAll));
    assert!(r.result.is_none());
    assert_eq!(r.error.unwrap().code, 4);
    let r = call(&mut s, "9", "topic.getAll", Some(Params::TopicGetOne(1)));
    assert!(r.result.is_none());
    assert_eq!(r.error.unwrap().code, 2);
    let r = call(&mut s, "10", "topic.getAll", None);
    assert_eq!(r.error.unwrap().code, ApiError::BadParams.code());
}

#[test]
fn domain_error_reaches_envelope() {
    let mut s = Store::new();
    let p = Params::UserAuth(AuthReq { id: 1, password: "x".to_string() });
    let r = call(&mut s, "11", "user.auth", Some(p));
    assert!(r.result.is_none());
    let e = r.error.unwrap();
    assert_eq!(e.code, 1);
    assert_eq!(e.message, "wrong user or password");
}

#[test]
fn write_without_payload_answers_done() {
    let mut s = Store::new();
    let r = call(&mut s, "12", "topic.delete", Some(Params::TopicDelete(vec![1])));
    assert!(r.error.is_none());
    assert!(matches!(r.result, Some(Reply::Done)));
}

#[test]
fn only_post_to_api_is_accepted() {
    assert!(ocean::router::accepts("POST", "/api"));
    assert!(!ocean::router::accepts("GET", "/api"));
    assert!(!ocean::router::accepts("POST", "/other"));
}

#[test]
fn clock_failure_code_is_distinct() {
    assert_eq!(ApiError::ClockUnavailable.code(), 10);
    assert_eq!(ApiError::ClockUnavailable.message(), "clock unavailable");
}

#[test]
fn exec_reads_the_clock_and_answers() {
    let mut s = Store::new();
    let r = ocean::router::exec(&mut s, Request { id: "c".to_string(), method: "topic.getAll".to_string(), params: Some(Params::TopicGetAll) });
    assert_eq!(r.id, "c");
    assert!(r.error.is_none());
    assert!(matches!(r.result, Some(Reply::Topics(_))));
}
