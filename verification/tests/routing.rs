use lenz_core::assoc::AssocMap;
use lenz_core::invoke::{route, InvokeRequest, ResultKind, RouteOutcome};
use lenz_core::json::JsonValue;

fn request(host: &str, path: &str, window_id: u32, body: &[u8]) -> InvokeRequest {
    InvokeRequest {
        host: String::from(host),
        path: String::from(path),
        window_id,
        body: body.to_vec(),
    }
}

fn no_handlers() -> AssocMap<String, u64> {
    AssocMap::new()
}

#[test]
fn wrong_target_is_a_400() {
    let handlers = no_handlers();
    match route(&handlers, request("files", "/x", 1, b"[]")) {
        RouteOutcome::Respond(w) => {
            assert_eq!(w.status, 400);
            assert_eq!(w.body, b"Invalid host".to_vec());
        }
        RouteOutcome::Dispatch(_, _) => panic!("a wrong target must not dispatch"),
    }
}

#[test]
fn malformed_body_is_a_400() {
    let handlers = no_handlers();
    match route(&handlers, request("invoke", "/m", 1, b"[1, ")) {
        RouteOutcome::Respond(w) => {
            assert_eq!(w.status, 400);
            assert_eq!(w.result_header, ResultKind::ErrMark);
            assert_eq!(w.content_type, "application/json");
            let text = String::from_utf8(w.body).expect("the body is text");
            let msg: serde_json::Value =
                serde_json::from_str(&text).expect("the body is a JSON string");
            assert!(msg.as_str().is_some());
        }
        RouteOutcome::Dispatch(_, _) => panic!("a malformed body must not dispatch"),
    }
}

#[test]
fn non_array_body_is_a_400() {
    let handlers = no_handlers();
    match route(&handlers, request("invoke", "/m", 1, b"{}")) {
        RouteOutcome::Respond(w) => {
            assert_eq!(w.status, 400);
            assert_eq!(
                w.body,
                b"\"Request body must be a JSON array\"".to_vec()
            );
        }
        RouteOutcome::Dispatch(_, _) => panic!("a non-array body must not dispatch"),
    }
}

#[test]
fn unregistered_method_yields_err_naming_it() {
    let handlers = no_handlers();
    match route(&handlers, request("invoke", "/window.missing", 1, b"[]")) {
        RouteOutcome::Respond(w) => {
            assert_eq!(w.status, 200);
            assert_eq!(w.result_header, ResultKind::ErrMark);
            let text = String::from_utf8(w.body).expect("the body is text");
            let msg: serde_json::Value =
                serde_json::from_str(&text).expect("the body is a JSON string");
            let message = msg.as_str().expect("the payload is the message");
            assert_eq!(message, "No handler found for method: window.missing");
            assert!(message.contains("window.missing"));
        }
        RouteOutcome::Dispatch(_, _) => panic!("an unregistered method must not dispatch"),
    }
}

#[test]
fn registered_method_dispatches_the_command() {
    let mut handlers: AssocMap<String, u64> = AssocMap::new();
    handlers.insert(String::from("fs.read"), 9);
    match route(&handlers, request("invoke", "/fs.read", 7, b"[\"/tmp/x\", 2]")) {
        RouteOutcome::Dispatch(h, cmd) => {
            assert_eq!(h, 9);
            assert_eq!(cmd.method, "fs.read");
            assert_eq!(cmd.window_id, 7);
            assert_eq!(
                cmd.args,
                vec![JsonValue::Str(String::from("/tmp/x")), JsonValue::Int(2)]
            );
        }
        RouteOutcome::Respond(_) => panic!("a registered method must dispatch"),
    }
}
