use lenz_core::assoc::AssocMap;
use lenz_core::invoke::{route, InvokeRequest, RouteOutcome};
use lenz_core::plugins::HandlerKind;
use lenz_core::json::JsonValue;
use lenz_core::registry::{ControlFlowDecision, Registry};
use lenz_core::window::{AppWindowEvent, WindowData};

fn window(id: u32, labels: &[&str], title: &str) -> WindowData {
    WindowData {
        id,
        labels: labels.iter().map(|l| String::from(*l)).collect(),
        title: String::from(title),
        visible: true,
        import_map: AssocMap::new(),
    }
}

fn three_window_registry() -> Registry {
    let mut reg = Registry::new();
    reg.register_window(window(1, &["main"], "Main"), true);
    reg.register_window(window(2, &["splash"], "Splash"), false);
    reg.register_window(window(3, &["tool", "splash"], "Tool"), false);
    reg
}

#[test]
fn closing_a_secondary_window_removes_exactly_it() {
    let mut reg = three_window_registry();
    reg.unregister_window(2);
    assert!(reg.has_window(1));
    assert!(!reg.has_window(2));
    assert!(reg.has_window(3));
}

#[test]
fn closing_the_main_window_empties_the_registry() {
    let mut reg = three_window_registry();
    reg.unregister_window(1);
    assert!(!reg.has_window(1));
    assert!(!reg.has_window(2));
    assert!(!reg.has_window(3));
}

#[test]
fn close_event_for_main_ends_the_process() {
    let mut reg = three_window_registry();
    let (decision, eval) = reg.handle_event(AppWindowEvent::Close { window_id: 1 });
    assert_eq!(decision, ControlFlowDecision::Exit);
    assert!(eval.is_none());
}

#[test]
fn close_event_for_secondary_keeps_waiting() {
    let mut reg = three_window_registry();
    let (decision, eval) = reg.handle_event(AppWindowEvent::Close { window_id: 3 });
    assert_eq!(decision, ControlFlowDecision::Wait);
    assert!(eval.is_none());
    assert!(reg.has_window(1));
    assert!(reg.has_window(2));
}

#[test]
fn lookup_by_label_finds_all_carriers() {
    let reg = three_window_registry();
    let mut splash = reg.lookup_windows_by_label("splash");
    splash.sort();
    assert_eq!(splash, vec![2, 3]);
    assert_eq!(reg.lookup_windows_by_label("none"), Vec::<u32>::new());
}

#[test]
fn set_title_touches_only_the_named_window() {
    let mut reg = three_window_registry();
    assert!(reg.set_window_title(2, String::from("New")));
    assert_eq!(reg.lookup_window(2).expect("window 2 exists").title, "New");
    assert_eq!(reg.lookup_window(1).expect("window 1 exists").title, "Main");
    assert!(!reg.set_window_title(9, String::from("Ghost")));
}

#[test]
fn broadcast_targets_are_the_snapshot() {
    let mut reg = three_window_registry();
    let event = reg.broadcast("app.ping", JsonValue::Null);
    // A window that joins after the snapshot was taken receives nothing,
    // even though delivery happens later.
    reg.register_window(window(4, &[], "Late"), false);
    match reg.handle_event(event) {
        (ControlFlowDecision::Wait, Some(eval)) => {
            assert_eq!(eval.name, "app.ping");
            assert_eq!(eval.payload, JsonValue::Null);
            let mut got = eval.recipients;
            got.sort();
            assert_eq!(got, vec![1, 2, 3]);
        }
        _ => panic!("an application event becomes one dispatch"),
    }
}

#[test]
fn delivery_skips_windows_closed_meanwhile() {
    let mut reg = three_window_registry();
    let event = reg.broadcast("app.ping", JsonValue::Bool(true));
    reg.unregister_window(3);
    match reg.handle_event(event) {
        (_, Some(eval)) => {
            let mut got = eval.recipients;
            got.sort();
            assert_eq!(got, vec![1, 2]);
        }
        _ => panic!("an application event becomes one dispatch"),
    }
}

#[test]
fn emit_to_targets_one_window() {
    let reg = three_window_registry();
    match reg.emit_to(2, "nudge", JsonValue::Int(1)) {
        AppWindowEvent::Event { name, payload, target } => {
            assert_eq!(name, "nudge");
            assert_eq!(payload, JsonValue::Int(1));
            assert_eq!(target, vec![2]);
        }
        _ => panic!("emit_to builds an application event"),
    }
}

#[test]
fn import_map_merging_is_insert_or_overwrite() {
    let mut reg = Registry::new();
    reg.add_es_module("a", "lenz://esm/a.mjs");
    reg.merge_import_map(vec![
        (String::from("a"), String::from("lenz://esm/a2.mjs")),
        (String::from("b"), String::from("lenz://esm/b.mjs")),
    ]);
    let json = lenz_core::json::to_json_bytes(&reg.import_map_json());
    let text = String::from_utf8(json).expect("the import map is text");
    let parsed: serde_json::Value = serde_json::from_str(&text).expect("valid JSON");
    let map = parsed.as_object().expect("an object");
    assert_eq!(map.len(), 2);
    assert_eq!(map.get("a").and_then(|v| v.as_str()), Some("lenz://esm/a2.mjs"));
    assert_eq!(map.get("b").and_then(|v| v.as_str()), Some("lenz://esm/b.mjs"));
}

#[test]
fn handler_table_is_last_writer_wins() {
    let mut reg = Registry::new();
    reg.add_invoke_handler("echo", HandlerKind::External(1));
    reg.add_invoke_handler("echo", HandlerKind::External(2));
    let req = InvokeRequest {
        host: String::from("invoke"),
        path: String::from("/echo"),
        window_id: 1,
        body: b"[]".to_vec(),
    };
    match route(reg.invoke_handlers(), req) {
        RouteOutcome::Dispatch(HandlerKind::External(n), _) => assert_eq!(n, 2),
        _ => panic!("echo is registered"),
    }
    reg.remove_invoke_handler("echo");
    let req = InvokeRequest {
        host: String::from("invoke"),
        path: String::from("/echo"),
        window_id: 1,
        body: b"[]".to_vec(),
    };
    match route(reg.invoke_handlers(), req) {
        RouteOutcome::Respond(w) => assert_eq!(w.status, 200),
        _ => panic!("a removed handler no longer dispatches"),
    }
}
