use lenz_core::assoc::AssocMap;
use lenz_core::invoke::{
    encode_result, route, InvokeCommand, InvokeRequest, InvokeResult, InvokeResultData,
    ResultKind, RouteOutcome,
};
use lenz_core::json::JsonValue;
use lenz_core::plugins::{
    self, fs_read_complete, fs_read_request, fs_write_request, window_close, window_emit_all,
    window_get_all, window_get_title, window_set_title, window_set_visible, HandlerKind,
    NativeAction,
};
use lenz_core::registry::Registry;
use lenz_core::window::WindowData;

fn window(id: u32, title: &str) -> WindowData {
    WindowData {
        id,
        labels: Vec::new(),
        title: String::from(title),
        visible: true,
        import_map: AssocMap::new(),
    }
}

fn command(method: &str, args: Vec<JsonValue>, window_id: u32) -> InvokeCommand {
    InvokeCommand { method: String::from(method), args, window_id }
}

#[test]
fn set_title_scenario_end_to_end() {
    // Request `invoke://window.set_title`, window-id header 7, body
    // ["title", "Hello"]; the registered handler renames window 7.
    let mut reg = Registry::new();
    reg.register_window(window(7, "Old"), false);
    plugins::apply(&mut reg);
    reg.add_invoke_handler("window.set_title", HandlerKind::External(42));
    let req = InvokeRequest {
        host: String::from("invoke"),
        path: String::from("/window.set_title"),
        window_id: 7,
        body: b"[\"title\", \"Hello\"]".to_vec(),
    };
    let response = match route(reg.invoke_handlers(), req) {
        RouteOutcome::Dispatch(HandlerKind::External(42), cmd) => {
            assert_eq!(cmd.window_id, 7);
            assert_eq!(
                cmd.args,
                vec![
                    JsonValue::Str(String::from("title")),
                    JsonValue::Str(String::from("Hello")),
                ]
            );
            reg.set_window_title(cmd.window_id, String::from("Hello"));
            encode_result(InvokeResult::json(JsonValue::Null))
        }
        _ => panic!("the handler is registered"),
    };
    assert_eq!(response.status, 200);
    assert_eq!(response.result_header.as_str(), "Ok");
    assert_eq!(response.body, b"null".to_vec());
    let eff = window_get_title(command("window.get_title", vec![JsonValue::Int(7)], 7), &reg);
    assert_eq!(
        eff.result,
        InvokeResult::Success(InvokeResultData::Json(JsonValue::Str(String::from("Hello"))))
    );
}

#[test]
fn builtin_set_title_updates_registry_and_surface() {
    let mut reg = Registry::new();
    reg.register_window(window(7, "Old"), false);
    let eff = window_set_title(
        command(
            "window.set_title",
            vec![JsonValue::Int(7), JsonValue::Str(String::from("Fresh"))],
            1,
        ),
        &mut reg,
    );
    assert!(eff.result.is_ok());
    assert_eq!(reg.lookup_window(7).expect("window 7 exists").title, "Fresh");
    assert_eq!(
        eff.actions,
        vec![NativeAction::SetTitle { window_id: 7, title: String::from("Fresh") }]
    );
}

#[test]
fn set_title_argument_errors_are_exact() {
    let mut reg = Registry::new();
    let eff = window_set_title(command("window.set_title", vec![], 1), &mut reg);
    assert_eq!(eff.result, InvokeResult::Failure(String::from("Window ID not provided")));
    let eff = window_set_title(
        command("window.set_title", vec![JsonValue::Str(String::from("7"))], 1),
        &mut reg,
    );
    assert_eq!(eff.result, InvokeResult::Failure(String::from("Window ID must be a number")));
    let eff = window_set_title(
        command("window.set_title", vec![JsonValue::Int(7)], 1),
        &mut reg,
    );
    assert_eq!(eff.result, InvokeResult::Failure(String::from("Title not provided")));
    let eff = window_set_title(
        command("window.set_title", vec![JsonValue::Int(7), JsonValue::Int(1)], 1),
        &mut reg,
    );
    assert_eq!(eff.result, InvokeResult::Failure(String::from("Title must be a string")));
}

#[test]
fn get_title_for_a_missing_window_is_an_error() {
    let reg = Registry::new();
    let eff = window_get_title(command("window.get_title", vec![JsonValue::Int(5)], 1), &reg);
    assert_eq!(eff.result, InvokeResult::Failure(String::from("Window not found")));
}

#[test]
fn set_visible_builtin_flips_the_flag() {
    let mut reg = Registry::new();
    reg.register_window(window(4, "W"), false);
    let eff = window_set_visible(
        command(
            "window.set_visible",
            vec![JsonValue::Int(4), JsonValue::Bool(false)],
            1,
        ),
        &mut reg,
    );
    assert!(eff.result.is_ok());
    assert!(!reg.lookup_window(4).expect("window 4 exists").visible);
    assert_eq!(
        eff.actions,
        vec![NativeAction::SetVisible { window_id: 4, visible: false }]
    );
}

#[test]
fn close_builtin_cascades_for_the_main_window() {
    let mut reg = Registry::new();
    reg.register_window(window(1, "Main"), true);
    reg.register_window(window(2, "Other"), false);
    let eff = window_close(command("window.close", vec![JsonValue::Int(1)], 1), &mut reg);
    assert!(eff.result.is_ok());
    assert!(!reg.has_window(1));
    assert!(!reg.has_window(2));
    assert_eq!(eff.actions, vec![NativeAction::CloseSurface { window_id: 1 }]);
}

#[test]
fn get_all_lists_every_window_id() {
    let mut reg = Registry::new();
    reg.register_window(window(3, "A"), false);
    reg.register_window(window(8, "B"), false);
    let eff = window_get_all(command("window.get_all", vec![], 1), &reg);
    match eff.result {
        InvokeResult::Success(InvokeResultData::Json(JsonValue::Arr(items))) => {
            let mut ids: Vec<i64> = items
                .iter()
                .map(|v| match v {
                    JsonValue::Int(i) => *i,
                    _ => panic!("ids are integers"),
                })
                .collect();
            ids.sort();
            assert_eq!(ids, vec![3, 8]);
        }
        _ => panic!("get_all returns a JSON array"),
    }
}

#[test]
fn emit_all_captures_the_snapshot() {
    let mut reg = Registry::new();
    reg.register_window(window(1, "A"), false);
    let eff = window_emit_all(
        command(
            "window.emit_all",
            vec![JsonValue::Str(String::from("tick")), JsonValue::Int(9)],
            1,
        ),
        &reg,
    );
    assert!(eff.result.is_ok());
    assert_eq!(eff.events.len(), 1);
    match &eff.events[0] {
        lenz_core::window::AppWindowEvent::Event { name, payload, target } => {
            assert_eq!(name, "tick");
            assert_eq!(*payload, JsonValue::Int(9));
            assert_eq!(*target, vec![1]);
        }
        _ => panic!("emit_all sends an application event"),
    }
}

#[test]
fn fs_read_request_trims_and_validates() {
    assert_eq!(
        fs_read_request(&vec![JsonValue::Str(String::from("  /tmp/a.txt \n"))]),
        Ok(String::from("/tmp/a.txt"))
    );
    assert_eq!(
        fs_read_request(&vec![]),
        Err(InvokeResult::Failure(String::from("Path is required")))
    );
    assert_eq!(
        fs_read_request(&vec![JsonValue::Int(1)]),
        Err(InvokeResult::Failure(String::from("Path must be a string")))
    );
    assert_eq!(
        fs_read_request(&vec![JsonValue::Str(String::from("   "))]),
        Err(InvokeResult::Failure(String::from("Path cannot be empty")))
    );
}

#[test]
fn fs_read_complete_maps_both_outcomes() {
    assert_eq!(
        fs_read_complete(Some(vec![1, 2])),
        InvokeResult::Success(InvokeResultData::Binary(vec![1, 2]))
    );
    assert_eq!(
        fs_read_complete(None),
        InvokeResult::Failure(String::from("File not found!"))
    );
}

#[test]
fn fs_write_request_validates_both_arguments() {
    assert_eq!(
        fs_write_request(&vec![
            JsonValue::Str(String::from("f.txt")),
            JsonValue::Str(String::from("body")),
        ]),
        Ok((String::from("f.txt"), String::from("body")))
    );
    assert_eq!(
        fs_write_request(&vec![]),
        Err(InvokeResult::Failure(String::from("Invalid filename")))
    );
    assert_eq!(
        fs_write_request(&vec![JsonValue::Str(String::from("f.txt"))]),
        Err(InvokeResult::Failure(String::from("Invalid content")))
    );
}
