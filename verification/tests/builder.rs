use lenz_core::window::compute_center;
use lenz_core::extension::Extension;
use lenz_core::extension_host::ExtensionHost;
use lenz_core::registry::Registry;
use lenz_core::window::AppWindowBuilder;

#[test]
fn builder_accumulates_the_configuration() {
    let b = AppWindowBuilder::new()
        .with_title("Shell")
        .with_url("lenz://app/index.html")
        .with_label("main")
        .with_visible(false)
        .with_transparent(true)
        .with_decorations(false)
        .with_closable(false)
        .with_size(400, 300)
        .at_center()
        .with_devtools()
        .with_parent(9);
    assert_eq!(b.title, "Shell");
    assert_eq!(b.url.as_deref(), Some("lenz://app/index.html"));
    assert_eq!(b.labels, vec![String::from("main")]);
    assert!(!b.visible);
    assert!(b.transparent);
    assert!(!b.decorations);
    assert!(!b.closable);
    assert_eq!(b.size, Some((400, 300)));
    assert!(b.at_center);
    assert!(b.devtools);
    assert_eq!(b.parent, Some(9));
}

#[test]
fn with_html_wraps_the_markup_in_a_data_address() {
    let b = AppWindowBuilder::new().with_html("<p>hi</p>");
    assert_eq!(b.url.as_deref(), Some("data:text/html,<p>hi</p>"));
}

#[test]
fn build_window_attaches_the_two_built_in_protocols() {
    let reg = Registry::new();
    let b = reg.build_window();
    assert_eq!(b.protocols, vec![String::from("lenz"), String::from("ipc")]);
}

#[test]
fn build_registers_the_window_and_reports_the_startup_data() {
    let mut reg = Registry::new();
    reg.add_es_module("a", "lenz://esm/a.mjs");
    let mut host = ExtensionHost::new();
    Extension::from_dir(
        "/ext/panel",
        b"{\"id\": \"panel\", \"main\": \"panel.js\", \"activate_on\": [\"main\"]}",
    )
    .expect("a valid manifest")
    .activate(&mut reg, &mut host);
    Extension::from_dir("/ext/quiet", b"{\"id\": \"quiet\", \"activate_on\": [\"splash\"]}")
        .expect("a valid manifest")
        .activate(&mut reg, &mut host);

    let artifacts = reg
        .build_window()
        .main()
        .with_title("Shell")
        .with_url("lenz://app/index.html")
        .with_js_module("a", "lenz://esm/a2.mjs")
        .with_js_module("b", "lenz://esm/b.mjs")
        .build(5, &mut reg, &host);

    assert_eq!(artifacts.window_id, 5);
    assert_eq!(artifacts.navigate_url.as_deref(), Some("lenz://app/index.html"));
    assert!(!artifacts.center);
    assert!(reg.has_window(5));
    let record = reg.lookup_window(5).expect("the window is registered");
    assert_eq!(record.title, "Shell");
    assert_eq!(record.labels, vec![String::from("main")]);

    // The overlay wins per key in the merged import map.
    let parsed: serde_json::Value =
        serde_json::from_str(&artifacts.import_map_json).expect("valid JSON");
    let map = parsed.as_object().expect("an object");
    assert_eq!(map.len(), 2);
    assert_eq!(map.get("a").and_then(|v| v.as_str()), Some("lenz://esm/a2.mjs"));
    assert_eq!(map.get("b").and_then(|v| v.as_str()), Some("lenz://esm/b.mjs"));

    // Only the extension activating on `main` is auto-loaded.
    assert_eq!(artifacts.extensions.len(), 1);
    let startup = &artifacts.extensions[0];
    assert_eq!(startup.id, "panel");
    assert_eq!(startup.dir, "/ext/panel");
    assert_eq!(startup.public_url, "lenz://panel");
    assert_eq!(startup.main_script_url.as_deref(), Some("lenz://panel/panel.js"));
}

#[test]
fn main_marks_and_labels_the_window() {
    let mut reg = Registry::new();
    let host = ExtensionHost::new();
    reg.build_window().main().build(3, &mut reg, &host);
    // Closing the main window empties the registry.
    reg.build_window().build(4, &mut reg, &host);
    reg.unregister_window(3);
    assert!(!reg.has_window(3));
    assert!(!reg.has_window(4));
}

#[test]
fn centering_splits_the_leftover_space() {
    assert_eq!(compute_center(1920, 1080, 400, 400), (760, 340));
    assert_eq!(compute_center(800, 600, 800, 600), (0, 0));
}
