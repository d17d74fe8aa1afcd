use lenz_core::registry::Registry;
use lenz_core::resources::{
    build_static_response, custom_protocol, guess_mime, joined_path, resolve_static,
    FileOutcome, StaticRoute,
};

fn app_registry() -> Registry {
    let mut reg = Registry::new();
    reg.add_mount(String::from("app"), String::from("/srv/app"));
    reg.add_es_module("react", "lenz://esm/react.mjs");
    reg
}

#[test]
fn custom_protocol_joins_scheme_and_path() {
    assert_eq!(custom_protocol("lenz", "app/splash.html"), "lenz://app/splash.html");
}

#[test]
fn unknown_mount_is_rejected() {
    let reg = app_registry();
    assert!(matches!(resolve_static(&reg, "other", "/x"), StaticRoute::UnknownHost));
}

#[test]
fn empty_mount_name_is_rejected() {
    let reg = app_registry();
    assert!(matches!(resolve_static(&reg, "", "/x"), StaticRoute::MissingHost));
}

#[test]
fn known_mount_resolves_under_its_directory() {
    let reg = app_registry();
    match resolve_static(&reg, "app", "/pages/x.html") {
        StaticRoute::File { root, rel_path } => {
            assert_eq!(root, "/srv/app");
            assert_eq!(rel_path, "pages/x.html");
            assert_eq!(joined_path(&root, &rel_path), "/srv/app/pages/x.html");
        }
        _ => panic!("the app mount resolves"),
    }
}

#[test]
fn localhost_form_takes_the_mount_from_the_path() {
    let reg = app_registry();
    match resolve_static(&reg, "localhost", "/app/index.html") {
        StaticRoute::File { root, rel_path } => {
            assert_eq!(root, "/srv/app");
            assert_eq!(rel_path, "index.html");
        }
        _ => panic!("the localhost form resolves"),
    }
}

#[test]
fn missing_file_is_404_and_failed_read_is_500() {
    let reg = app_registry();
    let r = build_static_response(&reg, "/srv/app/gone.txt", FileOutcome::NotFound);
    assert_eq!(r.status, 404);
    assert_eq!(r.body, b"File not found".to_vec());
    let r = build_static_response(
        &reg,
        "/srv/app/locked.txt",
        FileOutcome::ReadFailed(String::from("permission denied")),
    );
    assert_eq!(r.status, 500);
    assert_eq!(r.body, b"permission denied".to_vec());
}

#[test]
fn non_html_content_is_served_unchanged() {
    let reg = app_registry();
    let content = vec![1u8, 2, 3, 4];
    let r = build_static_response(&reg, "/srv/app/data.bin", FileOutcome::Read(content.clone()));
    assert_eq!(r.status, 200);
    assert_eq!(r.content_type, "application/octet-stream");
    assert_eq!(r.body, content);
}

#[test]
fn mime_comes_from_the_path() {
    assert_eq!(guess_mime("/srv/app/index.html"), "text/html");
    assert_eq!(guess_mime("/srv/app/logo.png"), "image/png");
    assert_eq!(guess_mime("/srv/app/unknown.zzz"), "application/octet-stream");
}

#[test]
fn html_gets_the_import_map_injected() {
    // A request for mount `app`, path `/`, resolves to the mount's directory;
    // the served index.html carries an importmap block whose JSON is the
    // merged import map.
    let reg = app_registry();
    match resolve_static(&reg, "app", "/") {
        StaticRoute::File { root, rel_path } => {
            assert_eq!(root, "/srv/app");
            assert_eq!(rel_path, "");
        }
        _ => panic!("the app mount resolves"),
    }
    let full_path = "/srv/app/index.html";
    let html = b"<html><head><title>T</title></head><body></body></html>".to_vec();
    let r = build_static_response(&reg, full_path, FileOutcome::Read(html));
    assert_eq!(r.status, 200);
    assert_eq!(r.content_type, "text/html");
    let body = String::from_utf8(r.body).expect("HTML stays text");
    assert!(body.contains("<script type=\"importmap\">"));
    assert!(body.contains("CUSTOM_PROTOCOL"));
    assert!(body.ends_with("</head><body></body></html>"));
    let start = body.find("\"imports\": ").expect("the block names imports") + "\"imports\": ".len();
    let end = body[start..].find("\n}\n</script>").expect("the block closes") + start;
    let parsed: serde_json::Value =
        serde_json::from_str(&body[start..end]).expect("the injected map is JSON");
    let map = parsed.as_object().expect("an object");
    assert_eq!(map.len(), 1);
    assert_eq!(
        map.get("react").and_then(|v| v.as_str()),
        Some("lenz://esm/react.mjs")
    );
}

#[test]
fn html_without_a_head_is_served_unchanged() {
    let reg = app_registry();
    let html = b"<p>no head here</p>".to_vec();
    let r = build_static_response(&reg, "/srv/app/frag.html", FileOutcome::Read(html.clone()));
    assert_eq!(r.body, html);
}
