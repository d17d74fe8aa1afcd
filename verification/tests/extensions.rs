use lenz_core::extension::{Extension, ExtensionError};
use lenz_core::extension_host::ExtensionHost;
use lenz_core::extension_scanner::{EntryScan, ExtensionsScanner, RootScan};
use lenz_core::registry::Registry;
use lenz_core::state::AppState;

fn manifest(id: &str, main: &str, activate_on: &[&str]) -> Vec<u8> {
    let labels: Vec<String> = activate_on.iter().map(|l| format!("\"{}\"", l)).collect();
    format!(
        "{{\"id\": \"{}\", \"name\": \"Name of {}\", \"main\": \"{}\", \"activate_on\": [{}]}}",
        id,
        id,
        main,
        labels.join(", ")
    )
    .into_bytes()
}

fn extension(id: &str, dir: &str, main: &str, activate_on: &[&str]) -> Extension {
    Extension::from_dir(dir, &manifest(id, main, activate_on)).expect("a valid manifest")
}

#[test]
fn from_dir_reads_the_manifest() {
    let ext = extension("ext1", "/ext/ext1", "index.js", &["main"]);
    assert_eq!(ext.id(), "ext1");
    assert_eq!(ext.dir(), "/ext/ext1");
    assert_eq!(ext.public_url(), "lenz://ext1");
    assert!(ext.has_main_script());
    assert_eq!(ext.main_script_url(), Some(String::from("lenz://ext1/index.js")));
    assert_eq!(ext.manifest().name, "Name of ext1");
    assert_eq!(ext.manifest().activate_on, vec![String::from("main")]);
}

#[test]
fn main_script_url_strips_leading_slashes() {
    let ext = extension("ext1", "/ext/ext1", "/idx.js", &[]);
    assert_eq!(ext.main_script_url(), Some(String::from("lenz://ext1/idx.js")));
}

#[test]
fn an_absent_main_means_no_script() {
    let ext = Extension::from_dir("/ext/e", b"{\"id\": \"e\"}").expect("id suffices");
    assert!(!ext.has_main_script());
    assert_eq!(ext.main_script_url(), None);
    assert_eq!(ext.manifest().name, "");
    assert!(ext.manifest().activate_on.is_empty());
}

#[test]
fn a_manifest_without_an_id_is_invalid() {
    match Extension::from_dir("/ext/e", b"{\"name\": \"x\"}") {
        Err(ExtensionError::ManifestInvalid(m)) => {
            assert_eq!(m, "manifest id must be a string")
        }
        _ => panic!("a manifest needs an id"),
    }
}

#[test]
fn an_unparsable_manifest_reports_the_parser() {
    match Extension::from_dir("/ext/e", b"{oops") {
        Err(err) => {
            assert!(matches!(err, ExtensionError::ManifestParse(_)));
            assert!(!err.message().is_empty());
        }
        Ok(_) => panic!("broken JSON does not parse"),
    }
}

#[test]
fn activating_twice_changes_nothing() {
    let mut reg = Registry::new();
    let mut host = ExtensionHost::new();
    extension("ext1", "/ext/first", "", &[]).activate(&mut reg, &mut host);
    assert!(host.has_extension("ext1"));
    assert_eq!(reg.lookup_mount("ext1"), Some(&String::from("/ext/first")));
    // A second activation of the same id — even from another directory — is
    // an observable no-op: the mount still names the first directory.
    extension("ext1", "/ext/second", "", &[]).activate(&mut reg, &mut host);
    assert!(host.has_extension("ext1"));
    assert_eq!(reg.lookup_mount("ext1"), Some(&String::from("/ext/first")));
    assert_eq!(host.get_extension("ext1").expect("still active").dir(), "/ext/first");
}

#[test]
fn deactivating_a_never_activated_id_is_a_noop() {
    let mut reg = Registry::new();
    reg.add_mount(String::from("app"), String::from("/srv/app"));
    let mut host = ExtensionHost::new();
    extension("ghost", "/ext/ghost", "", &[]).deactivate(&mut reg, &mut host);
    assert!(!host.has_extension("ghost"));
    assert_eq!(reg.lookup_mount("app"), Some(&String::from("/srv/app")));
}

#[test]
fn deactivation_reverses_activation() {
    let mut reg = Registry::new();
    let mut host = ExtensionHost::new();
    extension("ext1", "/ext/ext1", "", &[]).activate(&mut reg, &mut host);
    extension("ext1", "/ext/ext1", "", &[]).deactivate(&mut reg, &mut host);
    assert!(!host.has_extension("ext1"));
    assert_eq!(reg.lookup_mount("ext1"), None);
}

#[test]
fn extensions_for_window_labels_intersects() {
    let mut reg = Registry::new();
    let mut host = ExtensionHost::new();
    extension("a", "/ext/a", "", &["main"]).activate(&mut reg, &mut host);
    extension("b", "/ext/b", "", &["splash", "tool"]).activate(&mut reg, &mut host);
    extension("c", "/ext/c", "", &[]).activate(&mut reg, &mut host);
    let labels = vec![String::from("main"), String::from("tool")];
    let matching = host.extensions_for_window_labels(&labels);
    let mut ids: Vec<String> = matching.iter().map(|e| e.id()).collect();
    ids.sort();
    assert_eq!(ids, vec![String::from("a"), String::from("b")]);
}

fn root(path: &str, is_dir: bool, entries: Vec<EntryScan>) -> RootScan {
    RootScan { path: String::from(path), is_dir, entries }
}

fn entry(path: &str, bytes: Option<Vec<u8>>) -> EntryScan {
    EntryScan { path: String::from(path), manifest_bytes: bytes }
}

#[test]
fn discovery_preserves_path_list_order() {
    // Both roots hold a subdirectory named `ext`; the earlier root's copy is
    // yielded first.
    let roots = vec![
        root(
            "/builtin",
            true,
            vec![
                entry("/builtin/ext", Some(manifest("builtin-ext", "", &[]))),
                entry("/builtin/broken", Some(b"not json".to_vec())),
            ],
        ),
        root("/missing", false, vec![]),
        root(
            "/user",
            true,
            vec![
                entry("/user/ext", Some(manifest("user-ext", "", &[]))),
                entry("/user/unreadable", None),
                entry("/user/other", Some(manifest("other", "", &[]))),
            ],
        ),
    ];
    let mut scanner = ExtensionsScanner::new(roots);
    let found = scanner.collect_all();
    let dirs: Vec<&str> = found.iter().map(|e| e.dir().as_str()).collect();
    assert_eq!(dirs, vec!["/builtin/ext", "/user/ext", "/user/other"]);
    let ids: Vec<String> = found.iter().map(|e| e.id()).collect();
    assert_eq!(
        ids,
        vec![
            String::from("builtin-ext"),
            String::from("user-ext"),
            String::from("other"),
        ]
    );
}

#[test]
fn next_walks_one_extension_at_a_time() {
    let state = AppState::new();
    let roots = vec![root(
        "/r",
        true,
        vec![
            entry("/r/bad", None),
            entry("/r/good", Some(manifest("good", "", &[]))),
        ],
    )];
    let mut scanner = state.extension_host.search_extensions(roots);
    let first = scanner.next().expect("one good extension");
    assert_eq!(first.id(), "good");
    assert!(scanner.next().is_none());
}
