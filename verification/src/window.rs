//! The window model: the record the registry keeps per window, and the events
//! that cross the event loop. The identity of a window is an opaque numeric
//! id derived once from its native surface handle; the native surface itself
//! stays outside the library and is driven through the actions and events
//! modeled here.

use vstd::prelude::*;

use crate::assoc::{map_of, AssocMap};
use crate::extension::Extension;
use crate::extension_host::{spec_activates_on, ExtensionHost};
use crate::json::{parsed_json, to_json_string, JsonValue};
use crate::registry::{
    json_matches_imports, json_of_string_map, lemma_merged_from_empty, merged_imports, Registry,
};
use crate::text::{str_concat, strip_slashes};
use vstd::utf8::encode_utf8;

verus! {

/// An event delivered to the single event-loop dispatcher: a named
/// application event for a fixed set of target windows, a close request for
/// one window, the first-navigation-finished signal, or anything else, which
/// the dispatcher ignores.
pub enum AppWindowEvent {
    Event { name: String, payload: JsonValue, target: Vec<u32> },
    Close { window_id: u32 },
    Unknown,
    Ready,
}

/// What the registry knows of one live window: its id, its labels, the title
/// and visibility mirrored from the native surface, and its import-map
/// overlay.
pub struct WindowData {
    pub id: u32,
    pub labels: Vec<String>,
    pub title: String,
    pub visible: bool,
    pub import_map: AssocMap<String, String>,
}

impl WindowData {
    /// The labels as character sequences.
    pub open spec fn labels_view(self) -> Seq<Seq<char>> {
        self.labels@.map_values(|s: String| s@)
    }

    /// Whether one of the labels spells `label`.
    pub open spec fn spec_has_label(self, label: Seq<char>) -> bool {
        exists|i: int| 0 <= i < self.labels@.len() && (#[trigger] self.labels@[i])@ == label
    }

    /// Whether this window carries the given label.
    pub fn has_label(&self, label: &str) -> (r: bool)
        ensures
            r == self.spec_has_label(label@),
    {
        let n = self.labels.len();
        let mut i: usize = 0;
        while i < n
            invariant
                i <= n,
                n == self.labels@.len(),
                forall|j: int| 0 <= j < i ==> (#[trigger] self.labels@[j])@ != label@,
            decreases n - i,
        {
            if crate::text::str_eq(self.labels[i].as_str(), label) {
                return true;
            }
            i = i + 1;
        }
        false
    }
}

/// The top-left position that centers a window of the given size on a
/// monitor of the given size: `(monitor - window) / 2` on each axis.
pub fn compute_center(monitor_width: u32, monitor_height: u32, width: u32, height: u32) -> (r: (
    u32,
    u32,
))
    requires
        width <= monitor_width,
        height <= monitor_height,
    ensures
        r.0 == (monitor_width - width) / 2,
        r.1 == (monitor_height - height) / 2,
{
    ((monitor_width - width) / 2, (monitor_height - height) / 2)
}

/// What a newly built window's startup script must know of one auto-loaded
/// extension: its id, its directory, its public URL and its entry script's
/// URL, if it ships one.
pub struct ExtensionStartup {
    pub id: String,
    pub dir: String,
    pub public_url: String,
    pub main_script_url: Option<String>,
}

/// Whether `s` describes the extension `e`.
pub open spec fn startup_describes(s: ExtensionStartup, e: Extension) -> bool {
    &&& s.id@ == e.spec_id()
    &&& s.dir@ == e.dir_string()@
    &&& s.public_url@ == "lenz"@ + "://"@ + e.spec_id()
    &&& ({
        let main = e.spec_manifest().main@;
        if main.len() > 0 {
            s.main_script_url matches Some(u) && u@ == "lenz"@ + "://"@ + e.spec_id() + "/"@
                + strip_slashes(main)
        } else {
            s.main_script_url is None
        }
    })
}

/// What the embedder needs after a window was wired into the registry: the
/// id, the merged import map as JSON text for the startup script, the
/// extensions whose entry scripts the window auto-loads, the address to
/// navigate to, and whether to center the window.
pub struct BuildArtifacts {
    pub window_id: u32,
    pub import_map_json: String,
    pub extensions: Vec<ExtensionStartup>,
    pub navigate_url: Option<String>,
    pub center: bool,
}

/// Accumulates a window's configuration before its native surface exists:
/// everything the surface needs at creation, the labels, the per-window
/// import-map overlay, and the names of the custom protocols to attach.
pub struct AppWindowBuilder {
    pub parent: Option<u32>,
    pub is_main: bool,
    pub title: String,
    pub url: Option<String>,
    pub visible: bool,
    pub transparent: bool,
    pub decorations: bool,
    pub closable: bool,
    pub size: Option<(u32, u32)>,
    pub at_center: bool,
    pub devtools: bool,
    pub labels: Vec<String>,
    pub protocols: Vec<String>,
    pub import_map: AssocMap<String, String>,
}

impl AppWindowBuilder {
    /// The builder's overlay table is well formed.
    pub open spec fn wf(&self) -> bool {
        self.import_map.inv()
    }

    /// A configuration with the surface defaults: visible, decorated,
    /// closable, no title, no address, no labels.
    pub fn new() -> (r: Self)
        ensures
            r.wf(),
            r.parent is None,
            !r.is_main,
            r.title@ == Seq::<char>::empty(),
            r.url is None,
            r.visible,
            !r.transparent,
            r.decorations,
            r.closable,
            r.size is None,
            !r.at_center,
            !r.devtools,
            r.labels@ == Seq::<String>::empty(),
            r.protocols@ == Seq::<String>::empty(),
            r.import_map@ == Map::<Seq<char>, String>::empty(),
            r.import_map.kv() == Seq::<(String, String)>::empty(),
    {
        AppWindowBuilder {
            parent: None,
            is_main: false,
            title: String::new(),
            url: None,
            visible: true,
            transparent: false,
            decorations: true,
            closable: true,
            size: None,
            at_center: false,
            devtools: false,
            labels: Vec::new(),
            protocols: Vec::new(),
            import_map: AssocMap::new(),
        }
    }

    /// Derives the new window from an existing one.
    pub fn with_parent(self, parent: u32) -> (r: Self)
        ensures
            r == (AppWindowBuilder { parent: Some(parent), ..self }),
    {
        AppWindowBuilder { parent: Some(parent), ..self }
    }

    /// Adds a label; labels are not unique across windows.
    pub fn with_label(self, label: &str) -> (r: Self)
        ensures
            r.labels@.len() == self.labels@.len() + 1,
            r.labels@.subrange(0, self.labels@.len() as int) == self.labels@,
            r.labels@.last()@ == label@,
            r == (AppWindowBuilder { labels: r.labels, ..self }),
    {
        let mut labels = self.labels;
        labels.push(label.to_owned());
        proof {
            assert(labels@.subrange(0, labels@.len() - 1) =~= labels@.drop_last());
        }
        AppWindowBuilder { labels, ..self }
    }

    /// Sets the window title.
    pub fn with_title(self, title: &str) -> (r: Self)
        ensures
            r.title@ == title@,
            r == (AppWindowBuilder { title: r.title, ..self }),
    {
        AppWindowBuilder { title: title.to_owned(), ..self }
    }

    /// Sets the address the window navigates to once built.
    pub fn with_url(self, url: &str) -> (r: Self)
        ensures
            r.url matches Some(u) && u@ == url@,
            r == (AppWindowBuilder { url: r.url, ..self }),
    {
        AppWindowBuilder { url: Some(url.to_owned()), ..self }
    }

    /// Serves literal HTML through a data address.
    pub fn with_html(self, html: &str) -> (r: Self)
        ensures
            r.url matches Some(u) && u@ == "data:text/html,"@ + html@,
            r == (AppWindowBuilder { url: r.url, ..self }),
    {
        let url = str_concat("data:text/html,", html);
        AppWindowBuilder { url: Some(url), ..self }
    }

    /// Names a custom protocol the surface must attach; the embedder keeps
    /// the handler for each name.
    pub fn with_protocol(self, schema: &str) -> (r: Self)
        ensures
            r.protocols@.len() == self.protocols@.len() + 1,
            r.protocols@.subrange(0, self.protocols@.len() as int) == self.protocols@,
            r.protocols@.last()@ == schema@,
            r == (AppWindowBuilder { protocols: r.protocols, ..self }),
    {
        let mut protocols = self.protocols;
        protocols.push(schema.to_owned());
        proof {
            assert(protocols@.subrange(0, protocols@.len() - 1) =~= protocols@.drop_last());
        }
        AppWindowBuilder { protocols, ..self }
    }

    /// Adds one module to the window's import-map overlay.
    pub fn with_js_module(self, name: &str, url: &str) -> (r: Self)
        requires
            self.wf(),
        ensures
            r.wf(),
            exists|u: String|
                u@ == url@ && r.import_map@ == self.import_map@.insert(name@, u),
            r == (AppWindowBuilder { import_map: r.import_map, ..self }),
    {
        let mut import_map = self.import_map;
        let owned: String = url.to_owned();
        import_map.insert(name.to_owned(), owned);
        AppWindowBuilder { import_map, ..self }
    }

    /// Marks this window as the main one and labels it `main`.
    pub fn main(self) -> (r: Self)
        ensures
            r.is_main,
            r.labels@.len() == self.labels@.len() + 1,
            r.labels@.subrange(0, self.labels@.len() as int) == self.labels@,
            r.labels@.last()@ == "main"@,
            r == (AppWindowBuilder { is_main: true, labels: r.labels, ..self }),
    {
        let with_flag = AppWindowBuilder { is_main: true, ..self };
        with_flag.with_label("main")
    }

    /// Sets the initial visibility.
    pub fn with_visible(self, visible: bool) -> (r: Self)
        ensures
            r == (AppWindowBuilder { visible, ..self }),
    {
        AppWindowBuilder { visible, ..self }
    }

    /// Sets surface transparency.
    pub fn with_transparent(self, transparent: bool) -> (r: Self)
        ensures
            r == (AppWindowBuilder { transparent, ..self }),
    {
        AppWindowBuilder { transparent, ..self }
    }

    /// Sets whether the surface draws decorations.
    pub fn with_decorations(self, decorations: bool) -> (r: Self)
        ensures
            r == (AppWindowBuilder { decorations, ..self }),
    {
        AppWindowBuilder { decorations, ..self }
    }

    /// Sets whether the surface can be closed by the user.
    pub fn with_closable(self, closable: bool) -> (r: Self)
        ensures
            r == (AppWindowBuilder { closable, ..self }),
    {
        AppWindowBuilder { closable, ..self }
    }

    /// Sets the initial size in physical pixels.
    pub fn with_size(self, width: u32, height: u32) -> (r: Self)
        ensures
            r == (AppWindowBuilder { size: Some((width, height)), ..self }),
    {
        AppWindowBuilder { size: Some((width, height)), ..self }
    }

    /// Asks for the window to be centered on its monitor once built.
    pub fn at_center(self) -> (r: Self)
        ensures
            r == (AppWindowBuilder { at_center: true, ..self }),
    {
        AppWindowBuilder { at_center: true, ..self }
    }

    /// Opens the developer tools once built.
    pub fn with_devtools(self) -> (r: Self)
        ensures
            r == (AppWindowBuilder { devtools: true, ..self }),
    {
        AppWindowBuilder { devtools: true, ..self }
    }

    /// Wires a freshly created native surface into the registry: registers
    /// the window record under the surface's id — recording it as the main
    /// window when so marked — and hands back what the startup script needs:
    /// the global import map merged with this window's overlay, the overlay
    /// winning per key, and the active extensions whose activation labels
    /// intersect this window's labels.
    pub fn build(self, surface_id: u32, reg: &mut Registry, host: &ExtensionHost) -> (r:
        BuildArtifacts)
        requires
            self.wf(),
            old(reg).inv(),
            host.inv(),
        ensures
            final(reg).inv(),
            final(reg).windows_map().dom() == old(reg).windows_map().dom().insert(surface_id),
            final(reg).windows_map()[surface_id].id == surface_id,
            final(reg).windows_map()[surface_id].labels == self.labels,
            final(reg).windows_map()[surface_id].title == self.title,
            final(reg).windows_map()[surface_id].visible == self.visible,
            final(reg).windows_map()[surface_id].import_map == self.import_map,
            forall|k: u32|
                k != surface_id && old(reg).windows_map().dom().contains(k) ==> final(reg).windows_map()[k] == old(reg).windows_map()[k],
            final(reg).main_id() == if self.is_main {
                Some(surface_id)
            } else {
                old(reg).main_id()
            },
            final(reg).mounts_map() == old(reg).mounts_map(),
            final(reg).handler_map() == old(reg).handler_map(),
            final(reg).imports_map() == old(reg).imports_map(),
            r.window_id == surface_id,
            r.navigate_url == self.url,
            r.center == self.at_center,
            exists|v: JsonValue, merged_kv: Seq<(String, String)>|
                #![trigger json_matches_imports(v, merged_kv)]
                parsed_json(encode_utf8(r.import_map_json@)) == Ok::<JsonValue, Seq<char>>(v)
                    && json_matches_imports(v, merged_kv) && map_of(merged_kv) == merged_imports(
                    old(reg).imports_map(),
                    self.import_map.kv(),
                ),
            forall|i: int|
                #![trigger r.extensions@[i]]
                0 <= i < r.extensions@.len() ==> ({
                    let k = r.extensions@[i].id@;
                    host.active_map().dom().contains(k) && spec_activates_on(
                        host.active_map()[k].spec_manifest(),
                        self.labels@,
                    ) && startup_describes(r.extensions@[i], host.active_map()[k])
                }),
            forall|k: Seq<char>|
                host.active_map().dom().contains(k) && spec_activates_on(
                    (#[trigger] host.active_map()[k]).spec_manifest(),
                    self.labels@,
                ) ==> exists|i: int|
                    0 <= i < r.extensions@.len() && (#[trigger] r.extensions@[i]).id@ == k,
            forall|i: int, j: int|
                0 <= i < j < r.extensions@.len() ==> (#[trigger] r.extensions@[i]).id@ != (
                #[trigger] r.extensions@[j]).id@,
    {
        let mut merged: AssocMap<String, String> = AssocMap::new();
        let global = reg.import_map_table();
        let gn = global.num_entries();
        let mut gi: usize = 0;
        while gi < gn
            invariant
                gi <= gn,
                global.inv(),
                gn == global.kv().len(),
                merged.inv(),
                merged@ == merged_imports(
                    Map::<Seq<char>, String>::empty(),
                    global.kv().subrange(0, gi as int),
                ),
            decreases gn - gi,
        {
            let entry = global.entry_at(gi);
            merged.insert(entry.0.clone(), entry.1.clone());
            proof {
                assert(global.kv().subrange(0, gi + 1 as int).drop_last() =~= global.kv().subrange(
                    0,
                    gi as int,
                ));
                assert(global.kv().subrange(0, gi + 1 as int).last() == global.kv()[gi as int]);
            }
            gi = gi + 1;
        }
        proof {
            assert(global.kv().subrange(0, gn as int) =~= global.kv());
            lemma_merged_from_empty(global.kv());
            global.lemma_view_of_kv();
            assert(merged@ == old(reg).imports_map());
        }
        let on = self.import_map.num_entries();
        let mut oi: usize = 0;
        while oi < on
            invariant
                oi <= on,
                self.import_map.inv(),
                on == self.import_map.kv().len(),
                merged.inv(),
                merged@ == merged_imports(
                    old(reg).imports_map(),
                    self.import_map.kv().subrange(0, oi as int),
                ),
            decreases on - oi,
        {
            let entry = self.import_map.entry_at(oi);
            merged.insert(entry.0.clone(), entry.1.clone());
            proof {
                assert(self.import_map.kv().subrange(0, oi + 1 as int).drop_last()
                    =~= self.import_map.kv().subrange(0, oi as int));
                assert(self.import_map.kv().subrange(0, oi + 1 as int).last()
                    == self.import_map.kv()[oi as int]);
            }
            oi = oi + 1;
        }
        proof {
            assert(self.import_map.kv().subrange(0, on as int) =~= self.import_map.kv());
        }
        let map_value = json_of_string_map(&merged);
        let import_map_json = to_json_string(&map_value);
        proof {
            merged.lemma_view_of_kv();
            assert(parsed_json(encode_utf8(import_map_json@)) == Ok::<JsonValue, Seq<char>>(
                map_value,
            ));
            assert(json_matches_imports(map_value, merged.kv()));
            assert(map_of(merged.kv()) == merged_imports(
                old(reg).imports_map(),
                self.import_map.kv(),
            ));
        }
        let matching = host.extensions_for_window_labels(&self.labels);
        let mn = matching.len();
        let mut extensions: Vec<ExtensionStartup> = Vec::new();
        let mut mi: usize = 0;
        while mi < mn
            invariant
                mi <= mn,
                host.inv(),
                mn == matching@.len(),
                extensions@.len() == mi,
                forall|a: int|
                    0 <= a < matching@.len() ==> host.active_map().dom().contains(
                        (#[trigger] matching@[a]).spec_id(),
                    ) && host.active_map()[matching@[a].spec_id()] == *matching@[a]
                        && spec_activates_on(matching@[a].spec_manifest(), self.labels@),
                forall|a: int, b: int|
                    0 <= a < b < matching@.len() ==> (#[trigger] matching@[a]).spec_id() != (
                    #[trigger] matching@[b]).spec_id(),
                forall|a: int|
                    0 <= a < mi ==> startup_describes(
                        #[trigger] extensions@[a],
                        *matching@[a],
                    ) && extensions@[a].id@ == matching@[a].spec_id(),
            decreases mn - mi,
        {
            let ext = matching[mi];
            let startup = ExtensionStartup {
                id: ext.id(),
                dir: ext.dir().clone(),
                public_url: ext.public_url(),
                main_script_url: ext.main_script_url(),
            };
            extensions.push(startup);
            mi = mi + 1;
        }
        let window = WindowData {
            id: surface_id,
            labels: self.labels,
            title: self.title,
            visible: self.visible,
            import_map: self.import_map,
        };
        reg.register_window(window, self.is_main);
        proof {
            assert(final(reg).windows_map().dom() =~= old(reg).windows_map().dom().insert(
                surface_id,
            ));
            assert forall|k: Seq<char>|
                host.active_map().dom().contains(k) && spec_activates_on(
                    (#[trigger] host.active_map()[k]).spec_manifest(),
                    self.labels@,
                ) implies exists|i: int|
                0 <= i < extensions@.len() && (#[trigger] extensions@[i]).id@ == k by {
                let a = choose|a: int|
                    0 <= a < matching@.len() && (#[trigger] matching@[a]).spec_id() == k;
                assert(extensions@[a].id@ == k);
            }
        }
        let artifacts = BuildArtifacts {
            window_id: surface_id,
            import_map_json,
            extensions,
            navigate_url: self.url,
            center: self.at_center,
        };
        proof {
            assert forall|i: int|
                #![trigger artifacts.extensions@[i]]
                0 <= i < artifacts.extensions@.len() implies ({
                let k = artifacts.extensions@[i].id@;
                host.active_map().dom().contains(k) && spec_activates_on(
                    host.active_map()[k].spec_manifest(),
                    self.labels@,
                ) && startup_describes(artifacts.extensions@[i], host.active_map()[k])
            }) by {
                assert(artifacts.extensions@[i] == extensions@[i]);
                let e = *matching@[i];
                assert(startup_describes(extensions@[i], e));
                assert(extensions@[i].id@ == e.spec_id());
                assert(host.active_map().dom().contains(e.spec_id()));
                assert(host.active_map()[e.spec_id()] == e);
                assert(spec_activates_on(e.spec_manifest(), self.labels@));
            }
        }
        artifacts
    }
}

} // verus!
