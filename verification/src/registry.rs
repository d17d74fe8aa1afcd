//! The application registry: the single shared store of open windows, command
//! handlers, resource mounts, the global import map and the designated main
//! window. Every mutation here is one linearized operation; the embedder
//! serializes access with a lock of its choosing and funnels native-surface
//! work through the event loop.

use vstd::prelude::*;

use crate::assoc::{entry_keys_distinct, AssocMap};
use crate::json::JsonValue;
use crate::plugins::HandlerKind;
use crate::window::{AppWindowBuilder, AppWindowEvent, WindowData};

verus! {

/// What the event-loop dispatcher is told after one event: keep waiting, or
/// end the process because the window set became empty.
#[derive(Clone, Copy, Debug, PartialEq, Eq, Structural)]
pub enum ControlFlowDecision {
    Wait,
    Exit,
}

/// A script-evaluation broadcast ready for the event-loop thread: dispatch
/// the named event with the payload to exactly the listed windows.
pub struct DispatchEval {
    pub name: String,
    pub payload: JsonValue,
    pub recipients: Vec<u32>,
}

/// The registry. Window ids are unique by construction — they derive from
/// native surface handles — and every stored window record carries its own
/// id.
pub struct Registry {
    windows: AssocMap<u32, WindowData>,
    main_window_id: Option<u32>,
    mounts: AssocMap<String, String>,
    handlers: AssocMap<String, HandlerKind>,
    import_map: AssocMap<String, String>,
}

/// The import map after inserting each of `entries` in order, later entries
/// winning.
pub open spec fn merged_imports(
    m: Map<Seq<char>, String>,
    entries: Seq<(String, String)>,
) -> Map<Seq<char>, String>
    decreases entries.len(),
{
    if entries.len() == 0 {
        m
    } else {
        merged_imports(m, entries.drop_last()).insert(entries.last().0@, entries.last().1)
    }
}

/// Whether `v` is the JSON object whose fields are exactly the given import
/// map entries, in order, each value the entry's URL as a JSON string.
pub open spec fn json_matches_imports(v: JsonValue, kv: Seq<(String, String)>) -> bool {
    v matches JsonValue::Obj(fields) && fields@.len() == kv.len() && forall|i: int|
        0 <= i < kv.len() ==> (#[trigger] fields@[i]).0@ == kv[i].0@ && (fields@[i].1
            matches JsonValue::Str(s) && s@ == kv[i].1@)
}

/// Inserting entries in order into an empty map yields the same map as the
/// entry sequence spells.
pub proof fn lemma_merged_from_empty(entries: Seq<(String, String)>)
    ensures
        merged_imports(Map::<Seq<char>, String>::empty(), entries) == crate::assoc::map_of(entries),
    decreases entries.len(),
{
    if entries.len() > 0 {
        lemma_merged_from_empty(entries.drop_last());
    }
}

/// Whether `a` and `b` agree on everything but the window set.
pub open spec fn same_except_windows(a: Registry, b: Registry) -> bool {
    &&& a.main_id() == b.main_id()
    &&& a.mounts_map() == b.mounts_map()
    &&& a.handler_map() == b.handler_map()
    &&& a.imports_map() == b.imports_map()
}

impl Registry {
    /// The windows by id.
    pub closed spec fn windows_map(&self) -> Map<u32, WindowData> {
        self.windows@
    }

    /// The designated main window, if one was registered as such.
    pub closed spec fn main_id(&self) -> Option<u32> {
        self.main_window_id
    }

    /// The resource mounts: mount name to directory path.
    pub closed spec fn mounts_map(&self) -> Map<Seq<char>, String> {
        self.mounts@
    }

    /// The command handlers by method name.
    pub closed spec fn handler_map(&self) -> Map<Seq<char>, HandlerKind> {
        self.handlers@
    }

    /// The global import map: module name to URL.
    pub closed spec fn imports_map(&self) -> Map<Seq<char>, String> {
        self.import_map@
    }

    /// The import map's entries in storage order.
    pub closed spec fn imports_kv(&self) -> Seq<(String, String)> {
        self.import_map.kv()
    }

    /// Internal well-formedness: the tables are well formed and each window
    /// record carries the id it is stored under.
    pub closed spec fn inv(&self) -> bool {
        &&& self.windows.inv()
        &&& self.mounts.inv()
        &&& self.handlers.inv()
        &&& self.import_map.inv()
        &&& forall|id: u32|
            self.windows@.dom().contains(id) ==> (#[trigger] self.windows@[id]).id == id
    }

    /// A registry with no windows, no handlers, no mounts and an empty import
    /// map.
    pub fn new() -> (r: Self)
        ensures
            r.inv(),
            r.windows_map() == Map::<u32, WindowData>::empty(),
            r.main_id() is None,
            r.mounts_map() == Map::<Seq<char>, String>::empty(),
            r.handler_map() == Map::<Seq<char>, HandlerKind>::empty(),
            r.imports_map() == Map::<Seq<char>, String>::empty(),
    {
        Registry {
            windows: AssocMap::new(),
            main_window_id: None,
            mounts: AssocMap::new(),
            handlers: AssocMap::new(),
            import_map: AssocMap::new(),
        }
    }

    /// Inserts a window under its id; when it is the designated main window,
    /// records its id as such. There is no error path: ids are unique by
    /// construction.
    pub fn register_window(&mut self, window: WindowData, is_main: bool)
        requires
            old(self).inv(),
        ensures
            final(self).inv(),
            final(self).windows_map() == old(self).windows_map().insert(window.id, window),
            final(self).main_id() == if is_main {
                Some(window.id)
            } else {
                old(self).main_id()
            },
            final(self).mounts_map() == old(self).mounts_map(),
            final(self).handler_map() == old(self).handler_map(),
            final(self).imports_map() == old(self).imports_map(),
    {
        let id = window.id;
        self.windows.insert(id, window);
        if is_main {
            self.main_window_id = Some(id);
        }
    }

    /// Removes a window. Closing the designated main window clears the whole
    /// window set — the main window's lifetime bounds the application's —
    /// while closing any other window removes only that id. An id that is not
    /// present is a silent no-op.
    pub fn unregister_window(&mut self, window_id: u32)
        requires
            old(self).inv(),
        ensures
            final(self).inv(),
            same_except_windows(*final(self), *old(self)),
            old(self).main_id() == Some(window_id) ==> final(self).windows_map() == Map::<
                u32,
                WindowData,
            >::empty(),
            old(self).main_id() != Some(window_id) ==> final(self).windows_map() == old(self).windows_map().remove(window_id),
    {
        let is_main = match self.main_window_id {
            Some(main) => main == window_id,
            None => false,
        };
        if is_main {
            self.windows.clear();
        } else {
            self.windows.remove(&window_id);
        }
    }

    /// The window registered under `window_id`, if any.
    pub fn lookup_window(&self, window_id: u32) -> (r: Option<&WindowData>)
        requires
            self.inv(),
        ensures
            match r {
                Some(w) => self.windows_map().dom().contains(window_id) && *w == self.windows_map()[window_id],
                None => !self.windows_map().dom().contains(window_id),
            },
    {
        self.windows.get(&window_id)
    }

    /// Whether a window is registered under `window_id`.
    pub fn has_window(&self, window_id: u32) -> (r: bool)
        requires
            self.inv(),
        ensures
            r == self.windows_map().dom().contains(window_id),
    {
        self.windows.contains_key(&window_id)
    }

    /// The ids of every window carrying the given label: each returned id is
    /// registered and its window carries the label; every registered window
    /// carrying the label is returned; no id repeats.
    pub fn lookup_windows_by_label(&self, label: &str) -> (r: Vec<u32>)
        requires
            self.inv(),
        ensures
            forall|i: int|
                0 <= i < r@.len() ==> self.windows_map().dom().contains(#[trigger] r@[i])
                    && self.windows_map()[r@[i]].spec_has_label(label@),
            forall|id: u32|
                self.windows_map().dom().contains(id) && (#[trigger] self.windows_map()[id]).spec_has_label(label@) ==> r@.contains(id),
            forall|i: int, j: int| 0 <= i < j < r@.len() ==> r@[i] != r@[j],
    {
        let n = self.windows.num_entries();
        let mut out: Vec<u32> = Vec::new();
        let mut i: usize = 0;
        while i < n
            invariant
                i <= n,
                self.inv(),
                n == self.windows.kv().len(),
                entry_keys_distinct(self.windows.kv()),
                forall|a: int|
                    0 <= a < out@.len() ==> exists|j: int|
                        0 <= j < i && (#[trigger] out@[a]) == self.windows.kv()[j].0,
                forall|a: int|
                    0 <= a < out@.len() ==> self.windows_map().dom().contains(#[trigger] out@[a])
                        && self.windows_map()[out@[a]].spec_has_label(label@),
                forall|j: int|
                    0 <= j < i && (#[trigger] self.windows.kv()[j]).1.spec_has_label(label@)
                        ==> out@.contains(self.windows.kv()[j].0),
                forall|a: int, b: int| 0 <= a < b < out@.len() ==> out@[a] != out@[b],
            decreases n - i,
        {
            let entry = self.windows.entry_at(i);
            if entry.1.has_label(label) {
                let ghost before = out@;
                out.push(entry.0);
                proof {
                    assert forall|a: int, b: int| 0 <= a < b < out@.len() implies out@[a]
                        != out@[b] by {
                        if b == out@.len() - 1 {
                            let j = choose|j: int|
                                0 <= j < i && (#[trigger] before[a]) == self.windows.kv()[j].0;
                            assert(self.windows.kv()[j].0 != self.windows.kv()[i as int].0);
                        }
                    }
                    assert forall|j: int|
                        0 <= j < i + 1 && (#[trigger] self.windows.kv()[j]).1.spec_has_label(
                            label@,
                        ) implies out@.contains(self.windows.kv()[j].0) by {
                        if j < i {
                            let a = choose|a: int|
                                0 <= a < before.len() && before[a] == self.windows.kv()[j].0;
                            assert(out@[a] == self.windows.kv()[j].0);
                        } else {
                            assert(out@[out@.len() - 1] == self.windows.kv()[i as int].0);
                        }
                    }
                }
            }
            i = i + 1;
        }
        proof {
            assert forall|id: u32|
                self.windows_map().dom().contains(id) && (#[trigger] self.windows_map()[id]).spec_has_label(label@) implies out@.contains(id) by {
                let j = choose|j: int|
                    0 <= j < self.windows.kv().len() && (#[trigger] self.windows.kv()[j]).0@ == id@;
                assert(self.windows.kv()[j].1 == self.windows_map()[id]);
                assert(out@.contains(self.windows.kv()[j].0));
            }
        }
        out
    }

    /// Replaces the title of the window registered under `window_id`, leaving
    /// its other attributes and every other window untouched; reports whether
    /// the window was found. An absent id mutates nothing.
    pub fn set_window_title(&mut self, window_id: u32, title: String) -> (found: bool)
        requires
            old(self).inv(),
        ensures
            final(self).inv(),
            same_except_windows(*final(self), *old(self)),
            found == old(self).windows_map().dom().contains(window_id),
            !found ==> final(self).windows_map() == old(self).windows_map(),
            found ==> {
                &&& final(self).windows_map().dom() == old(self).windows_map().dom()
                &&& final(self).windows_map()[window_id].title == title
                &&& final(self).windows_map()[window_id].id == old(self).windows_map()[window_id].id
                &&& final(self).windows_map()[window_id].labels == old(self).windows_map()[window_id].labels
                &&& final(self).windows_map()[window_id].visible == old(self).windows_map()[window_id].visible
                &&& final(self).windows_map()[window_id].import_map == old(self).windows_map()[window_id].import_map
                &&& forall|k: u32|
                    k != window_id && old(self).windows_map().dom().contains(k) ==> final(self).windows_map()[k] == old(self).windows_map()[k]
            },
    {
        match self.windows.take(&window_id) {
            Some(window) => {
                let mut updated = window;
                updated.title = title;
                self.windows.insert(window_id, updated);
                proof {
                    assert(final(self).windows_map().dom() =~= old(self).windows_map().dom());
                }
                true
            },
            None => {
                proof {
                    assert(final(self).windows_map() =~= old(self).windows_map());
                }
                false
            },
        }
    }

    /// Replaces the visibility of the window registered under `window_id`,
    /// leaving everything else untouched; reports whether the window was
    /// found. An absent id mutates nothing.
    pub fn set_window_visible(&mut self, window_id: u32, visible: bool) -> (found: bool)
        requires
            old(self).inv(),
        ensures
            final(self).inv(),
            same_except_windows(*final(self), *old(self)),
            found == old(self).windows_map().dom().contains(window_id),
            !found ==> final(self).windows_map() == old(self).windows_map(),
            found ==> {
                &&& final(self).windows_map().dom() == old(self).windows_map().dom()
                &&& final(self).windows_map()[window_id].visible == visible
                &&& final(self).windows_map()[window_id].id == old(self).windows_map()[window_id].id
                &&& final(self).windows_map()[window_id].labels == old(self).windows_map()[window_id].labels
                &&& final(self).windows_map()[window_id].title == old(self).windows_map()[window_id].title
                &&& final(self).windows_map()[window_id].import_map == old(self).windows_map()[window_id].import_map
                &&& forall|k: u32|
                    k != window_id && old(self).windows_map().dom().contains(k) ==> final(self).windows_map()[k] == old(self).windows_map()[k]
            },
    {
        match self.windows.take(&window_id) {
            Some(window) => {
                let mut updated = window;
                updated.visible = visible;
                self.windows.insert(window_id, updated);
                proof {
                    assert(final(self).windows_map().dom() =~= old(self).windows_map().dom());
                }
                true
            },
            None => {
                proof {
                    assert(final(self).windows_map() =~= old(self).windows_map());
                }
                false
            },
        }
    }

    /// Registers a command handler under a method name; a later registration
    /// under the same name silently replaces the earlier one.
    pub fn add_invoke_handler(&mut self, method: &str, handler: HandlerKind)
        requires
            old(self).inv(),
        ensures
            final(self).inv(),
            final(self).handler_map() == old(self).handler_map().insert(method@, handler),
            final(self).windows_map() == old(self).windows_map(),
            final(self).main_id() == old(self).main_id(),
            final(self).mounts_map() == old(self).mounts_map(),
            final(self).imports_map() == old(self).imports_map(),
    {
        self.handlers.insert(method.to_owned(), handler);
    }

    /// Unregisters the handler under a method name, if any.
    pub fn remove_invoke_handler(&mut self, method: &str)
        requires
            old(self).inv(),
        ensures
            final(self).inv(),
            final(self).handler_map() == old(self).handler_map().remove(method@),
            final(self).windows_map() == old(self).windows_map(),
            final(self).main_id() == old(self).main_id(),
            final(self).mounts_map() == old(self).mounts_map(),
            final(self).imports_map() == old(self).imports_map(),
    {
        self.handlers.remove(&method.to_owned());
    }

    /// The handler table, for routing inbound requests.
    pub fn invoke_handlers(&self) -> (r: &AssocMap<String, HandlerKind>)
        requires
            self.inv(),
        ensures
            r.inv(),
            r@ == self.handler_map(),
    {
        &self.handlers
    }

    /// Adds a resource mount: requests naming `name` resolve under `dir`.
    pub fn add_mount(&mut self, name: String, dir: String)
        requires
            old(self).inv(),
        ensures
            final(self).inv(),
            final(self).mounts_map() == old(self).mounts_map().insert(name@, dir),
            final(self).windows_map() == old(self).windows_map(),
            final(self).main_id() == old(self).main_id(),
            final(self).handler_map() == old(self).handler_map(),
            final(self).imports_map() == old(self).imports_map(),
    {
        self.mounts.insert(name, dir);
    }

    /// Removes a resource mount, if present.
    pub fn remove_mount(&mut self, name: &str)
        requires
            old(self).inv(),
        ensures
            final(self).inv(),
            final(self).mounts_map() == old(self).mounts_map().remove(name@),
            final(self).windows_map() == old(self).windows_map(),
            final(self).main_id() == old(self).main_id(),
            final(self).handler_map() == old(self).handler_map(),
            final(self).imports_map() == old(self).imports_map(),
    {
        self.mounts.remove(&name.to_owned());
    }

    /// The directory a mount name resolves to, if the mount exists.
    pub fn lookup_mount(&self, name: &str) -> (r: Option<&String>)
        requires
            self.inv(),
        ensures
            match r {
                Some(dir) => self.mounts_map().dom().contains(name@) && *dir == self.mounts_map()[name@],
                None => !self.mounts_map().dom().contains(name@),
            },
    {
        self.mounts.get(&name.to_owned())
    }

    /// Records one module of the import map: module name to URL,
    /// insert-or-overwrite.
    pub fn add_es_module(&mut self, name: &str, url: &str)
        requires
            old(self).inv(),
        ensures
            final(self).inv(),
            final(self).windows_map() == old(self).windows_map(),
            final(self).main_id() == old(self).main_id(),
            final(self).mounts_map() == old(self).mounts_map(),
            final(self).handler_map() == old(self).handler_map(),
            exists|u: String| u@ == url@ && final(self).imports_map() == old(self).imports_map().insert(name@, u),
    {
        let owned_url: String = url.to_owned();
        self.import_map.insert(name.to_owned(), owned_url);
    }

    /// Merges entries into the import map in order, insert-or-overwrite per
    /// key.
    pub fn merge_import_map(&mut self, entries: Vec<(String, String)>)
        requires
            old(self).inv(),
        ensures
            final(self).inv(),
            final(self).imports_map() == merged_imports(old(self).imports_map(), entries@),
            final(self).windows_map() == old(self).windows_map(),
            final(self).main_id() == old(self).main_id(),
            final(self).mounts_map() == old(self).mounts_map(),
            final(self).handler_map() == old(self).handler_map(),
    {
        let n = entries.len();
        let mut i: usize = 0;
        while i < n
            invariant
                i <= n,
                n == entries@.len(),
                self.import_map.inv(),
                self.import_map@ == merged_imports(old(self).imports_map(), entries@.subrange(0, i as int)),
                self.windows == old(self).windows,
                self.main_window_id == old(self).main_window_id,
                self.mounts == old(self).mounts,
                self.handlers == old(self).handlers,
                old(self).inv(),
            decreases n - i,
        {
            let key = entries[i].0.clone();
            let value = entries[i].1.clone();
            self.import_map.insert(key, value);
            proof {
                assert(entries@.subrange(0, i + 1 as int).drop_last() =~= entries@.subrange(
                    0,
                    i as int,
                ));
                assert(entries@.subrange(0, i + 1 as int).last() == entries@[i as int]);
            }
            i = i + 1;
        }
        proof {
            assert(entries@.subrange(0, n as int) =~= entries@);
        }
    }


    /// The global import map as one JSON object, fields in storage order,
    /// ready for injection into served HTML.
    pub fn import_map_json(&self) -> (r: JsonValue)
        requires
            self.inv(),
        ensures
            json_matches_imports(r, self.imports_kv()),
            r.wf(),
    {
        json_of_string_map(&self.import_map)
    }

    /// The import map's table, for merging with a window's overlay.
    pub fn import_map_table(&self) -> (r: &AssocMap<String, String>)
        requires
            self.inv(),
        ensures
            r.inv(),
            r@ == self.imports_map(),
            r.kv() == self.imports_kv(),
    {
        &self.import_map
    }


    /// A builder for a window wired to this shell: the static resource
    /// protocol and the invoke protocol are already attached, under the
    /// `lenz` and `ipc` schemes.
    pub fn build_window(&self) -> (r: AppWindowBuilder)
        ensures
            r.wf(),
            r.parent is None,
            !r.is_main,
            r.title@ == Seq::<char>::empty(),
            r.url is None,
            r.visible,
            !r.transparent,
            r.decorations,
            r.closable,
            r.size is None,
            !r.at_center,
            !r.devtools,
            r.labels@ == Seq::<String>::empty(),
            r.protocols@.len() == 2,
            r.protocols@[0]@ == "lenz"@,
            r.protocols@[1]@ == "ipc"@,
            r.import_map@ == Map::<Seq<char>, String>::empty(),
            r.import_map.kv() == Seq::<(String, String)>::empty(),
    {
        AppWindowBuilder::new().with_protocol("lenz").with_protocol("ipc")
    }

    /// Captures the current snapshot of registered window ids and builds the
    /// application event that delivers `name` with `payload` to exactly those
    /// windows. A window registered after this call is not in the snapshot.
    pub fn broadcast(&self, name: &str, payload: JsonValue) -> (r: AppWindowEvent)
        requires
            self.inv(),
        ensures
            r matches AppWindowEvent::Event { name: n, payload: p, target: t } && n@ == name@ && p
                == payload && (forall|id: u32|
                t@.contains(id) <==> self.windows_map().dom().contains(id)) && (forall|
                i: int,
                j: int,
            |
                0 <= i < j < t@.len() ==> t@[i] != t@[j]),
    {
        let target = self.window_ids();
        AppWindowEvent::Event { name: name.to_owned(), payload, target }
    }

    /// The snapshot of registered window ids, without repeats.
    pub fn window_ids(&self) -> (r: Vec<u32>)
        requires
            self.inv(),
        ensures
            forall|id: u32| r@.contains(id) <==> self.windows_map().dom().contains(id),
            forall|i: int, j: int| 0 <= i < j < r@.len() ==> r@[i] != r@[j],
    {
        let target = self.windows.keys();
        proof {
            assert forall|id: u32| target@.contains(id) implies self.windows_map().dom().contains(
                id,
            ) by {
                let i = choose|i: int| 0 <= i < target@.len() && target@[i] == id;
            }
            assert forall|id: u32| self.windows_map().dom().contains(id) implies target@.contains(
                id,
            ) by {
                let i = choose|i: int| 0 <= i < target@.len() && (#[trigger] target@[i])@ == id@;
                assert(target@[i] == id);
            }
        }
        target
    }

    /// Builds the application event that delivers `name` with `payload` to
    /// one window.
    pub fn emit_to(&self, window_id: u32, name: &str, payload: JsonValue) -> (r: AppWindowEvent)
        ensures
            r matches AppWindowEvent::Event { name: n, payload: p, target: t } && n@ == name@ && p
                == payload && t@.len() == 1 && t@[0] == window_id,
    {
        let mut target: Vec<u32> = Vec::new();
        target.push(window_id);
        AppWindowEvent::Event { name: name.to_owned(), payload, target }
    }

    /// The single event-loop dispatcher. A close request removes the window —
    /// cascading to all windows when it is the main one — and ends the
    /// process exactly when the window set became empty. An application event
    /// is turned into one script-evaluation broadcast addressed to the
    /// targets still registered; targets that disappeared are silently
    /// skipped. Anything else is ignored.
    pub fn handle_event(&mut self, event: AppWindowEvent) -> (r: (
        ControlFlowDecision,
        Option<DispatchEval>,
    ))
        requires
            old(self).inv(),
        ensures
            final(self).inv(),
            same_except_windows(*final(self), *old(self)),
            match event {
                AppWindowEvent::Close { window_id } => {
                    &&& (old(self).main_id() == Some(window_id) ==> final(self).windows_map()
                        == Map::<u32, WindowData>::empty())
                    &&& (old(self).main_id() != Some(window_id) ==> final(self).windows_map()
                        == old(self).windows_map().remove(window_id))
                    &&& ((r.0 == ControlFlowDecision::Exit) <==> final(self).windows_map().dom()
                        =~= Set::<u32>::empty())
                    &&& r.1 is None
                },
                AppWindowEvent::Event { name, payload, target } => {
                    &&& final(self).windows_map() == old(self).windows_map()
                    &&& r.0 == ControlFlowDecision::Wait
                    &&& r.1 matches Some(d) && d.name == name && d.payload == payload
                        && d.recipients@ == target@.filter(
                        |id: u32| old(self).windows_map().dom().contains(id),
                    )
                },
                _ => {
                    &&& final(self).windows_map() == old(self).windows_map()
                    &&& r.0 == ControlFlowDecision::Wait
                    &&& r.1 is None
                },
            },
    {
        match event {
            AppWindowEvent::Close { window_id } => {
                self.unregister_window(window_id);
                let empty = self.windows.is_empty();
                if empty {
                    (ControlFlowDecision::Exit, None)
                } else {
                    (ControlFlowDecision::Wait, None)
                }
            },
            AppWindowEvent::Event { name, payload, target } => {
                let n = target.len();
                let mut recipients: Vec<u32> = Vec::new();
                let mut i: usize = 0;
                while i < n
                    invariant
                        i <= n,
                        n == target@.len(),
                        self.inv(),
                        self == old(self),
                        recipients@ == target@.subrange(0, i as int).filter(
                            |id: u32| old(self).windows_map().dom().contains(id),
                        ),
                    decreases n - i,
                {
                    let id = target[i];
                    if self.windows.contains_key(&id) {
                        recipients.push(id);
                    }
                    proof {
                        reveal_with_fuel(Seq::<_>::filter, 2);
                        assert(target@.subrange(0, i + 1 as int).drop_last() =~= target@.subrange(
                            0,
                            i as int,
                        ));
                        assert(target@.subrange(0, i + 1 as int).last() == target@[i as int]);
                    }
                    i = i + 1;
                }
                proof {
                    assert(target@.subrange(0, n as int) =~= target@);
                }
                (
                    ControlFlowDecision::Wait,
                    Some(DispatchEval { name, payload, recipients }),
                )
            },
            AppWindowEvent::Unknown | AppWindowEvent::Ready => (ControlFlowDecision::Wait, None),
        }
    }
}


proof fn lemma_filter_is_subset(s: Seq<u32>, pred: spec_fn(u32) -> bool, x: u32)
    requires
        !s.contains(x),
    ensures
        !s.filter(pred).contains(x),
    decreases s.len(),
{
    reveal(Seq::filter);
    if s.len() > 0 {
        assert(!s.drop_last().contains(x)) by {
            if s.drop_last().contains(x) {
                let i = choose|i: int| 0 <= i < s.drop_last().len() && s.drop_last()[i] == x;
                assert(s[i] == x);
            }
        }
        lemma_filter_is_subset(s.drop_last(), pred, x);
        assert(s.last() != x) by {
            assert(s[s.len() - 1] == s.last());
        }
        if pred(s.last()) {
            assert(s.filter(pred) == s.drop_last().filter(pred).push(s.last()));
            if s.filter(pred).contains(x) {
                let i = choose|i: int| 0 <= i < s.filter(pred).len() && s.filter(pred)[i] == x;
                if i < s.filter(pred).len() - 1 {
                    assert(s.drop_last().filter(pred)[i] == x);
                }
            }
        }
    }
}

/// A broadcast delivers to the snapshot of windows present when it was sent:
/// a window that is not in the snapshot — one registered only after the
/// broadcast — receives nothing, whatever the registry holds when the event
/// loop dispatches it.
pub proof fn lemma_broadcast_snapshot(
    snapshot: Seq<u32>,
    at_delivery: Map<u32, WindowData>,
    w: u32,
)
    requires
        !snapshot.contains(w),
    ensures
        !snapshot.filter(|id: u32| at_delivery.dom().contains(id)).contains(w),
{
    lemma_filter_is_subset(snapshot, |id: u32| at_delivery.dom().contains(id), w);
}

/// A string-to-string table as one JSON object, fields in storage order.
pub fn json_of_string_map(m: &AssocMap<String, String>) -> (r: JsonValue)
    requires
        m.inv(),
    ensures
        json_matches_imports(r, m.kv()),
        r.wf(),
{
    let n = m.num_entries();
    let mut fields: Vec<(String, JsonValue)> = Vec::new();
    let mut i: usize = 0;
    while i < n
        invariant
            i <= n,
            m.inv(),
            n == m.kv().len(),
            entry_keys_distinct(m.kv()),
            fields@.len() == i,
            forall|j: int|
                0 <= j < i ==> (#[trigger] fields@[j]).0@ == m.kv()[j].0@ && (fields@[j].1
                    matches JsonValue::Str(s) && s@ == m.kv()[j].1@),
        decreases n - i,
    {
        let entry = m.entry_at(i);
        let key = entry.0.clone();
        let value = JsonValue::Str(entry.1.clone());
        fields.push((key, value));
        i = i + 1;
    }
    let r = JsonValue::Obj(fields);
    proof {
        assert forall|a: int, b: int|
            0 <= a < b < fields@.len() implies fields@[a].0@ != fields@[b].0@ by {
            assert(m.kv()[a].0@ != m.kv()[b].0@);
        }
        assert forall|j: int| 0 <= j < fields@.len() implies (#[trigger] fields@[j]).1.wf() by {
            assert(fields@[j].1 matches JsonValue::Str(s));
        }
    }
    r
}

} // verus!
