//! The built-in command handlers that ship with the registry: the window
//! commands, which read and mutate the registry and describe the native
//! surface work they need as actions, and the argument validation of the
//! file-system commands, whose I/O the embedder performs.

use vstd::prelude::*;

use crate::invoke::{InvokeCommand, InvokeResult, InvokeResultData};
use crate::json::JsonValue;
use crate::registry::{same_except_windows, Registry};
use crate::text::trimmed;
use vstd::string::StrSliceExecFns;
use crate::window::AppWindowEvent;

verus! {

/// One of the library's own window commands.
#[derive(Clone, Copy, Debug, PartialEq, Eq, Structural)]
pub enum WindowCommand {
    EmitLabel,
    EmitAll,
    GetAll,
    GetByLabel,
    SetVisible,
    CloseWindow,
    GetTitle,
    SetTitle,
}

/// The identity of a registered command handler: one of the library's own
/// window commands, or a handler the embedder registered under a numeric id.
#[derive(Clone, Copy, Debug, PartialEq, Eq, Structural)]
pub enum HandlerKind {
    Builtin(WindowCommand),
    External(u64),
}

/// Work on a native surface that a command asks the event-loop thread to
/// perform.
#[derive(Debug, PartialEq)]
pub enum NativeAction {
    SetTitle { window_id: u32, title: String },
    SetVisible { window_id: u32, visible: bool },
    CloseSurface { window_id: u32 },
}

/// What running one command produced: the invoke outcome for the responder,
/// the native surface work to perform, and the application events to send
/// through the event loop.
pub struct CommandEffects {
    pub result: InvokeResult,
    pub actions: Vec<NativeAction>,
    pub events: Vec<AppWindowEvent>,
}

/// The command failed with `msg` and had no effects.
pub open spec fn fails_with(eff: CommandEffects, msg: Seq<char>) -> bool {
    &&& eff.result matches InvokeResult::Failure(m) && m@ == msg
    &&& eff.actions@.len() == 0
    &&& eff.events@.len() == 0
}

/// The command succeeded with the JSON `null` payload.
pub open spec fn ok_null(res: InvokeResult) -> bool {
    res == InvokeResult::Success(InvokeResultData::Json(JsonValue::Null))
}

/// The window id that a non-negative JSON integer designates: its value
/// truncated to 32 bits, as the bridge's unsigned header parse would give.
pub open spec fn spec_window_id(v: i64) -> u32 {
    ((v as int) % 0x1_0000_0000) as u32
}

/// Reads a window-id argument: a non-negative integer, truncated to 32 bits.
fn window_id_arg(v: &JsonValue) -> (r: Option<u32>)
    ensures
        match *v {
            JsonValue::Int(x) => if x >= 0 {
                r == Some(spec_window_id(x))
            } else {
                r is None
            },
            _ => r is None,
        },
{
    match v {
        JsonValue::Int(x) => {
            if *x >= 0 {
                let wide = *x as u64;
                let id = wide as u32;
                proof {
                    assert(id == spec_window_id(*x)) by (bit_vector)
                        requires
                            wide == *x as u64,
                            id == wide as u32,
                            *x >= 0,
                    ;
                }
                Some(id)
            } else {
                None
            }
        },
        _ => None,
    }
}

/// An empty effect set around a result.
fn effects(result: InvokeResult) -> (eff: CommandEffects)
    ensures
        eff.result == result,
        eff.actions@.len() == 0,
        eff.events@.len() == 0,
{
    CommandEffects { result, actions: Vec::new(), events: Vec::new() }
}

/// `window.set_title`: the first argument designates a window, the second is
/// the new title. A missing or ill-typed argument fails without effects; an
/// id with no window is a silent no-op. Otherwise the registry's record and
/// the native surface both take the new title.
pub fn window_set_title(command: InvokeCommand, reg: &mut Registry) -> (eff: CommandEffects)
    requires
        old(reg).inv(),
    ensures
        final(reg).inv(),
        same_except_windows(*final(reg), *old(reg)),
        ({
            let args = command.args@;
            if args.len() == 0 {
                fails_with(eff, "Window ID not provided"@) && final(reg).windows_map() == old(reg).windows_map()
            } else {
                match args[0] {
                    JsonValue::Int(v) => if v >= 0 {
                        let id = spec_window_id(v);
                        if args.len() < 2 {
                            fails_with(eff, "Title not provided"@) && final(reg).windows_map()
                                == old(reg).windows_map()
                        } else {
                            match args[1] {
                                JsonValue::Str(t) => {
                                    &&& ok_null(eff.result)
                                    &&& eff.events@.len() == 0
                                    &&& if old(reg).windows_map().dom().contains(id) {
                                        &&& final(reg).windows_map().dom() == old(reg).windows_map().dom()
                                        &&& final(reg).windows_map()[id].title@ == t@
                                        &&& final(reg).windows_map()[id].labels == old(reg).windows_map()[id].labels
                                        &&& final(reg).windows_map()[id].visible == old(reg).windows_map()[id].visible
                                        &&& forall|k: u32|
                                            k != id && old(reg).windows_map().dom().contains(k)
                                                ==> final(reg).windows_map()[k] == old(reg).windows_map()[k]
                                        &&& eff.actions@.len() == 1
                                        &&& eff.actions@[0] matches NativeAction::SetTitle {
                                            window_id: aw,
                                            title: at,
                                        } && aw == id && at@ == t@
                                    } else {
                                        final(reg).windows_map() == old(reg).windows_map()
                                            && eff.actions@.len() == 0
                                    }
                                },
                                _ => fails_with(eff, "Title must be a string"@) && final(reg).windows_map() == old(reg).windows_map(),
                            }
                        }
                    } else {
                        fails_with(eff, "Window ID must be a number"@) && final(reg).windows_map()
                            == old(reg).windows_map()
                    },
                    _ => fails_with(eff, "Window ID must be a number"@) && final(reg).windows_map() == old(reg).windows_map(),
                }
            }
        }),
{
    if command.args.len() == 0 {
        return effects(InvokeResult::error("Window ID not provided"));
    }
    let id = match window_id_arg(&command.args[0]) {
        Some(id) => id,
        None => {
            return effects(InvokeResult::error("Window ID must be a number"));
        },
    };
    if command.args.len() < 2 {
        return effects(InvokeResult::error("Title not provided"));
    }
    let title = match command.args[1].as_str() {
        Some(t) => t.clone(),
        None => {
            return effects(InvokeResult::error("Title must be a string"));
        },
    };
    let surface_title = title.clone();
    let found = reg.set_window_title(id, title);
    let mut actions: Vec<NativeAction> = Vec::new();
    if found {
        actions.push(NativeAction::SetTitle { window_id: id, title: surface_title });
    }
    CommandEffects {
        result: InvokeResult::json(JsonValue::Null),
        actions,
        events: Vec::new(),
    }
}

/// `window.get_title`: the title of the designated window, or an error when
/// the id names none — the caller expects a value.
pub fn window_get_title(command: InvokeCommand, reg: &Registry) -> (eff: CommandEffects)
    requires
        reg.inv(),
    ensures
        ({
            let args = command.args@;
            if args.len() == 0 {
                fails_with(eff, "Window ID not provided"@)
            } else {
                match args[0] {
                    JsonValue::Int(v) => if v >= 0 {
                        let id = spec_window_id(v);
                        if reg.windows_map().dom().contains(id) {
                            &&& eff.result matches InvokeResult::Success(
                                InvokeResultData::Json(JsonValue::Str(t)),
                            ) && t@ == reg.windows_map()[id].title@
                            &&& eff.actions@.len() == 0
                            &&& eff.events@.len() == 0
                        } else {
                            fails_with(eff, "Window not found"@)
                        }
                    } else {
                        fails_with(eff, "Window ID must be a number"@)
                    },
                    _ => fails_with(eff, "Window ID must be a number"@),
                }
            }
        }),
{
    if command.args.len() == 0 {
        return effects(InvokeResult::error("Window ID not provided"));
    }
    let id = match window_id_arg(&command.args[0]) {
        Some(id) => id,
        None => {
            return effects(InvokeResult::error("Window ID must be a number"));
        },
    };
    match reg.lookup_window(id) {
        Some(window) => effects(InvokeResult::json(JsonValue::Str(window.title.clone()))),
        None => effects(InvokeResult::error("Window not found")),
    }
}

/// `window.set_visible`: shows or hides the designated window; an id with no
/// window is a silent no-op.
pub fn window_set_visible(command: InvokeCommand, reg: &mut Registry) -> (eff: CommandEffects)
    requires
        old(reg).inv(),
    ensures
        final(reg).inv(),
        same_except_windows(*final(reg), *old(reg)),
        ({
            let args = command.args@;
            if args.len() == 0 {
                fails_with(eff, "Window ID not provided"@) && final(reg).windows_map() == old(reg).windows_map()
            } else {
                match args[0] {
                    JsonValue::Int(v) => if v >= 0 {
                        let id = spec_window_id(v);
                        if args.len() < 2 {
                            fails_with(eff, "Visible not provided"@) && final(reg).windows_map()
                                == old(reg).windows_map()
                        } else {
                            match args[1] {
                                JsonValue::Bool(visible) => {
                                    &&& ok_null(eff.result)
                                    &&& eff.events@.len() == 0
                                    &&& if old(reg).windows_map().dom().contains(id) {
                                        &&& final(reg).windows_map().dom() == old(reg).windows_map().dom()
                                        &&& final(reg).windows_map()[id].visible == visible
                                        &&& final(reg).windows_map()[id].title == old(reg).windows_map()[id].title
                                        &&& forall|k: u32|
                                            k != id && old(reg).windows_map().dom().contains(k)
                                                ==> final(reg).windows_map()[k] == old(reg).windows_map()[k]
                                        &&& eff.actions@.len() == 1
                                        &&& eff.actions@[0] == (NativeAction::SetVisible {
                                            window_id: id,
                                            visible,
                                        })
                                    } else {
                                        final(reg).windows_map() == old(reg).windows_map()
                                            && eff.actions@.len() == 0
                                    }
                                },
                                _ => fails_with(eff, "Visible must be a boolean"@) && final(reg).windows_map() == old(reg).windows_map(),
                            }
                        }
                    } else {
                        fails_with(eff, "Window ID must be a number"@) && final(reg).windows_map()
                            == old(reg).windows_map()
                    },
                    _ => fails_with(eff, "Window ID must be a number"@) && final(reg).windows_map() == old(reg).windows_map(),
                }
            }
        }),
{
    if command.args.len() == 0 {
        return effects(InvokeResult::error("Window ID not provided"));
    }
    let id = match window_id_arg(&command.args[0]) {
        Some(id) => id,
        None => {
            return effects(InvokeResult::error("Window ID must be a number"));
        },
    };
    if command.args.len() < 2 {
        return effects(InvokeResult::error("Visible not provided"));
    }
    let visible = match command.args[1].as_bool() {
        Some(b) => b,
        None => {
            return effects(InvokeResult::error("Visible must be a boolean"));
        },
    };
    let found = reg.set_window_visible(id, visible);
    let mut actions: Vec<NativeAction> = Vec::new();
    if found {
        actions.push(NativeAction::SetVisible { window_id: id, visible });
    }
    CommandEffects {
        result: InvokeResult::json(JsonValue::Null),
        actions,
        events: Vec::new(),
    }
}

/// `window.close`: removes the designated window from the registry — all
/// windows when it is the main one — and closes its surface; an id with no
/// window is a silent no-op.
pub fn window_close(command: InvokeCommand, reg: &mut Registry) -> (eff: CommandEffects)
    requires
        old(reg).inv(),
    ensures
        final(reg).inv(),
        same_except_windows(*final(reg), *old(reg)),
        ({
            let args = command.args@;
            if args.len() == 0 {
                fails_with(eff, "Window ID not provided"@) && final(reg).windows_map() == old(reg).windows_map()
            } else {
                match args[0] {
                    JsonValue::Int(v) => if v >= 0 {
                        let id = spec_window_id(v);
                        &&& ok_null(eff.result)
                        &&& eff.events@.len() == 0
                        &&& if old(reg).windows_map().dom().contains(id) {
                            &&& (old(reg).main_id() == Some(id) ==> final(reg).windows_map()
                                == Map::<u32, crate::window::WindowData>::empty())
                            &&& (old(reg).main_id() != Some(id) ==> final(reg).windows_map()
                                == old(reg).windows_map().remove(id))
                            &&& eff.actions@.len() == 1
                            &&& eff.actions@[0] == (NativeAction::CloseSurface { window_id: id })
                        } else {
                            final(reg).windows_map() == old(reg).windows_map()
                                && eff.actions@.len() == 0
                        }
                    } else {
                        fails_with(eff, "Window ID must be a number"@) && final(reg).windows_map()
                            == old(reg).windows_map()
                    },
                    _ => fails_with(eff, "Window ID must be a number"@) && final(reg).windows_map() == old(reg).windows_map(),
                }
            }
        }),
{
    if command.args.len() == 0 {
        return effects(InvokeResult::error("Window ID not provided"));
    }
    let id = match window_id_arg(&command.args[0]) {
        Some(id) => id,
        None => {
            return effects(InvokeResult::error("Window ID must be a number"));
        },
    };
    let found = reg.has_window(id);
    let mut actions: Vec<NativeAction> = Vec::new();
    if found {
        reg.unregister_window(id);
        actions.push(NativeAction::CloseSurface { window_id: id });
    }
    CommandEffects {
        result: InvokeResult::json(JsonValue::Null),
        actions,
        events: Vec::new(),
    }
}

/// `window.emit_label`: sends the named event with an optional payload to
/// every window carrying the given label. The recipient set is the snapshot
/// of matching windows at call time.
pub fn window_emit_label(command: InvokeCommand, reg: &Registry) -> (eff: CommandEffects)
    requires
        reg.inv(),
    ensures
        ({
            let args = command.args@;
            if args.len() == 0 {
                fails_with(eff, "Label not provided"@)
            } else {
                match args[0] {
                    JsonValue::Str(label) => if args.len() < 2 {
                        fails_with(eff, "Event not provided"@)
                    } else {
                        match args[1] {
                            JsonValue::Str(event_name) => {
                                &&& ok_null(eff.result)
                                &&& eff.actions@.len() == 0
                                &&& eff.events@.len() == 1
                                &&& eff.events@[0] matches AppWindowEvent::Event {
                                    name: n,
                                    payload: p,
                                    target: t,
                                } && n@ == event_name@ && (if args.len() > 2 {
                                    p == args[2]
                                } else {
                                    p == JsonValue::Null
                                }) && (forall|i: int|
                                    0 <= i < t@.len() ==> reg.windows_map().dom().contains(
                                        #[trigger] t@[i],
                                    ) && reg.windows_map()[t@[i]].spec_has_label(label@)) && (
                                forall|id: u32|
                                    reg.windows_map().dom().contains(id) && (
                                    #[trigger] reg.windows_map()[id]).spec_has_label(label@)
                                        ==> t@.contains(id)) && (forall|i: int, j: int|
                                    0 <= i < j < t@.len() ==> t@[i] != t@[j])
                            },
                            _ => fails_with(eff, "Event must be a string"@),
                        }
                    },
                    _ => fails_with(eff, "Label must be a string"@),
                }
            }
        }),
{
    if command.args.len() == 0 {
        return effects(InvokeResult::error("Label not provided"));
    }
    let label = match command.args[0].as_str() {
        Some(s) => s.clone(),
        None => {
            return effects(InvokeResult::error("Label must be a string"));
        },
    };
    if command.args.len() < 2 {
        return effects(InvokeResult::error("Event not provided"));
    }
    let event_name = match command.args[1].as_str() {
        Some(s) => s.clone(),
        None => {
            return effects(InvokeResult::error("Event must be a string"));
        },
    };
    let mut args = command.args;
    let payload = if args.len() > 2 {
        args.remove(2)
    } else {
        JsonValue::Null
    };
    let target = reg.lookup_windows_by_label(label.as_str());
    let event = AppWindowEvent::Event { name: event_name, payload, target };
    let mut events: Vec<AppWindowEvent> = Vec::new();
    events.push(event);
    CommandEffects { result: InvokeResult::json(JsonValue::Null), actions: Vec::new(), events }
}

/// `window.emit_all`: sends the named event with an optional payload to the
/// snapshot of all registered windows.
pub fn window_emit_all(command: InvokeCommand, reg: &Registry) -> (eff: CommandEffects)
    requires
        reg.inv(),
    ensures
        ({
            let args = command.args@;
            if args.len() == 0 {
                fails_with(eff, "Event not provided"@)
            } else {
                match args[0] {
                    JsonValue::Str(event_name) => {
                        &&& ok_null(eff.result)
                        &&& eff.actions@.len() == 0
                        &&& eff.events@.len() == 1
                        &&& eff.events@[0] matches AppWindowEvent::Event {
                            name: n,
                            payload: p,
                            target: t,
                        } && n@ == event_name@ && (if args.len() > 1 {
                            p == args[1]
                        } else {
                            p == JsonValue::Null
                        }) && (forall|id: u32|
                            t@.contains(id) <==> reg.windows_map().dom().contains(id)) && (forall|
                            i: int,
                            j: int,
                        |
                            0 <= i < j < t@.len() ==> t@[i] != t@[j])
                    },
                    _ => fails_with(eff, "Event must be a string"@),
                }
            }
        }),
{
    if command.args.len() == 0 {
        return effects(InvokeResult::error("Event not provided"));
    }
    let event_name = match command.args[0].as_str() {
        Some(s) => s.clone(),
        None => {
            return effects(InvokeResult::error("Event must be a string"));
        },
    };
    let mut args = command.args;
    let payload = if args.len() > 1 {
        args.remove(1)
    } else {
        JsonValue::Null
    };
    let event = reg.broadcast(event_name.as_str(), payload);
    let mut events: Vec<AppWindowEvent> = Vec::new();
    events.push(event);
    CommandEffects { result: InvokeResult::json(JsonValue::Null), actions: Vec::new(), events }
}

/// `window.get_all`: the ids of every registered window, as a JSON array of
/// integers without repeats.
pub fn window_get_all(_command: InvokeCommand, reg: &Registry) -> (eff: CommandEffects)
    requires
        reg.inv(),
    ensures
        eff.actions@.len() == 0,
        eff.events@.len() == 0,
        eff.result matches InvokeResult::Success(InvokeResultData::Json(JsonValue::Arr(items)))
            && (forall|i: int|
            0 <= i < items@.len() ==> ((#[trigger] items@[i]) matches JsonValue::Int(v) && 0 <= v
                < 0x1_0000_0000 && reg.windows_map().dom().contains(v as u32))) && (forall|id: u32|
            reg.windows_map().dom().contains(id) ==> items@.contains(JsonValue::Int(id as i64)))
            && (forall|i: int, j: int| 0 <= i < j < items@.len() ==> items@[i] != items@[j]),
{
    let ids = reg.window_ids();
    let items = ids_as_json(ids);
    proof {
        let idseq = ids@;
        assert forall|i: int| 0 <= i < items@.len() implies ((#[trigger] items@[i])
            matches JsonValue::Int(v) && 0 <= v < 0x1_0000_0000
            && reg.windows_map().dom().contains(v as u32)) by {
            assert(items@[i] == JsonValue::Int(idseq[i] as i64));
            assert(idseq.contains(idseq[i]));
            assert((idseq[i] as i64) as u32 == idseq[i]);
        }
        assert forall|id: u32| reg.windows_map().dom().contains(id) implies items@.contains(
            JsonValue::Int(id as i64),
        ) by {
            assert(idseq.contains(id));
            let a = choose|a: int| 0 <= a < idseq.len() && idseq[a] == id;
            assert(items@[a] == JsonValue::Int(id as i64));
        }
        assert forall|i: int, j: int| 0 <= i < j < items@.len() implies items@[i] != items@[j] by {
            assert(items@[i] == JsonValue::Int(idseq[i] as i64));
            assert(items@[j] == JsonValue::Int(idseq[j] as i64));
            assert(idseq[i] != idseq[j]);
        }
    }
    effects(InvokeResult::json(JsonValue::Arr(items)))
}

/// `window.get_by_label`: the ids of every window carrying the given label,
/// as a JSON array of integers without repeats.
pub fn window_get_by_label(command: InvokeCommand, reg: &Registry) -> (eff: CommandEffects)
    requires
        reg.inv(),
    ensures
        ({
            let args = command.args@;
            if args.len() == 0 {
                fails_with(eff, "Label not provided"@)
            } else {
                match args[0] {
                    JsonValue::Str(label) => {
                        &&& eff.actions@.len() == 0
                        &&& eff.events@.len() == 0
                        &&& eff.result matches InvokeResult::Success(
                            InvokeResultData::Json(JsonValue::Arr(items)),
                        ) && (forall|i: int|
                            0 <= i < items@.len() ==> ((#[trigger] items@[i]) matches JsonValue::Int(
                                v,
                            ) && 0 <= v < 0x1_0000_0000 && reg.windows_map().dom().contains(
                                v as u32,
                            ) && reg.windows_map()[v as u32].spec_has_label(label@))) && (forall|
                            id: u32,
                        |
                            reg.windows_map().dom().contains(id) && (
                            #[trigger] reg.windows_map()[id]).spec_has_label(label@)
                                ==> items@.contains(JsonValue::Int(id as i64))) && (forall|
                            i: int,
                            j: int,
                        |
                            0 <= i < j < items@.len() ==> items@[i] != items@[j])
                    },
                    _ => fails_with(eff, "Label must be a string"@),
                }
            }
        }),
{
    if command.args.len() == 0 {
        return effects(InvokeResult::error("Label not provided"));
    }
    let label = match command.args[0].as_str() {
        Some(s) => s.clone(),
        None => {
            return effects(InvokeResult::error("Label must be a string"));
        },
    };
    let ids = reg.lookup_windows_by_label(label.as_str());
    let items = ids_as_json(ids);
    proof {
        let idseq = ids@;
        assert forall|i: int| 0 <= i < items@.len() implies ((#[trigger] items@[i])
            matches JsonValue::Int(v) && 0 <= v < 0x1_0000_0000
            && reg.windows_map().dom().contains(v as u32) && reg.windows_map()[v as u32].spec_has_label(label@)) by {
            assert(items@[i] == JsonValue::Int(idseq[i] as i64));
            assert(reg.windows_map().dom().contains(idseq[i]));
            assert((idseq[i] as i64) as u32 == idseq[i]);
        }
        assert forall|id: u32|
            reg.windows_map().dom().contains(id) && (#[trigger] reg.windows_map()[id]).spec_has_label(label@) implies items@.contains(JsonValue::Int(id as i64)) by {
            assert(idseq.contains(id));
            let a = choose|a: int| 0 <= a < idseq.len() && idseq[a] == id;
            assert(items@[a] == JsonValue::Int(id as i64));
        }
        assert forall|i: int, j: int| 0 <= i < j < items@.len() implies items@[i] != items@[j] by {
            assert(items@[i] == JsonValue::Int(idseq[i] as i64));
            assert(items@[j] == JsonValue::Int(idseq[j] as i64));
            assert(idseq[i] != idseq[j]);
        }
    }
    effects(InvokeResult::json(JsonValue::Arr(items)))
}

/// The ids as JSON integers, in order.
fn ids_as_json(ids: Vec<u32>) -> (items: Vec<JsonValue>)
    ensures
        items@.len() == ids@.len(),
        forall|i: int| 0 <= i < ids@.len() ==> items@[i] == JsonValue::Int(ids@[i] as i64),
{
    let n = ids.len();
    let mut items: Vec<JsonValue> = Vec::new();
    let mut i: usize = 0;
    while i < n
        invariant
            i <= n,
            n == ids@.len(),
            items@.len() == i,
            forall|j: int| 0 <= j < i ==> items@[j] == JsonValue::Int(ids@[j] as i64),
        decreases n - i,
    {
        items.push(JsonValue::Int(ids[i] as i64));
        i = i + 1;
    }
    items
}

/// Registers the window commands in the registry's handler table, each under
/// its method name.
pub fn apply(reg: &mut Registry)
    requires
        old(reg).inv(),
    ensures
        final(reg).inv(),
        final(reg).handler_map() == old(reg).handler_map().insert(
            "window.emit_label"@,
            HandlerKind::Builtin(WindowCommand::EmitLabel),
        ).insert("window.emit_all"@, HandlerKind::Builtin(WindowCommand::EmitAll)).insert(
            "window.get_all"@,
            HandlerKind::Builtin(WindowCommand::GetAll),
        ).insert("window.get_by_label"@, HandlerKind::Builtin(WindowCommand::GetByLabel)).insert(
            "window.set_visible"@,
            HandlerKind::Builtin(WindowCommand::SetVisible),
        ).insert("window.close"@, HandlerKind::Builtin(WindowCommand::CloseWindow)).insert(
            "window.get_title"@,
            HandlerKind::Builtin(WindowCommand::GetTitle),
        ).insert("window.set_title"@, HandlerKind::Builtin(WindowCommand::SetTitle)),
        final(reg).windows_map() == old(reg).windows_map(),
        final(reg).main_id() == old(reg).main_id(),
        final(reg).mounts_map() == old(reg).mounts_map(),
        final(reg).imports_map() == old(reg).imports_map(),
{
    reg.add_invoke_handler("window.emit_label", HandlerKind::Builtin(WindowCommand::EmitLabel));
    reg.add_invoke_handler("window.emit_all", HandlerKind::Builtin(WindowCommand::EmitAll));
    reg.add_invoke_handler("window.get_all", HandlerKind::Builtin(WindowCommand::GetAll));
    reg.add_invoke_handler("window.get_by_label", HandlerKind::Builtin(WindowCommand::GetByLabel));
    reg.add_invoke_handler("window.set_visible", HandlerKind::Builtin(WindowCommand::SetVisible));
    reg.add_invoke_handler("window.close", HandlerKind::Builtin(WindowCommand::CloseWindow));
    reg.add_invoke_handler("window.get_title", HandlerKind::Builtin(WindowCommand::GetTitle));
    reg.add_invoke_handler("window.set_title", HandlerKind::Builtin(WindowCommand::SetTitle));
}

/// `fs.read` argument validation: the path must be given as a string and be
/// non-empty once trimmed of surrounding whitespace; the trimmed path is
/// handed back for the embedder's file read.
pub fn fs_read_request(args: &Vec<JsonValue>) -> (r: Result<String, InvokeResult>)
    ensures
        ({
            let a = args@;
            if a.len() == 0 {
                r matches Err(e) && e matches InvokeResult::Failure(m) && m@ == "Path is required"@
            } else {
                match a[0] {
                    JsonValue::Str(p) => if trimmed(p@).len() == 0 {
                        r matches Err(e) && e matches InvokeResult::Failure(m) && m@
                            == "Path cannot be empty"@
                    } else {
                        r matches Ok(path) && path@ == trimmed(p@)
                    },
                    _ => r matches Err(e) && e matches InvokeResult::Failure(m) && m@
                        == "Path must be a string"@,
                }
            }
        }),
{
    if args.len() == 0 {
        return Err(InvokeResult::error("Path is required"));
    }
    let path = match args[0].as_str() {
        Some(p) => crate::text::trim_spaces(p.as_str()),
        None => {
            return Err(InvokeResult::error("Path must be a string"));
        },
    };
    if path.as_str().unicode_len() == 0 {
        return Err(InvokeResult::error("Path cannot be empty"));
    }
    Ok(path)
}

/// `fs.read` completion: the bytes read become a binary success; a failed
/// read reports that the file was not found.
pub fn fs_read_complete(content: Option<Vec<u8>>) -> (r: InvokeResult)
    ensures
        match content {
            Some(bytes) => r == InvokeResult::Success(InvokeResultData::Binary(bytes)),
            None => r matches InvokeResult::Failure(m) && m@ == "File not found!"@,
        },
{
    match content {
        Some(bytes) => InvokeResult::binary(bytes),
        None => InvokeResult::error("File not found!"),
    }
}

/// How the embedder's attempt to write the file ended.
pub enum FsWriteOutcome {
    Written,
    CreateFailed,
    WriteFailed(String),
}

/// `fs.write` argument validation: a filename and a content string.
pub fn fs_write_request(args: &Vec<JsonValue>) -> (r: Result<(String, String), InvokeResult>)
    ensures
        ({
            let a = args@;
            if a.len() == 0 || !(a[0] matches JsonValue::Str(_)) {
                r matches Err(e) && e matches InvokeResult::Failure(m) && m@ == "Invalid filename"@
            } else if a.len() < 2 || !(a[1] matches JsonValue::Str(_)) {
                r matches Err(e) && e matches InvokeResult::Failure(m) && m@ == "Invalid content"@
            } else {
                match (a[0], a[1]) {
                    (JsonValue::Str(f), JsonValue::Str(c)) => r matches Ok(pair) && pair.0@ == f@
                        && pair.1@ == c@,
                    _ => false,
                }
            }
        }),
{
    if args.len() == 0 {
        return Err(InvokeResult::error("Invalid filename"));
    }
    let filename = match args[0].as_str() {
        Some(f) => f.clone(),
        None => {
            return Err(InvokeResult::error("Invalid filename"));
        },
    };
    if args.len() < 2 {
        return Err(InvokeResult::error("Invalid content"));
    }
    let content = match args[1].as_str() {
        Some(c) => c.clone(),
        None => {
            return Err(InvokeResult::error("Invalid content"));
        },
    };
    Ok((filename, content))
}

/// `fs.write` completion: success becomes the JSON `null`; a file that could
/// not be created or written becomes the matching error.
pub fn fs_write_complete(outcome: FsWriteOutcome) -> (r: InvokeResult)
    ensures
        match outcome {
            FsWriteOutcome::Written => ok_null(r),
            FsWriteOutcome::CreateFailed => r matches InvokeResult::Failure(m) && m@
                == "Failed to write file"@,
            FsWriteOutcome::WriteFailed(e) => r matches InvokeResult::Failure(m) && m@ == e@,
        },
{
    match outcome {
        FsWriteOutcome::Written => InvokeResult::json(JsonValue::Null),
        FsWriteOutcome::CreateFailed => InvokeResult::error("Failed to write file"),
        FsWriteOutcome::WriteFailed(e) => InvokeResult::Failure(e),
    }
}

} // verus!
