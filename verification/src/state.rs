//! The shell's application state beyond the registry: the extension host.

use vstd::prelude::*;

use crate::extension_host::ExtensionHost;

verus! {

/// Process-wide state that the registry's owner threads through the shell.
pub struct AppState {
    pub extension_host: ExtensionHost,
}

impl AppState {
    /// A state with no active extensions.
    pub fn new() -> (r: Self)
        ensures
            r.extension_host.inv(),
            r.extension_host.active_map() == Map::<Seq<char>, crate::extension::Extension>::empty(),
    {
        AppState { extension_host: ExtensionHost::new() }
    }
}

} // verus!
