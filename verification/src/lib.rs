//! Runtime core of a desktop application shell: an application registry that
//! owns windows, command handlers and resource mounts; an invoke protocol that
//! dispatches requests from hosted web content to registered handlers; a
//! resource resolver that serves mounted static content; and an extension host
//! that discovers, activates and deactivates content bundles.

pub mod assoc;
pub mod extension;
pub mod extension_host;
pub mod extension_scanner;
pub mod invoke;
pub mod json;
pub mod plugins;
pub mod registry;
pub mod resources;
pub mod state;
pub mod text;
pub mod window;
