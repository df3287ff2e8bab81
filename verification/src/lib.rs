//! Workspace identity and ordering engine for a tiling window manager
//! whose native workspaces are numbered slots.
//!
//! The library covers the logic of the tool: the identifier codec that
//! turns a raw `"index:title"` slot string into its parts and back, the
//! read-only queries over a snapshot of live workspaces, and the planner
//! that synthesizes the window-manager commands for each user action,
//! including promotion of the focused workspace and contiguous
//! renumbering of the whole set.  Talking to the window manager, the
//! interactive picker and the control socket is glue that lives outside
//! the library; it hands plain values in and takes command strings out.

pub mod codec;
pub mod plan;
pub mod strutil;
pub mod workspace;

pub use plan::go_to;
pub use plan::send_to;
