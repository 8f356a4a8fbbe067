//! Verified core of a keyboard-driven, multi-pane terminal file browser.
//!
//! The crate models the browser's state — an ordered collection of directory
//! panes, a selection per pane, a process-wide sort-reversal flag, and the
//! mark-then-confirm transfer workflow — and proves the invariants and laws
//! that govern it.  Everything that touches the terminal or the file system
//! lives outside this crate and exchanges plain values with it: directory
//! listings come in as entry vectors, and transfer decisions go out as
//! requests naming concrete source and destination paths.

pub mod controller;
pub mod entry;
pub mod fspath;
pub mod laws;
pub mod listing;
pub mod pane;
pub mod paneset;
pub mod transfer;
