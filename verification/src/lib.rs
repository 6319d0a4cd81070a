//! Core of a quick-launch palette: a uniform item model over heterogeneous
//! launcher entries, a fuzzy-filtering pipeline that can run off the
//! interactive thread, sectioned and grid-shaped selection controllers, and
//! the multi-mode state machine that routes navigation and confirmation.
//!
//! Rendering, keybinding wiring, process launching, compositor and clipboard
//! I/O are outside collaborators; this crate decides what is shown, in what
//! order, and which entry is selected at any time.

pub mod clipboard;
pub mod color;
pub mod filter;
pub mod grid;
pub mod items;
pub mod launcher;
pub mod list;
pub mod search;
pub mod strutil;

