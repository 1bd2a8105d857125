//! Synchronization core of an editor side panel that mirrors the host
//! editor's buffer list and sizes the pane that holds it.
//!
//! The crate holds the decisions only: reading a raw buffer listing,
//! diffing it against the rendered list, sizing the pane, and routing host
//! notifications. Talking to the editor and to the widget toolkit is left
//! to the embedding application, which feeds events in and performs the
//! actions that come back.

pub mod command;
pub mod diff;
pub mod dispatch;
pub mod entry;
pub mod error;
pub mod label;
pub mod pane;
pub mod raw;
pub mod reader;
pub mod rows;
pub mod subscription;
