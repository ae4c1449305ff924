//! Verified core of a terminal viewer for the systemd journal.
//!
//! The modules hold the decisions the viewer makes: which journal entries
//! are shown, how a line of the log list is laid out, how the date input
//! boxes react to key strokes, and how keys move the focus between the
//! widgets.  Terminal drawing and journal access live outside this crate.
#![allow(non_camel_case_types)]

pub mod text;
pub mod keys;
pub mod human_time;
pub mod date_input;
pub mod number;
pub mod log_level;
pub mod journal;
pub mod line_format;
pub mod scan;
pub mod reader;
pub mod list_nav;
pub mod see_tui;
pub mod tui;
pub mod workspace;
