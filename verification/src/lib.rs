//! Core of a supervisor for an external media-player process.
//!
//! The library models the three protocol-heavy pieces of the player frontend:
//! an escape-sequence decoder that turns a raw byte stream into discrete
//! terminal operations, a growable virtual terminal grid that applies those
//! operations, and a control-channel codec and bridge that encode outgoing
//! commands and decode incoming line-delimited JSON events. A thin process
//! supervisor state machine ties the pieces together; all real I/O (sockets,
//! pseudo-terminals, process handling) is performed by the embedding
//! application, which hands plain bytes and events in and takes encoded
//! commands and decisions out.

pub mod ansi_parser;
pub mod ansi_term;
pub mod ansi_term_buf;
pub mod bool_ext;
pub mod config;
pub mod ipc;
pub mod ipc_command;
pub mod ipc_property;
pub mod modal;
pub mod mpv_handler;
pub mod numfmt;
pub mod playlist;
pub mod rect_math;
pub mod str_ext;
pub mod strutil;
pub mod time_fmt;
pub mod tray;
