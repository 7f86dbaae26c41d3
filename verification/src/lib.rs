//! Verified core of a screenshot-annotation daemon: the wire protocol
//! (length-prefixed JSON messages), request validation, path security
//! checks, per-window configuration merging, and the window-session
//! bookkeeping of the daemon's GUI-side drain loop.
//!
//! All I/O (sockets, filesystem reads, the GUI toolkit) lives outside this
//! crate; the functions here compute over plain values and state exactly
//! what they return.

pub mod codec;
pub mod command_line;
pub mod configuration;
pub mod daemon;
pub mod milli;
pub mod request_config;
pub mod protocol;
pub mod security;
pub mod tools;
pub mod wire;
