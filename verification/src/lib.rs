//! A minimal command-line HTTP client library: typed argument model,
//! request construction, and response rendering, with verified contracts.
//!
//! Network and terminal I/O live outside this crate; the library turns
//! raw argument strings into a validated [`args::Command`], builds the
//! request data (default headers, POST body pairs), and renders a
//! response's status line, headers and body for display.

pub mod args;
pub mod client;
pub mod error;
pub mod render;
