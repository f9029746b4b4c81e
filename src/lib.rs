//! Client-side logic for a download daemon: the wire codec of its JSON
//! protocol, the session-token renegotiation rules, and the quantization of
//! per-piece completion bitmaps into coloured progress-bar segments.

pub mod client;
pub mod config;
pub mod error;
pub mod glue;
pub mod json;
pub mod listing;
pub mod progress;
pub mod quantize;
pub mod status;
pub mod wire;
