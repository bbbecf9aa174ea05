//! Verified core of a small webhook dispatch server.
//!
//! The library covers the request-evaluation pipeline: turning raw header
//! lines into a request map, resolving command arguments from a request by a
//! small source-addressing language, matching recursive trigger rules
//! (value, regex, HMAC signatures, CIDR allow-lists), selecting a hook
//! configuration, and assembling wire-format HTTP responses.  Listening,
//! file handling and process spawning live outside the library and hand it
//! plain values.

pub mod arguments;
pub mod check;
pub mod command;
pub mod config;
pub mod errors;
pub mod json;
pub mod parser;
pub mod response;
pub mod rule;
pub mod strmap;
pub mod strutil;
