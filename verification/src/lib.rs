//! The decisions of a small command-line HTTP client: how its arguments are
//! read, what body a POST carries, and how a response is laid out for the
//! terminal. Everything here works on plain values; sending the request and
//! writing to the terminal are left to the caller.

pub mod body;
pub mod content;
pub mod decimal;
pub mod error;
pub mod highlight;
pub mod kv;
pub mod render;
pub mod request;
pub mod tint;
pub mod url;
