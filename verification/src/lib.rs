//! A minimal static file server, as logic: configuration checks, request-line
//! parsing, path resolution, content types and response framing.
//!
//! Nothing in this crate touches a socket or the file system. The caller
//! reads and writes; this crate decides what is read and what is written.

pub mod config;
pub mod request;
pub mod response;
pub mod server;
pub mod text;

