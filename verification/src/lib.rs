//! Core of a small static-site blog server.
//!
//! The crate verifies the serving core: the request parsing and file
//! resolution done by the connection responder, the coordination model of
//! the fixed-size worker pool, and the state machine of the supervisor
//! that rebuilds the site and restarts the server on content changes.
//! The surrounding process (sockets, threads, the filesystem, and the
//! markdown-to-HTML site builder) lives outside this crate and exchanges
//! plain values with it.

pub mod bytes;
pub mod pool;
pub mod posts;
pub mod responder;
pub mod supervisor;
