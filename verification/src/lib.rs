//! Core logic of a cookie-aware fetch facility for a sandboxed front-end:
//! a URL-scope allowlist, per-client cookie jars and redirect policies,
//! a pool of clients that are reset between uses, request/response
//! translation, and a poll-driven session broker that turns one HTTP
//! exchange into a pair of bounded, chunked byte channels.
//!
//! The HTTP transport itself, and the host wiring around it, live outside
//! this crate; everything here is the decision logic that drives them.

pub mod client;
pub mod cookies;
pub mod fetch;
pub mod headers;
pub mod ipc;
pub mod method;
pub mod redirect;
pub mod scope;
pub mod session;
pub mod text;
pub mod urlparse;
