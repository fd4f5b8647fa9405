//! Routing rules of a header-driven multiplexing reverse proxy.
//!
//! The proxy fronts a pool of workspaces on one host. Every request names its
//! upstream itself: a port header, an optional workspace header, or the
//! first label of `Host`. The functions here decide where a request goes, in
//! which of three ways it is carried (plain HTTP, an upgrade, a `CONNECT`
//! tunnel), which headers may cross the proxy, and which listen addresses are
//! bound. They do no I/O: whoever runs the listeners performs what they
//! decide.
//!
//! The modules `headers`, `method` and `uri` state what this library takes
//! for granted of the `http` crate; everything else is proved from that.

pub mod ascii;
pub mod classify;
pub mod config;
pub mod forward;
pub mod headers;
pub mod hop;
pub mod listen;
pub mod method;
pub mod net;
pub mod routing;
pub mod tunnel;
pub mod uri;
pub mod workspace;

pub use config::ProxyConfig;
pub use workspace::workspace_ip_from_name;
