//! A Gmail labelling assistant exposed as an MCP tool server.
//!
//! The verified library holds the decisions of the server: how a request
//! line is routed, how tool arguments are validated, how Gmail REST requests
//! are described, how the OAuth redirect is judged, and how label statistics
//! are counted and ranked.  Network and terminal I/O live in `app/`.
pub mod analysis;
pub mod auth;
pub mod catalog;
pub mod gmail;
pub mod model;
pub mod rank;
pub mod redirect;
pub mod rpc;
pub mod sampling;
pub mod search;
pub mod text;
pub mod tools;
