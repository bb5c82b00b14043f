//! Verified core of an OVH API command-line client.
//!
//! The library contains the logic that is worth proving: the request
//! signer, the construction of signed HTTP requests and their JSON
//! bodies, the DNS record reconciler, and the planner that turns a
//! reconciliation diff into the sequence of API actions to perform.
//! Network transport, configuration loading, argument parsing and
//! output rendering live outside the library and exchange plain
//! values with it.

pub mod apply;
pub mod auth;
pub mod fmt;
pub mod ip;
pub mod transport;
pub mod json;
pub mod laws;
pub mod num;
pub mod paths;
pub mod reconcile;
pub mod records;
pub mod resources;
pub mod signer;
pub mod strings;
