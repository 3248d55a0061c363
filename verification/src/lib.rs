//! A client library for an etcd-style hierarchical key/value store spoken to
//! over HTTP and JSON.
//!
//! The library builds requests and decodes responses; it performs no I/O of
//! its own. A caller asks [`EtcdClient`] for the [`Request`] of an
//! [`Operation`], sends it with the transport of its choice, and hands the
//! [`Response`] back to learn what the operation returns.

pub mod client;
pub mod etcd_error;
pub mod etcd_node;
pub mod etcd_result;
pub mod header;
pub mod json;
pub mod operation;
pub mod request;
pub mod text;

pub use client::{EtcdClient, Response};
pub use etcd_error::EtcdError;
pub use etcd_node::EtcdNode;
pub use etcd_result::EtcdResult;
pub use header::{Header, X_Etcd_Index, X_Raft_Index, X_Raft_Term};
pub use json::{JsonObject, JsonValue};
pub use operation::Operation;
pub use request::{AtomicOp, EtcdObject, Method, Param, Request};
