//! A JSON-RPC style application server core: typed requests are routed by
//! `namespace.operation` to handlers that read and write an in-memory
//! relational store, and answers come back in a response envelope.

mod clock;
pub mod config;
pub mod controller;
pub mod json_rpc;
pub mod model;
pub mod page;
pub mod router;
pub mod text;
pub mod token;
