//! The protocol core of a small HTTP/1.1 server: reading a request from a
//! byte stream, building and serializing responses, and dispatching requests
//! to handlers through an ordered route table.

use vstd::prelude::*;

pub mod config;
pub mod http;
pub mod text;
pub mod request;
pub mod route;
pub mod routes;
pub mod server;

verus! {

} // verus!
