//! A small request dispatcher: a bounded pool of workers that serves one request
//! line per connection.
//!
//! The library holds the decisions; sockets, threads and files belong to the
//! program around it.
//!
//! - [`pool`]: the queue of jobs and the workers that drain it.
//! - [`acceptor`]: when to take another connection and when to stop.
//! - [`handler`]: what to do for a connection, from its first line to its response.
//! - [`request`]: the request line and the route it selects.
//! - [`response`]: the text of the responses.
//! - [`translation`]: the address of the translation service and the reading of its
//!   answer.
//! - [`text`]: searching and writing characters.

pub mod acceptor;
pub mod handler;
pub mod pool;
pub mod request;
pub mod response;
pub mod text;
pub mod translation;
