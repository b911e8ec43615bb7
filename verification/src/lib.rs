//! The request pipeline of a small HTTP/1.1 server: parsing a request from
//! its lines, choosing the handler for its path, and assembling the bytes of
//! the response, together with the bookkeeping of the worker pool that runs
//! the connections.

pub mod http_request;
pub mod response;
pub mod route_handler;
pub mod text;
pub mod thread_pool;
