//! The client: its configuration, the decisions of a call, and streaming
//! calls. Moving bytes is left to the transport.

pub mod config;
pub mod call;
pub mod page_laws;
pub mod stream;
