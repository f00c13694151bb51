//! A minimal networked key-value store, split in two components:
//!
//! - [`store`] holds the backend: an in-memory map of string keys to string
//!   values, answering `Get` and `Set` under exclusive access.
//! - [`proxy`] holds the gateway: validation of incoming HTTP parameters,
//!   translation to the backend's request types, and construction of the
//!   HTTP responses, including their JSON bodies.
//!
//! The [`messages`] module carries the request and response types of the
//!   remote-procedure interface between the two, and [`json`] the JSON
//!   string encoding that the gateway's response bodies use.
//!
//! Transport concerns (the HTTP listener, TLS termination, the wire encoding
//! of the remote calls) live outside this crate; the functions here take and
//! return plain values and are verified against the contracts below.

pub mod json;
pub mod messages;
pub mod proxy;
pub mod store;
