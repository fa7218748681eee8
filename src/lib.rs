//! A client for a JSON-RPC monitoring API: request and response envelopes,
//! and a session that logs in once and then makes authenticated calls.
//! Sending the envelopes is left to the caller.

pub mod envelope;
pub mod error;
pub mod json;
pub mod session;

pub use envelope::{Request, Response};
pub use error::ApiError;
pub use json::Json;
pub use session::ZabbixApi;
