//! Request and response types of the remote-procedure interface between the
//! gateway and the store service: `Get(key) -> { value }` and
//! `Set(key, value) -> {}`.

use vstd::prelude::*;

verus! {

/// A request to look one key up in the store.
#[derive(Debug, PartialEq, Eq)]
pub struct GetRequest {
    pub key: String,
}

/// The reply to a [`GetRequest`]: the value bound to the key, or `None` when
/// the key is absent. Absence is a normal outcome, not a failure.
#[derive(Debug, PartialEq, Eq)]
pub struct GetResponse {
    pub value: Option<String>,
}

/// A request to bind a value to a key in the store, overwriting any earlier
/// binding of the same key.
#[derive(Debug, PartialEq, Eq)]
pub struct SetRequest {
    pub key: String,
    pub value: String,
}

/// The reply to a [`SetRequest`]: success carries no payload.
#[derive(Debug, PartialEq, Eq)]
pub struct SetResponse {}

} // verus!
