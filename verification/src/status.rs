//! The status codes that the gateway answers with.

use vstd::prelude::*;

verus! {

/// A response that carries a payload.
pub const STATUS_OK: u16 = 200;

/// A path that no frontend route claims.
pub const STATUS_BAD_REQUEST: u16 = 400;

/// No acceptable wire format could be negotiated.
pub const STATUS_NOT_ACCEPTABLE: u16 = 406;

/// The frontend did not answer in time.
pub const STATUS_REQUEST_TIMEOUT: u16 = 408;

/// A payload could not be decoded or encoded, or a signal was dropped
/// without an answer.
pub const STATUS_INTERNAL_SERVER_ERROR: u16 = 500;

} // verus!
