//! The HTTP status codes that the engine answers with.

use vstd::prelude::*;

verus! {

pub const OK: u16 = 200;

pub const CREATED: u16 = 201;

pub const NO_CONTENT: u16 = 204;

pub const MULTI_STATUS: u16 = 207;

pub const NOT_MODIFIED: u16 = 304;

pub const BAD_REQUEST: u16 = 400;

pub const FORBIDDEN: u16 = 403;

pub const NOT_FOUND: u16 = 404;

pub const METHOD_NOT_ALLOWED: u16 = 405;

pub const CONFLICT: u16 = 409;

pub const PRECONDITION_FAILED: u16 = 412;

pub const LOCKED: u16 = 423;

pub const FAILED_DEPENDENCY: u16 = 424;

pub const INTERNAL_SERVER_ERROR: u16 = 500;

pub const BAD_GATEWAY: u16 = 502;

pub const INSUFFICIENT_STORAGE: u16 = 507;

/// Whether `code` reports success (2xx).
pub open spec fn spec_is_success(code: u16) -> bool {
    200 <= code < 300
}

/// Whether `code` reports success.
pub fn is_success(code: u16) -> (r: bool)
    ensures
        r == spec_is_success(code),
{
    200 <= code && code < 300
}

} // verus!
