//! The error every operation of the API answers with: an HTTP status and a
//! message for the caller.
use vstd::prelude::*;
use crate::text::own;

verus! {

pub const BAD_REQUEST: u16 = 400;
pub const UNAUTHORIZED: u16 = 401;
pub const FORBIDDEN: u16 = 403;
pub const NOT_FOUND: u16 = 404;
pub const CONFLICT: u16 = 409;
pub const INTERNAL_SERVER_ERROR: u16 = 500;
pub const BAD_GATEWAY: u16 = 502;

/// A status code and the message sent back as `{"error": ...}`.
#[derive(Debug)]
pub struct ApiError(pub u16, pub String);

impl ApiError {
    pub fn new(status: u16, msg: &str) -> (e: ApiError)
        ensures
            e.0 == status,
            e.1@ == msg@,
    {
        ApiError(status, own(msg))
    }

    pub fn bad_request(msg: &str) -> (e: ApiError)
        ensures
            e.0 == BAD_REQUEST,
            e.1@ == msg@,
    {
        ApiError(BAD_REQUEST, own(msg))
    }

    pub fn unauthorized(msg: &str) -> (e: ApiError)
        ensures
            e.0 == UNAUTHORIZED,
            e.1@ == msg@,
    {
        ApiError(UNAUTHORIZED, own(msg))
    }

    pub fn forbidden(msg: &str) -> (e: ApiError)
        ensures
            e.0 == FORBIDDEN,
            e.1@ == msg@,
    {
        ApiError(FORBIDDEN, own(msg))
    }

    pub fn not_found(msg: &str) -> (e: ApiError)
        ensures
            e.0 == NOT_FOUND,
            e.1@ == msg@,
    {
        ApiError(NOT_FOUND, own(msg))
    }

    pub fn conflict(msg: &str) -> (e: ApiError)
        ensures
            e.0 == CONFLICT,
            e.1@ == msg@,
    {
        ApiError(CONFLICT, own(msg))
    }

    pub fn internal(msg: &str) -> (e: ApiError)
        ensures
            e.0 == INTERNAL_SERVER_ERROR,
            e.1@ == msg@,
    {
        ApiError(INTERNAL_SERVER_ERROR, own(msg))
    }
}

} // verus!
