//! The exposed service operations, shared request plumbing first.

use vstd::prelude::*;

pub mod media;
pub mod media_subscription;

use crate::ids::{uuid_of, uuid_try_parse};
use crate::Error;

verus! {

/// A requested page.
#[derive(Clone, Copy, Debug, PartialEq, Eq, Structural)]
pub struct PaginationRequest {
    pub page: u32,
    pub size: u32,
}

/// The page actually served, with the total number of matches.
#[derive(Clone, Copy, Debug, PartialEq, Eq, Structural)]
pub struct PaginationResponse {
    pub page: u32,
    pub size: u32,
    pub total_elements: u32,
}

/// Parses an identifier given as a UUID string.
///
/// Fails with `InvalidArgument` exactly when the string is not a UUID.
pub fn parse_uuid(uuid_string: &str) -> (r: Result<u128, Error>)
    ensures
        match r {
            Ok(v) => uuid_of(uuid_string@) == Some(v),
            Err(e) => e == Error::InvalidArgument && uuid_of(uuid_string@) is None,
        },
{
    match uuid_try_parse(uuid_string) {
        Some(v) => Ok(v),
        None => Err(Error::InvalidArgument),
    }
}

/// Parses an optional identifier; an absent one stays absent.
pub fn parse_optional_uuid(uuid_string: &Option<String>) -> (r: Result<Option<u128>, Error>)
    ensures
        match r {
            Ok(v) => match uuid_string {
                Some(s) => uuid_of(s@) is Some && v == uuid_of(s@),
                None => v is None,
            },
            Err(e) => e == Error::InvalidArgument && (uuid_string matches Some(s) && uuid_of(s@)
                is None),
        },
{
    match uuid_string {
        Some(s) => {
            let v = parse_uuid(s.as_str())?;
            Ok(Some(v))
        },
        None => Ok(None),
    }
}

/// Turns a pagination request into a row limit and offset, with the
/// response skeleton echoing the page served. Without a request, the
/// first page of ten rows is served.
///
/// Fails with `InvalidArgument` exactly when the requested page is zero.
pub fn get_limit_offset_from_pagination(request: &Option<PaginationRequest>) -> (r: Result<
    (u32, u64, PaginationResponse),
    Error,
>)
    ensures
        match r {
            Ok((limit, offset, p)) => match request {
                Some(req) => {
                    &&& req.page >= 1
                    &&& limit == req.size
                    &&& offset == (req.page - 1) as u64 * req.size as u64
                    &&& p == (PaginationResponse { page: req.page, size: req.size, total_elements: 0 })
                },
                None => {
                    &&& limit == 10u32
                    &&& offset == 0u64
                    &&& p == (PaginationResponse { page: 1u32, size: 10u32, total_elements: 0 })
                },
            },
            Err(e) => e == Error::InvalidArgument && (request matches Some(req) && req.page < 1),
        },
{
    match request {
        Some(req) => {
            if req.page < 1 {
                return Err(Error::InvalidArgument);
            }
            let p64: u64 = (req.page - 1) as u64;
            let s64: u64 = req.size as u64;
            proof {
                assert(p64 * s64 <= (u32::MAX as u64) * (u32::MAX as u64)) by (nonlinear_arith)
                    requires
                        p64 <= u32::MAX as u64,
                        s64 <= u32::MAX as u64,
                ;
            }
            let offset: u64 = p64 * s64;
            Ok(
                (
                    req.size,
                    offset,
                    PaginationResponse { page: req.page, size: req.size, total_elements: 0 },
                ),
            )
        },
        None => Ok((10, 0, PaginationResponse { page: 1, size: 10, total_elements: 0 })),
    }
}

} // verus!
