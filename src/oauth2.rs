//! The bearer-token rule: which routes need a token, and whether a request
//! carries one.
use vstd::prelude::*;
use crate::paths::{any_route_match, route_requires_auth};
use crate::text::{all_ascii, ascii_lower, lower_of, starts_with, str_starts_with, to_lowercase};

verus! {

/// Whether some pattern of `protected_routes` matches `path`.
pub fn requires_auth(protected_routes: &[String], path: &str) -> (r: bool)
    ensures
        r == any_route_match(protected_routes@, path@),
{
    route_requires_auth(path, protected_routes)
}

/// Whether an already lowered `Authorization` value starts with `bearer `.
pub fn is_bearer_lowered(lowered: &str) -> (r: bool)
    ensures
        r == starts_with(lowered@, "bearer "@),
{
    str_starts_with(lowered, "bearer ")
}

/// Whether an `Authorization` value, lowered, starts with `bearer `.
pub fn has_bearer(auth_header: Option<&str>) -> (r: bool)
    ensures
        r == match auth_header {
            Some(v) => starts_with(lower_of(v@), "bearer "@),
            None => false,
        },
        auth_header is Some && all_ascii(auth_header->0@) ==> r == starts_with(
            ascii_lower(auth_header->0@),
            "bearer "@,
        ),
{
    match auth_header {
        Some(v) => {
            let lowered = to_lowercase(v);
            is_bearer_lowered(lowered.as_str())
        },
        None => false,
    }
}

} // verus!
