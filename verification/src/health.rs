//! The liveness answer of the API.
use vstd::prelude::*;
use crate::version::CARGO_PKG_VERSION;

verus! {

#[derive(Debug, PartialEq)]
pub struct HealthResponse {
    pub status: String,
    pub version: String,
}

/// What the health endpoint answers: status `ok` and the package version.
pub fn health_response() -> (res: HealthResponse)
    ensures
        res.status@ == "ok"@,
        res.version@ == CARGO_PKG_VERSION@,
{
    HealthResponse { status: String::from_str("ok"), version: String::from_str(CARGO_PKG_VERSION) }
}

} // verus!
