//! Messaging: what the library itself says of requests and results on
//! their way to and from the broker.

use vstd::prelude::*;

pub use crate::hash::compute_msg_id;

verus! {

/// Where requests are sent.
#[derive(Debug, Clone)]
pub struct JsConfig {
    pub subject_req: String,
}

/// The outcome of an exchange with the broker.
#[derive(Debug, Clone)]
pub struct JsResult<T> {
    pub ok: bool,
    pub value: Option<T>,
    pub err: Option<String>,
}

/// The outcome of an exchange that could not take place, since the
/// library itself has no network.
pub fn network_disabled() -> (r: JsResult<()>)
    ensures
        !r.ok,
        r.value is None,
        r.err is Some,
        r.err->0@ == "network disabled"@,
{
    JsResult { ok: false, value: None, err: Some("network disabled".to_owned()) }
}

/// Sends a request. The library itself has no network: nothing is sent
/// and the outcome says so.
pub fn send_request(cfg: &JsConfig, bytes: &[u8]) -> (r: JsResult<()>)
    ensures
        !r.ok,
        r.value is None,
        r.err is Some,
        r.err->0@ == "network disabled"@,
{
    network_disabled()
}

/// Publishes a result. The library itself has no network: nothing is
/// published and the outcome says so.
pub fn publish_result(subject: &str, bytes: &[u8]) -> (r: JsResult<()>)
    ensures
        !r.ok,
        r.value is None,
        r.err is Some,
        r.err->0@ == "network disabled"@,
{
    network_disabled()
}

} // verus!
