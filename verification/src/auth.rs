//! The API key check that guards every request.
use crate::reply::{is_error_reply, json_error, Reply};
use vstd::prelude::*;
use vstd::string::StringExecFns;

verus! {

/// The `Authorization` header value that the key `key` admits.
pub open spec fn bearer(key: Seq<char>) -> Seq<char> {
    "Bearer "@ + key
}

/// Decides whether a request may go on, given its `Authorization` header
/// (empty when absent) and the configured key (absent when the secret is missing).
/// `None` lets the request through; otherwise the answer to give.
pub fn check_auth(auth_header: &str, expected_key: Option<&str>) -> (r: Option<Reply>)
    ensures
        expected_key is None ==> (r matches Some(e) && is_error_reply(e, "missing auth key in secrets"@, 500)),
        expected_key matches Some(k) ==> (auth_header@ == bearer(k@) <==> r is None),
        expected_key matches Some(k) && auth_header@ != bearer(k@) ==> (r matches Some(e) && is_error_reply(e, "invalid api key"@, 401)),
{
    match expected_key {
        None => Some(json_error("missing auth key in secrets", 500)),
        Some(key) => {
            let mut expected = "Bearer ".to_owned();
            expected.append(key);
            let header = auth_header.to_owned();
            if header == expected {
                None
            } else {
                Some(json_error("invalid api key", 401))
            }
        },
    }
}

} // verus!
