//! The textures property of a profile: base64 around a JSON document.
use base64::Engine;
use crate::models::TexturesDecoded;
use crate::reply::{is_error_reply, json_error, Reply};
use vstd::prelude::*;

verus! {

/// What `base64::prelude::BASE64_STANDARD.decode` gives for `input`:
/// the decoded bytes, or `None` when the input is not canonical padded
/// standard base64.
pub uninterp spec fn base64_standard_decode(input: Seq<u8>) -> Option<Seq<u8>>;

/// `BASE64_STANDARD.decode` (base64 crate, `Engine::decode`) with its error dropped.
/// The contract ties the result to `base64_standard_decode` of the input bytes and
/// says nothing more of what decoding computes.
#[verifier::external_body]
fn base64_decode_standard(input: &[u8]) -> (r: Option<Vec<u8>>)
    ensures
        r matches Some(v) ==> base64_standard_decode(input@) == Some(v@),
        r is None ==> base64_standard_decode(input@) is None,
{
    base64::prelude::BASE64_STANDARD.decode(input).ok()
}

/// Decodes the base64 textures value of a profile into the bytes of its JSON
/// document; a value that is not base64 is answered 502.
pub fn decode_textures_b64(base64_value: &str) -> (r: Result<Vec<u8>, Reply>)
    ensures
        base64_standard_decode(vstd::utf8::encode_utf8(base64_value@)) matches Some(d) ==> (r matches Ok(v) && v@ == d),
        base64_standard_decode(vstd::utf8::encode_utf8(base64_value@)) is None ==> (r matches Err(e)
            && is_error_reply(e, "failed to decode textures base64"@, 502)),
{
    match base64_decode_standard(base64_value.as_bytes()) {
        Some(d) => Ok(d),
        None => Err(json_error("failed to decode textures base64", 502)),
    }
}

/// The textures document parsed from the decoded JSON, or the answer when it
/// could not be parsed.
pub fn textures_from_json(parsed: Option<TexturesDecoded>) -> (r: Result<TexturesDecoded, Reply>)
    ensures
        parsed matches Some(t) ==> (r matches Ok(u) && u == t),
        parsed is None ==> (r matches Err(e) && is_error_reply(e, "failed to parse textures json"@, 502)),
{
    match parsed {
        Some(t) => Ok(t),
        None => Err(json_error("failed to parse textures json", 502)),
    }
}

} // verus!
