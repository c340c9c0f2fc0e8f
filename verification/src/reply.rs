//! The answers the service gives, as plain values.
use crate::models::{CalfResponse, ErrorResponse, TextureData};
use vstd::prelude::*;

verus! {

/// The number of seconds for which successful answers may be cached publicly.
pub const CACHE_MAX_AGE: u32 = 300;

/// The media type of a binary answer.
pub enum MediaType {
    /// `application/octet-stream`
    OctetStream,
    /// `image/png`
    Png,
}

/// A JSON answer body.
pub enum JsonBody {
    Error(ErrorResponse),
    Player(CalfResponse),
}

/// The body of an answer.
pub enum ReplyBody {
    /// Serialised as JSON, with media type `application/json`.
    Json(JsonBody),
    /// Raw bytes of the given media type.
    Binary(MediaType, Vec<u8>),
}

/// An HTTP answer: its status, its body, and whether it carries
/// `Cache-Control: public, max-age=N`.
pub struct Reply {
    pub status: u16,
    pub body: ReplyBody,
    pub cache_max_age: Option<u32>,
}

/// `r` is the JSON error answer with message `message` and status `status`.
pub open spec fn is_error_reply(r: Reply, message: Seq<char>, status: u16) -> bool {
    &&& r.status == status
    &&& r.cache_max_age is None
    &&& r.body matches ReplyBody::Json(JsonBody::Error(e)) && e.error@ == message && e.status == status
}

/// `r` is a successful binary answer of media type `media` holding `bytes`.
pub open spec fn is_binary_reply(r: Reply, media: MediaType, bytes: Seq<u8>, cached: bool) -> bool {
    &&& r.status == 200
    &&& r.cache_max_age == (if cached { Some(CACHE_MAX_AGE) } else { None::<u32> })
    &&& r.body matches ReplyBody::Binary(m, b) && m == media && b@ == bytes
}

/// `r` is a JSON error answer of some message and status.
pub open spec fn is_some_error_reply(r: Reply) -> bool {
    r.body matches ReplyBody::Json(JsonBody::Error(e)) && e.status == r.status && r.cache_max_age is None
}

/// A JSON error answer carrying `message` and `status`, both in the body and as the status.
pub fn json_error(message: &str, status: u16) -> (r: Reply)
    ensures
        is_error_reply(r, message@, status),
{
    let body = ErrorResponse { error: message.to_owned(), status };
    Reply { status, body: ReplyBody::Json(JsonBody::Error(body)), cache_max_age: None }
}

/// The JSON answer describing a player, with the optional fields left out when absent.
pub fn build_json_response(uuid: Option<String>, username: Option<String>, textures: TextureData) -> (r: Reply)
    ensures
        r.status == 200,
        r.cache_max_age is None,
        r.body matches ReplyBody::Json(JsonBody::Player(p)) && p.uuid == uuid && p.username == username
            && p.textures == textures,
{
    Reply {
        status: 200,
        body: ReplyBody::Json(JsonBody::Player(CalfResponse { uuid, username, textures })),
        cache_max_age: None,
    }
}

impl Reply {
    /// The same answer, marked as publicly cacheable for `CACHE_MAX_AGE` seconds.
    pub fn cached(self) -> (r: Reply)
        ensures
            r.status == self.status,
            r.body == self.body,
            r.cache_max_age == Some(CACHE_MAX_AGE),
    {
        Reply { status: self.status, body: self.body, cache_max_age: Some(CACHE_MAX_AGE) }
    }
}

} // verus!
