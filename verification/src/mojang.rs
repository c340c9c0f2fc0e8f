//! The Mojang services: where to ask, and what their answers mean.
use crate::models::{MojangSessionResponse, MojangUuidResponse, ProfileProperty};
use crate::reply::{is_error_reply, json_error, Reply};
use crate::text::{strip_dashes, without_dashes};
use vstd::prelude::*;
use vstd::string::StringExecFns;

verus! {

/// The address of the username lookup for `username`.
pub open spec fn uuid_url(username: Seq<char>) -> Seq<char> {
    "https://api.mojang.com/users/profiles/minecraft/"@ + username
}

/// The address of the signed profile of `uuid`.
pub open spec fn profile_url(uuid: Seq<char>) -> Seq<char> {
    "https://sessionserver.mojang.com/session/minecraft/profile/"@ + uuid + "?unsigned=false"@
}

/// The address of the username lookup for `username`.
pub fn mojang_uuid_url(username: &str) -> (url: String)
    ensures
        url@ == uuid_url(username@),
{
    let mut url = "https://api.mojang.com/users/profiles/minecraft/".to_owned();
    url.append(username);
    url
}

/// The address of the signed profile of `uuid`.
pub fn mojang_profile_url(uuid: &str) -> (url: String)
    ensures
        url@ == profile_url(uuid@),
{
    let mut url = "https://sessionserver.mojang.com/session/minecraft/profile/".to_owned();
    url.append(uuid);
    url.append("?unsigned=false");
    url
}

/// Where the uuid of a requested player comes from.
pub enum UuidSource {
    /// The identifier was a uuid; this is it without dashes.
    Known(String),
    /// The identifier is a username to look up.
    Lookup(String),
}

/// Identifiers longer than this many bytes are taken as uuids.
pub const MAX_USERNAME_BYTES: usize = 16;

/// How to obtain the uuid for `identifier`: identifiers of more than 16 bytes
/// are uuids (their dashes dropped), shorter ones usernames to look up.
pub fn resolve_uuid(identifier: &str) -> (src: UuidSource)
    ensures
        identifier.len() > 16 ==> (src matches UuidSource::Known(u)
            && u@ == without_dashes(identifier@)),
        identifier.len() <= 16 ==> (src matches UuidSource::Lookup(n)
            && n@ == identifier@),
{
    if identifier.len() > MAX_USERNAME_BYTES {
        UuidSource::Known(strip_dashes(identifier))
    } else {
        UuidSource::Lookup(identifier.to_owned())
    }
}

/// What the status of the username lookup means: 204 and 404 say the player
/// does not exist; any other status lets the body be read.
pub fn uuid_lookup_status(status: u16) -> (r: Option<Reply>)
    ensures
        (status == 204 || status == 404) ==> (r matches Some(e) && is_error_reply(e, "player not found"@, 404)),
        !(status == 204 || status == 404) ==> r is None,
{
    if status == 204 || status == 404 {
        Some(json_error("player not found", 404))
    } else {
        None
    }
}

/// The uuid that a username lookup body gives, or the answer when it could not be parsed.
pub fn uuid_from_lookup(body: Option<MojangUuidResponse>) -> (r: Result<String, Reply>)
    ensures
        body matches Some(b) ==> (r matches Ok(id) && id == b.id),
        body is None ==> (r matches Err(e) && is_error_reply(e, "failed to parse mojang uuid response"@, 502)),
{
    match body {
        Some(b) => Ok(b.id),
        None => Err(json_error("failed to parse mojang uuid response", 502)),
    }
}

/// What the status of the profile fetch means: 204 and 404 say the player does
/// not exist; any other status but 200 is an upstream failure.
pub fn profile_fetch_status(status: u16) -> (r: Option<Reply>)
    ensures
        (status == 204 || status == 404) ==> (r matches Some(e) && is_error_reply(e, "player not found"@, 404)),
        !(status == 200 || status == 204 || status == 404) ==> (r matches Some(e) && is_error_reply(
            e,
            "failed to fetch profile from mojang"@,
            502,
        )),
        status == 200 ==> r is None,
{
    if status == 204 || status == 404 {
        Some(json_error("player not found", 404))
    } else if status != 200 {
        Some(json_error("failed to fetch profile from mojang", 502))
    } else {
        None
    }
}

/// The profile that a session server body gives, or the answer when it could not be parsed.
pub fn profile_from_fetch(body: Option<MojangSessionResponse>) -> (r: Result<MojangSessionResponse, Reply>)
    ensures
        body matches Some(b) ==> (r matches Ok(p) && p == b),
        body is None ==> (r matches Err(e) && is_error_reply(e, "failed to parse mojang profile data"@, 502)),
{
    match body {
        Some(b) => Ok(b),
        None => Err(json_error("failed to parse mojang profile data", 502)),
    }
}

/// `i` is the position of the first property named `textures`.
pub open spec fn is_first_textures(props: Seq<ProfileProperty>, i: int) -> bool {
    &&& 0 <= i < props.len()
    &&& props[i].name@ == "textures"@
    &&& forall|j: int| 0 <= j < i ==> (#[trigger] props[j]).name@ != "textures"@
}

/// Some property is named `textures`.
pub open spec fn has_textures(props: Seq<ProfileProperty>) -> bool {
    exists|i: int| 0 <= i < props.len() && (#[trigger] props[i]).name@ == "textures"@
}

/// Takes the first property named `textures` out of `profile`; a profile
/// without one is answered 404.
pub fn take_textures_property(profile: MojangSessionResponse) -> (r: Result<
    (MojangSessionResponse, ProfileProperty),
    Reply,
>)
    ensures
        r is Ok <==> has_textures(profile.properties@),
        r matches Ok((rest, tex)) ==> exists|i: int|
            #[trigger] is_first_textures(profile.properties@, i) && tex == profile.properties@[i]
                && rest.properties@ == profile.properties@.remove(i) && rest.name == profile.name
                && rest.id == profile.id,
        r matches Err(e) ==> is_error_reply(e, "texture data missing on profile"@, 404),
{
    let key = "textures".to_owned();
    let mut rest = profile;
    let ghost props = rest.properties@;
    let mut i: usize = 0;
    while i < rest.properties.len()
        invariant
            key@ == "textures"@,
            rest.properties@ == props,
            props == profile.properties@,
            rest == profile,
            i <= props.len(),
            forall|j: int| 0 <= j < i ==> (#[trigger] props[j]).name@ != "textures"@,
        decreases rest.properties.len() - i,
    {
        if rest.properties[i].name == key {
            let tex = rest.properties.remove(i);
            assert(props[i as int].name@ == "textures"@);
            assert(is_first_textures(props, i as int));
            assert(has_textures(props));
            return Ok((rest, tex));
        }
        i = i + 1;
    }
    assert(!has_textures(props));
    Err(json_error("texture data missing on profile", 404))
}

/// What the status of an image fetch means: anything but 200 is answered 502
/// with `error_msg`.
pub fn image_fetch_status(status: u16, error_msg: &str) -> (r: Option<Reply>)
    ensures
        status != 200 ==> (r matches Some(e) && is_error_reply(e, error_msg@, 502)),
        status == 200 ==> r is None,
{
    if status != 200 {
        Some(json_error(error_msg, 502))
    } else {
        None
    }
}

} // verus!
