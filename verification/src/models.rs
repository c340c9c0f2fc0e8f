//! The data exchanged with clients and with the Mojang services.
use vstd::prelude::*;

verus! {

/// The JSON body of a successful player-profile answer.
pub struct CalfResponse {
    pub uuid: Option<String>,
    pub username: Option<String>,
    pub textures: TextureData,
}

/// The signed textures property of a player.
pub struct TextureData {
    pub value: String,
    pub signature: String,
}

/// The JSON body of an error answer.
pub struct ErrorResponse {
    pub error: String,
    pub status: u16,
}

/// What the Mojang username lookup answers.
pub struct MojangUuidResponse {
    pub id: String,
}

/// What the Mojang session server answers for a profile.
pub struct MojangSessionResponse {
    pub id: String,
    pub name: String,
    pub properties: Vec<ProfileProperty>,
}

/// One named, signed property of a profile.
pub struct ProfileProperty {
    pub name: String,
    pub value: String,
    pub signature: String,
}

/// The decoded JSON of a profile's textures property.
pub struct TexturesDecoded {
    pub textures: TexturesMap,
}

/// The texture slots of a profile.
pub struct TexturesMap {
    pub skin: Option<SkinInfo>,
    pub cape: Option<SkinInfo>,
}

/// Where one texture image can be fetched.
pub struct SkinInfo {
    pub url: String,
}

} // verus!
