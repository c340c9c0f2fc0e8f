use calf::models::{MojangSessionResponse, MojangUuidResponse, ProfileProperty};
use calf::mojang::{
    image_fetch_status, mojang_profile_url, mojang_uuid_url, profile_fetch_status, profile_from_fetch,
    resolve_uuid, take_textures_property, uuid_from_lookup, uuid_lookup_status, UuidSource,
};
use calf::reply::{JsonBody, Reply, ReplyBody};

fn error_of(r: Reply) -> (u16, String) {
    assert!(r.cache_max_age.is_none());
    match r.body {
        ReplyBody::Json(JsonBody::Error(e)) => {
            assert_eq!(e.status, r.status);
            (r.status, e.error)
        },
        _ => panic!("expected a JSON error"),
    }
}

fn prop(name: &str, value: &str) -> ProfileProperty {
    ProfileProperty { name: name.to_string(), value: value.to_string(), signature: format!("sig-{}", value) }
}

#[test]
fn urls_of_the_mojang_services() {
    assert_eq!(mojang_uuid_url("Notch"), "https://api.mojang.com/users/profiles/minecraft/Notch");
    assert_eq!(
        mojang_profile_url("069a79f444e94726a5befca90e38aaf5"),
        "https://sessionserver.mojang.com/session/minecraft/profile/069a79f444e94726a5befca90e38aaf5?unsigned=false"
    );
}

#[test]
fn short_identifiers_are_usernames() {
    match resolve_uuid("Notch") {
        UuidSource::Lookup(n) => assert_eq!(n, "Notch"),
        _ => panic!("expected a lookup"),
    }
    match resolve_uuid("abcdefghijklmnop") {
        UuidSource::Lookup(n) => assert_eq!(n, "abcdefghijklmnop"),
        _ => panic!("16 bytes is still a username"),
    }
}

#[test]
fn long_identifiers_are_uuids_without_dashes() {
    match resolve_uuid("069a79f4-44e9-4726-a5be-fca90e38aaf5") {
        UuidSource::Known(u) => assert_eq!(u, "069a79f444e94726a5befca90e38aaf5"),
        _ => panic!("expected a uuid"),
    }
    match resolve_uuid("abcdefghijklmnopq") {
        UuidSource::Known(u) => assert_eq!(u, "abcdefghijklmnopq"),
        _ => panic!("17 bytes is a uuid"),
    }
}

#[test]
fn identifier_length_counts_bytes() {
    // nine characters, eighteen bytes
    match resolve_uuid("ééééééééé") {
        UuidSource::Known(u) => assert_eq!(u, "ééééééééé"),
        _ => panic!("expected a uuid"),
    }
}

#[test]
fn uuid_lookup_statuses() {
    assert_eq!(error_of(uuid_lookup_status(204).unwrap()), (404, "player not found".to_string()));
    assert_eq!(error_of(uuid_lookup_status(404).unwrap()), (404, "player not found".to_string()));
    assert!(uuid_lookup_status(200).is_none());
    assert!(uuid_lookup_status(500).is_none());
}

#[test]
fn uuid_lookup_bodies() {
    assert_eq!(uuid_from_lookup(Some(MojangUuidResponse { id: "abc".to_string() })).ok(), Some("abc".to_string()));
    let e = uuid_from_lookup(None).err().unwrap();
    assert_eq!(error_of(e), (502, "failed to parse mojang uuid response".to_string()));
}

#[test]
fn profile_statuses_and_bodies() {
    assert!(profile_fetch_status(200).is_none());
    assert_eq!(error_of(profile_fetch_status(204).unwrap()), (404, "player not found".to_string()));
    assert_eq!(error_of(profile_fetch_status(404).unwrap()), (404, "player not found".to_string()));
    assert_eq!(error_of(profile_fetch_status(500).unwrap()), (502, "failed to fetch profile from mojang".to_string()));
    assert_eq!(error_of(profile_fetch_status(201).unwrap()), (502, "failed to fetch profile from mojang".to_string()));
    let e = profile_from_fetch(None).err().unwrap();
    assert_eq!(error_of(e), (502, "failed to parse mojang profile data".to_string()));
    let p = profile_from_fetch(Some(MojangSessionResponse { id: "i".to_string(), name: "n".to_string(), properties: vec![] }))
        .ok()
        .unwrap();
    assert_eq!(p.name, "n");
}

#[test]
fn textures_property_is_taken_out_first_one_first() {
    let profile = MojangSessionResponse {
        id: "i".to_string(),
        name: "Steve".to_string(),
        properties: vec![prop("other", "o"), prop("textures", "t1"), prop("textures", "t2")],
    };
    let (rest, tex) = take_textures_property(profile).ok().unwrap();
    assert_eq!(tex.value, "t1");
    assert_eq!(tex.signature, "sig-t1");
    assert_eq!(rest.name, "Steve");
    assert_eq!(rest.properties.len(), 2);
    assert_eq!(rest.properties[0].name, "other");
    assert_eq!(rest.properties[1].value, "t2");
}

#[test]
fn profile_without_textures_is_404() {
    let profile = MojangSessionResponse { id: "i".to_string(), name: "n".to_string(), properties: vec![prop("Textures", "x")] };
    let e = take_textures_property(profile).err().unwrap();
    assert_eq!(error_of(e), (404, "texture data missing on profile".to_string()));
}

#[test]
fn image_fetch_statuses() {
    assert!(image_fetch_status(200, "m").is_none());
    assert_eq!(error_of(image_fetch_status(404, "failed to fetch cape from mojang").unwrap()), (502, "failed to fetch cape from mojang".to_string()));
}
