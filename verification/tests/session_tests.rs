use calf::framing::BatchBuilder;
use calf::imaging::{extract_head_rgb, extract_image_rgb};
use calf::models::{MojangSessionResponse, MojangUuidResponse, ProfileProperty, SkinInfo, TexturesDecoded, TexturesMap};
use calf::reply::{JsonBody, MediaType, ReplyBody};
use calf::request::{PartKind, ProfileOptions};
use calf::session::{Action, Event, PlayerRequest, Route};

const UUID: &str = "069a79f444e94726a5befca90e38aaf5";

fn fetch_url(a: Action) -> String {
    match a {
        Action::Fetch(u) => u,
        _ => panic!("expected a fetch"),
    }
}

fn error_of(a: Action) -> (u16, String) {
    match a {
        Action::Respond(r) => {
            assert!(r.cache_max_age.is_none());
            match r.body {
                ReplyBody::Json(JsonBody::Error(e)) => {
                    assert_eq!(e.status, r.status);
                    (r.status, e.error)
                },
                _ => panic!("expected a JSON error"),
            }
        },
        _ => panic!("expected an answer"),
    }
}

fn binary_of(a: Action, media: MediaType) -> Vec<u8> {
    match a {
        Action::Respond(r) => {
            assert_eq!(r.status, 200);
            assert_eq!(r.cache_max_age, Some(300));
            match (r.body, media) {
                (ReplyBody::Binary(MediaType::OctetStream, b), MediaType::OctetStream) => b,
                (ReplyBody::Binary(MediaType::Png, b), MediaType::Png) => b,
                _ => panic!("expected a binary answer of the given type"),
            }
        },
        _ => panic!("expected an answer"),
    }
}

fn profile(value: &str) -> MojangSessionResponse {
    MojangSessionResponse {
        id: UUID.to_string(),
        name: "Notch".to_string(),
        properties: vec![ProfileProperty { name: "textures".to_string(), value: value.to_string(), signature: "SIG".to_string() }],
    }
}

fn textures(skin: Option<&str>, cape: Option<&str>) -> TexturesDecoded {
    TexturesDecoded {
        textures: TexturesMap {
            skin: skin.map(|u| SkinInfo { url: u.to_string() }),
            cape: cape.map(|u| SkinInfo { url: u.to_string() }),
        },
    }
}

fn png_of(img: image::RgbaImage) -> Vec<u8> {
    let mut out = std::io::Cursor::new(Vec::new());
    image::DynamicImage::ImageRgba8(img).write_to(&mut out, image::ImageFormat::Png).unwrap();
    out.into_inner()
}

fn options(raw: bool, exclude_uuid: bool, exclude_username: bool) -> ProfileOptions {
    ProfileOptions { raw, exclude_uuid, exclude_username }
}

/// Starts a request by uuid and brings it to the arrival of the profile.
fn up_to_profile(route: Route) -> PlayerRequest {
    let (mut m, a) = PlayerRequest::start(route, Some("069a79f4-44e9-4726-a5be-fca90e38aaf5"));
    assert_eq!(fetch_url(a), format!("https://sessionserver.mojang.com/session/minecraft/profile/{}?unsigned=false", UUID));
    assert!(matches!(m.step(Event::Status(200)), Action::ReadProfile));
    m
}

#[test]
fn missing_identifier_is_400() {
    let (m, a) = PlayerRequest::start(Route::Cape, None);
    assert!(m.is_done());
    assert_eq!(error_of(a), (400, "Identifier is required".to_string()));
}

#[test]
fn username_is_looked_up_then_profile_answered_as_json() {
    let (mut m, a) = PlayerRequest::start(Route::Profile(options(false, false, false)), Some("Notch"));
    assert_eq!(fetch_url(a), "https://api.mojang.com/users/profiles/minecraft/Notch");
    assert!(m.expects(&Event::Status(200)));
    assert!(!m.expects(&Event::Image(vec![])));
    assert!(matches!(m.step(Event::Status(200)), Action::ReadUuid));
    let a = m.step(Event::Uuid(Some(MojangUuidResponse { id: UUID.to_string() })));
    assert!(fetch_url(a).contains(UUID));
    assert!(matches!(m.step(Event::Status(200)), Action::ReadProfile));
    match m.step(Event::Profile(Some(profile("VALUE")))) {
        Action::Respond(r) => {
            assert_eq!(r.status, 200);
            assert_eq!(r.cache_max_age, Some(300));
            match r.body {
                ReplyBody::Json(JsonBody::Player(p)) => {
                    assert_eq!(p.uuid, Some(UUID.to_string()));
                    assert_eq!(p.username, Some("Notch".to_string()));
                    assert_eq!(p.textures.value, "VALUE");
                    assert_eq!(p.textures.signature, "SIG");
                },
                _ => panic!("expected a player body"),
            }
        },
        _ => panic!("expected an answer"),
    }
    assert!(m.is_done());
}

#[test]
fn excluded_fields_are_left_out_of_json() {
    let mut m = up_to_profile(Route::Profile(options(false, true, true)));
    match m.step(Event::Profile(Some(profile("V")))) {
        Action::Respond(r) => match r.body {
            ReplyBody::Json(JsonBody::Player(p)) => {
                assert!(p.uuid.is_none());
                assert!(p.username.is_none());
            },
            _ => panic!("expected a player body"),
        },
        _ => panic!("expected an answer"),
    }
}

#[test]
fn raw_profile_is_framed() {
    let mut m = up_to_profile(Route::Profile(options(true, false, true)));
    let bytes = binary_of(m.step(Event::Profile(Some(profile("V")))), MediaType::OctetStream);
    let mut expected = vec![0, 32];
    expected.extend_from_slice(UUID.as_bytes());
    expected.extend_from_slice(&[0, 1, b'V', 0, 3, b'S', b'I', b'G']);
    assert_eq!(bytes, expected);
}

#[test]
fn unknown_player_is_404() {
    let (mut m, _) = PlayerRequest::start(Route::Cape, Some("nobody"));
    assert_eq!(error_of(m.step(Event::Status(204))), (404, "player not found".to_string()));
    assert!(m.is_done());
    assert!(!m.expects(&Event::Status(200)));
}

#[test]
fn upstream_failures_are_502() {
    let (mut m, _) = PlayerRequest::start(Route::Cape, Some("Notch"));
    m.step(Event::Status(200));
    assert_eq!(error_of(m.step(Event::Uuid(None))), (502, "failed to parse mojang uuid response".to_string()));
    let (mut m, _) = PlayerRequest::start(Route::Cape, Some("069a79f444e94726a5befca90e38aaf5"));
    assert_eq!(error_of(m.step(Event::Status(429))), (502, "failed to fetch profile from mojang".to_string()));
    let mut m = up_to_profile(Route::Cape);
    assert_eq!(error_of(m.step(Event::Profile(None))), (502, "failed to parse mojang profile data".to_string()));
}

#[test]
fn profile_answer_without_textures_is_404() {
    let mut m = up_to_profile(Route::Profile(options(false, false, false)));
    let p = MojangSessionResponse { id: UUID.to_string(), name: "n".to_string(), properties: vec![] };
    assert_eq!(error_of(m.step(Event::Profile(Some(p)))), (404, "texture data missing on profile".to_string()));
}

#[test]
fn cape_route_fetches_and_answers_the_png() {
    let mut m = up_to_profile(Route::Cape);
    match m.step(Event::Profile(Some(profile("eyJ0ZXh0dXJlcyI6e319")))) {
        Action::ParseTextures(json) => assert_eq!(json, b"{\"textures\":{}}".to_vec()),
        _ => panic!("expected the textures to be parsed"),
    }
    let a = m.step(Event::Textures(Some(textures(Some("http://skin"), Some("http://cape")))));
    assert_eq!(fetch_url(a), "http://cape");
    assert!(matches!(m.step(Event::Status(200)), Action::ReadImage));
    let png = vec![1u8, 2, 3];
    assert_eq!(binary_of(m.step(Event::Image(png.clone())), MediaType::Png), png);
}

#[test]
fn cape_route_errors() {
    let mut m = up_to_profile(Route::Cape);
    assert_eq!(error_of(m.step(Event::Profile(Some(profile("%%%"))))), (502, "failed to decode textures base64".to_string()));
    let mut m = up_to_profile(Route::Cape);
    m.step(Event::Profile(Some(profile("e30="))));
    assert_eq!(error_of(m.step(Event::Textures(None))), (502, "failed to parse textures json".to_string()));
    let mut m = up_to_profile(Route::Cape);
    m.step(Event::Profile(Some(profile("e30="))));
    assert_eq!(error_of(m.step(Event::Textures(Some(textures(Some("s"), None))))), (404, "player has no cape".to_string()));
    let mut m = up_to_profile(Route::Cape);
    m.step(Event::Profile(Some(profile("e30="))));
    m.step(Event::Textures(Some(textures(None, Some("c")))));
    assert_eq!(error_of(m.step(Event::Status(404))), (502, "failed to fetch cape from mojang".to_string()));
}

#[test]
fn batch_without_images_needs_no_textures() {
    let mut m = up_to_profile(Route::Batch(vec![PartKind::Texture, PartKind::Other, PartKind::Profile]));
    let bytes = binary_of(m.step(Event::Profile(Some(profile("not base64!")))), MediaType::OctetStream);
    let expected = BatchBuilder::new()
        .add_string("not base64!")
        .add_string("SIG")
        .add_string(UUID)
        .add_string("Notch")
        .add_string("not base64!")
        .add_string("SIG")
        .build();
    match expected.body {
        ReplyBody::Binary(_, e) => assert_eq!(bytes, e),
        _ => panic!(),
    }
}

#[test]
fn batch_fetches_the_skin_once_and_frames_every_part() {
    let skin = png_of(image::RgbaImage::from_fn(64, 64, |x, y| image::Rgba([x as u8, y as u8, 7, 255])));
    let cape = png_of(image::RgbaImage::from_fn(2, 2, |x, y| image::Rgba([x as u8, y as u8, 9, 255])));
    let parts = vec![PartKind::Profile, PartKind::Head, PartKind::Skin, PartKind::Cape, PartKind::Head];
    let mut m = up_to_profile(Route::Batch(parts));
    assert!(matches!(m.step(Event::Profile(Some(profile("e30=")))), Action::ParseTextures(_)));
    let a = m.step(Event::Textures(Some(textures(Some("http://skin"), Some("http://cape")))));
    assert_eq!(fetch_url(a), "http://skin");
    assert!(matches!(m.step(Event::Status(200)), Action::ReadImage));
    let a = m.step(Event::Image(skin.clone()));
    assert_eq!(fetch_url(a), "http://cape");
    assert!(matches!(m.step(Event::Status(200)), Action::ReadImage));
    let bytes = binary_of(m.step(Event::Image(cape.clone())), MediaType::OctetStream);
    let head = extract_head_rgb(&skin).ok().unwrap();
    let whole = extract_image_rgb(&skin).ok().unwrap();
    let cape_rgb = extract_image_rgb(&cape).ok().unwrap();
    let expected = BatchBuilder::new()
        .add_string(UUID)
        .add_string("Notch")
        .add_string("e30=")
        .add_string("SIG")
        .add_bytes(&head)
        .add_bytes(&whole)
        .add_bytes(&cape_rgb)
        .add_bytes(&head)
        .build();
    match expected.body {
        ReplyBody::Binary(_, e) => assert_eq!(bytes, e),
        _ => panic!(),
    }
    assert_eq!(head.len(), 192);
    assert_eq!(cape_rgb, vec![0, 0, 9, 1, 0, 9, 0, 1, 9, 1, 1, 9]);
}

#[test]
fn batch_part_errors() {
    let mut m = up_to_profile(Route::Batch(vec![PartKind::Profile, PartKind::Skin]));
    m.step(Event::Profile(Some(profile("e30="))));
    assert_eq!(error_of(m.step(Event::Textures(Some(textures(None, None))))), (404, "player has no skin".to_string()));

    let mut m = up_to_profile(Route::Batch(vec![PartKind::Cape]));
    m.step(Event::Profile(Some(profile("e30="))));
    assert_eq!(error_of(m.step(Event::Textures(Some(textures(Some("s"), None))))), (404, "player has no cape".to_string()));

    let mut m = up_to_profile(Route::Batch(vec![PartKind::Head]));
    m.step(Event::Profile(Some(profile("e30="))));
    m.step(Event::Textures(Some(textures(Some("s"), None))));
    assert_eq!(error_of(m.step(Event::Status(500))), (502, "failed to fetch skin from mojang".to_string()));

    let mut m = up_to_profile(Route::Batch(vec![PartKind::Head]));
    m.step(Event::Profile(Some(profile("e30="))));
    m.step(Event::Textures(Some(textures(Some("s"), None))));
    m.step(Event::Status(200));
    assert_eq!(error_of(m.step(Event::Image(b"junk".to_vec()))), (502, "failed to parse skin image".to_string()));

    let mut m = up_to_profile(Route::Batch(vec![PartKind::Cape]));
    m.step(Event::Profile(Some(profile("e30="))));
    m.step(Event::Textures(Some(textures(None, Some("c")))));
    m.step(Event::Status(200));
    assert_eq!(error_of(m.step(Event::Image(b"junk".to_vec()))), (502, "failed to parse image".to_string()));
}

#[test]
fn batch_checks_textures_before_earlier_parts() {
    let mut m = up_to_profile(Route::Batch(vec![PartKind::Profile, PartKind::Cape]));
    assert_eq!(error_of(m.step(Event::Profile(Some(profile("@@@@"))))), (502, "failed to decode textures base64".to_string()));
}

#[test]
fn events_per_request_are_bounded_by_parts() {
    let skin = png_of(image::RgbaImage::from_fn(64, 64, |x, y| image::Rgba([x as u8, y as u8, 1, 255])));
    let parts = vec![PartKind::Head, PartKind::Skin, PartKind::Head, PartKind::Skin];
    let bound = 8 + 3 * parts.len();
    let (mut m, mut a) = PlayerRequest::start(Route::Batch(parts), Some("Notch"));
    let mut events = 0;
    let mut skin_fetches = 0;
    loop {
        let event = match a {
            Action::Respond(_) => break,
            Action::Fetch(url) => {
                if url == "http://skin" {
                    skin_fetches += 1;
                }
                Event::Status(200)
            },
            Action::ReadUuid => Event::Uuid(Some(MojangUuidResponse { id: UUID.to_string() })),
            Action::ReadProfile => Event::Profile(Some(profile("e30="))),
            Action::ParseTextures(_) => Event::Textures(Some(textures(Some("http://skin"), None))),
            Action::ReadImage => Event::Image(skin.clone()),
        };
        assert!(m.expects(&event));
        a = m.step(event);
        events += 1;
    }
    assert!(m.is_done());
    assert!(events <= bound);
    assert_eq!(skin_fetches, 1);
}

#[test]
fn unknown_uuid_is_404() {
    let (mut m, _) = PlayerRequest::start(Route::Cape, Some(UUID));
    assert_eq!(error_of(m.step(Event::Status(204))), (404, "player not found".to_string()));
    assert!(m.is_done());
    let (mut m, _) = PlayerRequest::start(Route::Profile(options(false, false, false)), Some(UUID));
    assert_eq!(error_of(m.step(Event::Status(404))), (404, "player not found".to_string()));
}

#[test]
fn batch_part_too_long_for_its_prefix_is_500() {
    let skin = png_of(image::RgbaImage::from_fn(256, 256, |x, y| image::Rgba([x as u8, y as u8, 3, 255])));
    assert_eq!(extract_image_rgb(&skin).ok().unwrap().len(), 3 * 256 * 256);
    let mut m = up_to_profile(Route::Batch(vec![PartKind::Head, PartKind::Skin]));
    m.step(Event::Profile(Some(profile("e30="))));
    m.step(Event::Textures(Some(textures(Some("http://skin"), None))));
    m.step(Event::Status(200));
    assert_eq!(error_of(m.step(Event::Image(skin))), (500, "response too large".to_string()));
    assert!(m.is_done());
}
