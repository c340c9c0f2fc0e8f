use calf::models::{SkinInfo, TexturesDecoded, TexturesMap};
use calf::reply::{JsonBody, ReplyBody};
use calf::textures::{decode_textures_b64, textures_from_json};

#[test]
fn base64_textures_value_is_decoded() {
    assert_eq!(decode_textures_b64("aGk=").ok(), Some(b"hi".to_vec()));
    assert_eq!(decode_textures_b64("eyJ0ZXh0dXJlcyI6e319").ok(), Some(b"{\"textures\":{}}".to_vec()));
    assert_eq!(decode_textures_b64("").ok(), Some(Vec::new()));
}

#[test]
fn bad_base64_is_502() {
    for bad in ["aGk", "a===", "!!!!", "aGk=\n"] {
        let r = decode_textures_b64(bad).err().expect("refused");
        assert_eq!(r.status, 502);
        match r.body {
            ReplyBody::Json(JsonBody::Error(e)) => assert_eq!(e.error, "failed to decode textures base64"),
            _ => panic!("expected a JSON error"),
        }
    }
}

#[test]
fn parsed_textures_pass_through() {
    let t = TexturesDecoded {
        textures: TexturesMap { skin: Some(SkinInfo { url: "u".to_string() }), cape: None },
    };
    let out = textures_from_json(Some(t)).ok().unwrap();
    assert_eq!(out.textures.skin.unwrap().url, "u");
    let r = textures_from_json(None).err().unwrap();
    assert_eq!(r.status, 502);
    match r.body {
        ReplyBody::Json(JsonBody::Error(e)) => assert_eq!(e.error, "failed to parse textures json"),
        _ => panic!("expected a JSON error"),
    }
}
