use calf::request::{
    batch_parts, list_has_item, parse_parts, parts_need_images, profile_options, query_has_pair, query_value, PartKind,
};

fn pairs(list: &[(&str, &str)]) -> Vec<(String, String)> {
    list.iter().map(|(k, v)| (k.to_string(), v.to_string())).collect()
}

#[test]
fn parse_parts_trims_and_classifies() {
    assert_eq!(
        parse_parts(" profile , texture,head,skin ,cape"),
        vec![PartKind::Profile, PartKind::Texture, PartKind::Head, PartKind::Skin, PartKind::Cape]
    );
}

#[test]
fn parse_parts_keeps_empty_and_unknown_pieces() {
    assert_eq!(parse_parts(""), vec![PartKind::Other]);
    assert_eq!(parse_parts("head,,Head,heads"), vec![PartKind::Head, PartKind::Other, PartKind::Other, PartKind::Other]);
    assert_eq!(parse_parts("cape,"), vec![PartKind::Cape, PartKind::Other]);
}

#[test]
fn parse_parts_trims_unicode_white_space() {
    assert_eq!(parse_parts("\u{3000}skin\u{00A0},\tprofile\n"), vec![PartKind::Skin, PartKind::Profile]);
}

#[test]
fn batch_parts_defaults_to_profile_and_head() {
    assert_eq!(batch_parts(&pairs(&[])), vec![PartKind::Profile, PartKind::Head]);
    assert_eq!(batch_parts(&pairs(&[("format", "raw")])), vec![PartKind::Profile, PartKind::Head]);
}

#[test]
fn batch_parts_uses_first_parts_parameter() {
    assert_eq!(batch_parts(&pairs(&[("parts", "cape"), ("parts", "skin")])), vec![PartKind::Cape]);
}

#[test]
fn parts_need_images_only_for_images() {
    assert!(!parts_need_images(&vec![PartKind::Profile, PartKind::Texture, PartKind::Other]));
    assert!(parts_need_images(&vec![PartKind::Profile, PartKind::Cape]));
    assert!(parts_need_images(&vec![PartKind::Head]));
    assert!(parts_need_images(&vec![PartKind::Skin]));
}

#[test]
fn profile_options_read_format_and_exclude() {
    let o = profile_options(&pairs(&[("format", "raw"), ("exclude", "uuid,username")]));
    assert!(o.raw && o.exclude_uuid && o.exclude_username);
    let o = profile_options(&pairs(&[("format", "json"), ("exclude", "myusername")]));
    assert!(!o.raw && !o.exclude_uuid && !o.exclude_username);
    let o = profile_options(&pairs(&[("exclude", "nouuid")]));
    assert!(!o.exclude_uuid && !o.exclude_username);
    let o = profile_options(&pairs(&[("exclude", " uuid , username ")]));
    assert!(o.exclude_uuid && o.exclude_username);
    let o = profile_options(&pairs(&[("exclude", "UUID,user name")]));
    assert!(!o.exclude_uuid && !o.exclude_username);
    let o = profile_options(&pairs(&[]));
    assert!(!o.raw && !o.exclude_uuid && !o.exclude_username);
    let o = profile_options(&pairs(&[("format", "json"), ("format", "raw"), ("exclude", ""), ("exclude", "uuid")]));
    assert!(o.raw && !o.exclude_uuid && !o.exclude_username);
}

#[test]
fn query_helpers_match_exact_keys() {
    let q = pairs(&[("Format", "raw"), ("format", "RAW"), ("k", "v")]);
    assert!(!query_has_pair(&q, "format", "raw"));
    assert!(query_has_pair(&q, "k", "v"));
    assert_eq!(query_value(&q, "k"), Some("v".to_string()));
    assert_eq!(query_value(&q, "missing"), None);
}

#[test]
fn list_items_match_whole_trimmed_names() {
    let uuid = ['u', 'u', 'i', 'd'];
    assert!(list_has_item("uuid", &uuid));
    assert!(list_has_item("a,\tuuid ,b", &uuid));
    assert!(!list_has_item("nouuid", &uuid));
    assert!(!list_has_item("uuids,uu id", &uuid));
    assert!(!list_has_item("", &uuid));
    assert!(list_has_item("", &[]));
    assert!(list_has_item("a,,b", &[]));
    assert!(!list_has_item("a,b", &[]));
}

#[test]
fn no_parts_parameter_is_the_same_as_profile_and_head() {
    let without = pairs(&[("format", "raw"), ("x", "parts")]);
    let mut with = without.clone();
    with.push(("parts".to_string(), "profile,head".to_string()));
    assert_eq!(batch_parts(&without), batch_parts(&with));
    assert_eq!(batch_parts(&with), vec![PartKind::Profile, PartKind::Head]);
}
