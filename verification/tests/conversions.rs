use zome_utils::{str2tag, tag2str, comp2hash, hash2comp, path2anchor, compTag2str, compTag2tag};
use zome_utils::{hash2tag, tag2hash, tag2Ts, ts2Tag};
use zome_utils::{LinkTag, Component, Path, HoloHash, Timestamp, ZomeUtilsError};

fn agent_raw(fill: u8) -> Vec<u8> {
    let core = vec![fill; 32];
    let loc = hdk::prelude::holo_hash::encode::holo_dht_location_bytes(&core);
    let mut raw = vec![0x84, 0x20, 0x24];
    raw.extend(core);
    raw.extend(loc);
    raw
}

fn utf32(s: &str) -> Vec<u8> {
    s.chars().flat_map(|c| (c as u32).to_le_bytes().to_vec()).collect()
}

#[test]
fn str2tag_holds_utf8_bytes() {
    assert_eq!(str2tag("hello").0, b"hello".to_vec());
    assert_eq!(str2tag("é").0, vec![0xc3, 0xa9]);
    assert_eq!(str2tag("").0, Vec::<u8>::new());
}

#[test]
fn tag2str_reads_utf8() {
    assert_eq!(tag2str(&LinkTag(b"anchor".to_vec())).ok(), Some("anchor".to_string()));
    assert_eq!(tag2str(&LinkTag(vec![0xe2, 0x82, 0xac])).ok(), Some("€".to_string()));
}

#[test]
fn tag2str_refuses_invalid_utf8() {
    let res = tag2str(&LinkTag(vec![0xff, 0x00]));
    assert!(matches!(res, Err(ZomeUtilsError::TagNotUtf8)));
    let res = tag2str(&LinkTag(vec![0xc3]));
    assert!(matches!(res, Err(ZomeUtilsError::TagNotUtf8)));
}

#[test]
fn str_tag_roundtrip_values() {
    for s in ["", "a", "profiles.c.cam.camille", "黑风雷", "👨‍👩‍👧"] {
        assert_eq!(tag2str(&str2tag(s)).ok(), Some(s.to_string()));
    }
}

#[test]
fn conversions_tag_duplicates_agree() {
    assert_eq!(zome_utils::conversions_tag::str2tag("x.y").0, str2tag("x.y").0);
    assert_eq!(zome_utils::conversions_tag::tag2str(&LinkTag(b"x.y".to_vec())).ok(), Some("x.y".to_string()));
}

#[test]
fn hash2tag_is_u_and_base64() {
    let raw = agent_raw(7);
    let tag = hash2tag(&HoloHash(raw.clone()));
    let expected = hdk::prelude::holo_hash::holo_hash_encode(&raw);
    assert_eq!(tag.0, expected.as_bytes().to_vec());
    assert_eq!(tag.0.len(), 53);
    assert_eq!(tag.0[0], b'u');
    assert!(tag.0.starts_with(b"uhCAk"));
}

#[test]
fn hash_tag_roundtrip() {
    let raw = agent_raw(42);
    let tag = hash2tag(&HoloHash(raw.clone()));
    let back = tag2hash(&tag);
    assert_eq!(back.ok().map(|h| h.0), Some(raw));
}

#[test]
fn tag2hash_refuses_bad_checksum() {
    let mut raw = agent_raw(1);
    raw[38] ^= 0xff;
    let tag = hash2tag(&HoloHash(raw));
    assert!(matches!(tag2hash(&tag), Err(ZomeUtilsError::Deserialize(_))));
}

#[test]
fn tag2hash_refuses_short_text_and_non_utf8() {
    assert!(matches!(tag2hash(&LinkTag(b"uhCAk".to_vec())), Err(ZomeUtilsError::Deserialize(_))));
    assert!(matches!(tag2hash(&LinkTag(vec![0xff; 53])), Err(ZomeUtilsError::TagNotUtf8)));
}

#[test]
fn hash_component_roundtrip() {
    let raw = agent_raw(9);
    let comp = hash2comp(&HoloHash(raw.clone()));
    let text = hdk::prelude::holo_hash::holo_hash_encode(&raw);
    assert_eq!(comp.0, utf32(&text));
    assert_eq!(comp.0.len(), 4 * 53);
    assert_eq!(comp2hash(&comp).ok().map(|h| h.0), Some(raw));
}

#[test]
fn comp2hash_refuses_non_utf32() {
    match comp2hash(&Component(vec![1, 2, 3])) {
        Err(ZomeUtilsError::ComponentText(m)) => {
            assert_eq!(m, "attempted to create u32s from utf8 bytes of length not a factor of 4: length 3")
        }
        _ => panic!("expected a component text error"),
    }
    assert!(matches!(comp2hash(&Component(utf32("not a hash"))), Err(ZomeUtilsError::Deserialize(_))));
}

#[test]
fn path2anchor_joins_with_dots() {
    let path = Path(vec![Component(utf32("profiles")), Component(utf32("c")), Component(utf32("camille"))]);
    assert_eq!(path2anchor(&path).ok(), Some("profiles.c.camille".to_string()));
}

#[test]
fn path2anchor_of_empty_path() {
    assert_eq!(path2anchor(&Path(vec![])).ok(), Some(String::new()));
}

#[test]
fn path2anchor_refuses_bad_component() {
    let path = Path(vec![Component(utf32("ok")), Component(vec![0, 0, 0])]);
    assert!(matches!(path2anchor(&path), Err(ZomeUtilsError::ComponentText(_))));
    let surrogate = 0xD800u32.to_le_bytes().to_vec();
    let path = Path(vec![Component(surrogate)]);
    assert!(matches!(path2anchor(&path), Err(ZomeUtilsError::ComponentText(_))));
}

#[test]
fn comp_tag_to_string() {
    let mut tag = vec![0xc4, 8];
    tag.extend(utf32("ab"));
    assert_eq!(compTag2str(&LinkTag(tag.clone())).ok(), Some("ab".to_string()));
    assert_eq!(compTag2tag(&LinkTag(tag)).0, utf32("ab"));
}

#[test]
fn comp_tag_too_short() {
    match compTag2str(&LinkTag(vec![1, 2])) {
        Err(ZomeUtilsError::Deserialize(m)) => assert_eq!(m, "LinkTag not a Component"),
        _ => panic!("expected an error"),
    }
    assert_eq!(compTag2tag(&LinkTag(vec![1, 2])).0, Vec::<u8>::new());
}

#[test]
fn comp_tag_not_utf32() {
    match compTag2str(&LinkTag(vec![1, 2, 3])) {
        Err(ZomeUtilsError::ComponentText(m)) => {
            assert_eq!(m, "attempted to create u32s from utf8 bytes of length not a factor of 4: length 1")
        }
        _ => panic!("expected a component text error"),
    }
}

#[test]
fn timestamp_tag_values() {
    assert_eq!(ts2Tag(Timestamp(1)).0, vec![1, 0, 0, 0, 0, 0, 0, 0]);
    assert_eq!(ts2Tag(Timestamp(-1)).0, vec![0xff; 8]);
    assert_eq!(tag2Ts(LinkTag(vec![0, 1, 0, 0, 0, 0, 0, 0])), Timestamp(256));
    assert_eq!(tag2Ts(LinkTag(vec![0, 0, 0, 0, 0, 0, 0, 0x80])), Timestamp(i64::MIN));
}

#[test]
fn timestamp_tag_roundtrip() {
    for micros in [0i64, 1, -1, 1_700_000_000_000_000, i64::MAX, i64::MIN] {
        assert_eq!(tag2Ts(ts2Tag(Timestamp(micros))), Timestamp(micros));
    }
}

#[test]
fn parent_anchor_is_prefix_of_child_anchor() {
    let parent = Path(vec![Component(utf32("profiles")), Component(utf32("c"))]);
    let child = Path(vec![Component(utf32("profiles")), Component(utf32("c")), Component(utf32("cam"))]);
    let a = path2anchor(&parent).ok().unwrap();
    let b = path2anchor(&child).ok().unwrap();
    assert_eq!(b, format!("{}.cam", a));
}

#[test]
fn anchor_of_readme_example() {
    let path = Path(vec![
        Component(utf32("profiles")),
        Component(utf32("c")),
        Component(utf32("cam")),
        Component(utf32("camille")),
    ]);
    assert_eq!(path2anchor(&path).ok(), Some("profiles.c.cam.camille".to_string()));
}

#[test]
fn anchor_of_single_component_has_no_delimiter() {
    assert_eq!(path2anchor(&Path(vec![Component(utf32("root"))])).ok(), Some("root".to_string()));
}

#[test]
fn anchor_splits_back_into_component_texts() {
    let texts = ["profiles", "c", "cam", "camille"];
    let path = Path(texts.iter().map(|t| Component(utf32(t))).collect());
    let anchor = path2anchor(&path).ok().unwrap();
    let pieces: Vec<&str> = anchor.split('.').collect();
    assert_eq!(pieces, texts.to_vec());
}

#[test]
fn comp_tag_text_is_text_of_comp_tag_component() {
    let mut tag = vec![0xc4, 12];
    tag.extend(utf32("cam"));
    let comp = compTag2tag(&LinkTag(tag.clone()));
    assert_eq!(compTag2str(&LinkTag(tag)).ok(), path2anchor(&Path(vec![comp])).ok());
}

fn deserialize_message(res: Result<HoloHash, ZomeUtilsError>) -> String {
    match res {
        Err(ZomeUtilsError::Deserialize(m)) => m,
        _ => panic!("expected a deserialize error"),
    }
}

#[test]
fn tag2hash_error_names_the_failed_check() {
    assert_eq!(deserialize_message(tag2hash(&LinkTag(b"uhCAk".to_vec()))), "Holo Hash has incorrect size");
    let mut text = hdk::prelude::holo_hash::holo_hash_encode(&agent_raw(3)).into_bytes();
    text[0] = b'x';
    assert_eq!(deserialize_message(tag2hash(&LinkTag(text.clone()))), "Holo Hash missing 'u' prefix");
    text[0] = b'u';
    text[10] = b'+';
    assert_eq!(deserialize_message(tag2hash(&LinkTag(text))), "Holo Hash has invalid base64 encoding");
    let mut raw = agent_raw(1);
    raw[38] ^= 0xff;
    let tag = hash2tag(&HoloHash(raw));
    assert_eq!(deserialize_message(tag2hash(&tag)), "Holo Hash checksum validation failed");
}

#[test]
fn comp2hash_error_names_the_failed_check() {
    let short = Component(utf32("uhCAk"));
    assert_eq!(deserialize_message(comp2hash(&short)), "Holo Hash has incorrect size");
    let word = 0x11_0000u32.to_le_bytes().to_vec();
    match comp2hash(&Component(word)) {
        Err(ZomeUtilsError::ComponentText(m)) => assert_eq!(m, "unknown char for u32: 1114112"),
        _ => panic!("expected a component text error"),
    }
}

#[test]
fn path2anchor_error_is_that_of_first_bad_component() {
    let mut second = utf32("a");
    second.extend(0xD800u32.to_le_bytes());
    let path = Path(vec![Component(utf32("ok")), Component(second), Component(vec![0])]);
    match path2anchor(&path) {
        Err(ZomeUtilsError::ComponentText(m)) => assert_eq!(m, "unknown char for u32: 55296"),
        _ => panic!("expected a component text error"),
    }
}

#[test]
fn comp_tag_error_matches_hdk_conversion() {
    let mut tag = vec![0xc4, 8];
    tag.extend(vec![0x41, 0, 0]);
    let hdk_comp = hdk::prelude::Component::from(tag[2..].to_vec());
    let hdk_err = String::try_from(&hdk_comp).err().map(String::from);
    match compTag2str(&LinkTag(tag)) {
        Err(ZomeUtilsError::ComponentText(m)) => assert_eq!(Some(m), hdk_err),
        _ => panic!("expected a component text error"),
    }
}

#[test]
fn hash_text_is_u_and_url_safe_base64() {
    let raw: Vec<u8> = (0u8..39).map(|b| b.wrapping_mul(37).wrapping_add(251)).collect();
    let tag = hash2tag(&HoloHash(raw.clone()));
    let text = String::from_utf8(tag.0).unwrap();
    assert_eq!(text, hdk::prelude::holo_hash::holo_hash_encode(&raw));
    assert_eq!(text, "u-yBFao-02f4jSG2St9wBJktwlbrfBClOc5i94gcsUXabwOUKL1R5");
    assert!(text[1..].chars().all(|c| c.is_ascii_alphanumeric() || c == '-' || c == '_'));
    assert_eq!(hash2tag(&HoloHash(vec![0xfb])).0, b"u-w".to_vec());
    assert_eq!(hash2tag(&HoloHash(vec![0xfb, 0xff])).0, b"u-_8".to_vec());
    assert_eq!(hash2tag(&HoloHash(vec![])).0, b"u".to_vec());
}
