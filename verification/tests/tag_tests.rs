use m3u8_tags::error::Error;
use m3u8_tags::tags::m3u::ExtM3u;
use m3u8_tags::tags::map::ExtXMap;
use m3u8_tags::tags::version::ExtXVersion;
use m3u8_tags::types::byte_range::ByteRange;
use m3u8_tags::types::decryption_key::{DecryptionKey, EncryptionMethod};
use m3u8_tags::types::protocol_version::ProtocolVersion;

#[test]
fn extm3u() {
    assert_eq!(ExtM3u::from_str("#EXTM3U").ok(), Some(ExtM3u));
    assert_eq!(ExtM3u.render(), "#EXTM3U");
    assert_eq!(ExtM3u.requires_version(), ProtocolVersion::V1);
}

#[test]
fn extm3u_rejects_inexact_lines() {
    assert!(ExtM3u::from_str("#EXTM3U ").is_err());
    assert!(ExtM3u::from_str("#extm3u").is_err());
    assert!(ExtM3u::from_str("").is_err());
    assert!(ExtM3u::from_str("#EXTM3U\n").is_err());
    assert_eq!(
        ExtM3u::from_str("#EXTM3Ux"),
        Err(Error::InvalidInput("#EXTM3Ux".to_string()))
    );
}

#[test]
fn ext_x_version() {
    let tag = ExtXVersion::new(ProtocolVersion::V6);
    assert_eq!(ExtXVersion::from_str("#EXT-X-VERSION:6").ok(), Some(tag));
    assert_eq!(tag.render(), "#EXT-X-VERSION:6");
    assert_eq!(tag.version(), ProtocolVersion::V6);
    assert_eq!(tag.requires_version(), ProtocolVersion::V1);
}

#[test]
fn ext_x_version_rejects_bad_payloads() {
    assert!(ExtXVersion::from_str("#EXT-X-VERSION:").is_err());
    assert!(ExtXVersion::from_str("#EXT-X-VERSION:0").is_err());
    assert!(ExtXVersion::from_str("#EXT-X-VERSION:8").is_err());
    assert!(ExtXVersion::from_str("#EXT-X-VERSION:6 ").is_err());
    assert!(ExtXVersion::from_str("EXT-X-VERSION:6").is_err());
}

#[test]
fn map_test_display() {
    assert_eq!(
        ExtXMap::new("foo".to_string()).render(),
        "#EXT-X-MAP:URI=\"foo\"".to_string(),
    );

    assert_eq!(
        ExtXMap::with_range("foo".to_string(), ByteRange::new(9, Some(2))).render(),
        "#EXT-X-MAP:URI=\"foo\",BYTERANGE=\"9@2\"".to_string(),
    );
}

#[test]
fn test_parser() {
    assert_eq!(
        ExtXMap::new("foo".to_string()),
        ExtXMap::from_str("#EXT-X-MAP:URI=\"foo\"").unwrap()
    );

    assert_eq!(
        ExtXMap::with_range("foo".to_string(), ByteRange::new(9, Some(2))),
        ExtXMap::from_str("#EXT-X-MAP:URI=\"foo\",BYTERANGE=\"9@2\"").unwrap()
    );
}

#[test]
fn test_required_version() {
    assert_eq!(
        ExtXMap::new("foo".to_string()).required_version(),
        ProtocolVersion::V6
    );
    assert_eq!(
        ExtXMap::with_range("foo".to_string(), ByteRange::new(9, Some(2))).required_version(),
        ProtocolVersion::V6
    );
}

#[test]
fn map_missing_uri_is_a_missing_value_error() {
    assert_eq!(
        ExtXMap::from_str("#EXT-X-MAP:"),
        Err(Error::MissingValue("EXT-X-URI".to_string()))
    );
    let e = ExtXMap::from_str("#EXT-X-MAP:BYTERANGE=\"9@2\"").unwrap_err();
    assert!(e.is_missing_value());
    assert_eq!(e.detail(), "EXT-X-URI");
}

#[test]
fn map_ignores_unrecognized_attributes() {
    assert_eq!(
        ExtXMap::from_str("#EXT-X-MAP:URI=\"foo\",FOO=1").unwrap(),
        ExtXMap::new("foo".to_string())
    );
}

#[test]
fn map_last_occurrence_of_a_key_wins() {
    assert_eq!(
        ExtXMap::from_str("#EXT-X-MAP:URI=\"a\",URI=\"b\"").unwrap(),
        ExtXMap::new("b".to_string())
    );
}

#[test]
fn map_rejects_malformed_lines() {
    assert!(ExtXMap::from_str("EXT-X-MAP:URI=\"foo\"").is_err());
    assert!(ExtXMap::from_str("#EXT-X-MAP:URI=foo").is_err());
    assert!(ExtXMap::from_str("#EXT-X-MAP:URI=\"foo").is_err());
    assert!(ExtXMap::from_str("#EXT-X-MAP:URI").is_err());
    assert!(ExtXMap::from_str("#EXT-X-MAP:URI=\"foo\",BYTERANGE=\"x@2\"").is_err());
    assert!(ExtXMap::from_str("#EXT-X-MAP:URI=\"foo\",BYTERANGE=9").is_err());
}

#[test]
fn map_round_trips_through_its_wire_line() {
    let plain = ExtXMap::new("init.mp4".to_string());
    assert_eq!(ExtXMap::from_str(plain.render().as_str()).unwrap(), plain);
    let ranged = ExtXMap::with_range("seg/0.mp4".to_string(), ByteRange::new(700, Some(1024)));
    assert_eq!(ExtXMap::from_str(ranged.render().as_str()).unwrap(), ranged);
    let open_ended = ExtXMap::with_range("a".to_string(), ByteRange::new(5, None));
    assert_eq!(
        open_ended.render(),
        "#EXT-X-MAP:URI=\"a\",BYTERANGE=\"5\"".to_string()
    );
    assert_eq!(ExtXMap::from_str(open_ended.render().as_str()).unwrap(), open_ended);
}

#[test]
fn map_key_slot_is_readable_and_writable() {
    let mut tag = ExtXMap::new("foo".to_string());
    assert!(tag.keys().is_empty());
    tag.push_key(DecryptionKey::new(EncryptionMethod::Aes128));
    assert_eq!(tag.keys().len(), 1);
    assert_eq!(tag.keys()[0].method, EncryptionMethod::Aes128);
    let mut replacement = DecryptionKey::new(EncryptionMethod::SampleAes);
    replacement.uri = Some("key.bin".to_string());
    tag.set_keys(vec![replacement.clone()]);
    assert_eq!(tag.keys().len(), 1);
    assert_eq!(tag.keys()[0], replacement);
    assert_eq!(tag.uri(), "foo");
    tag.set_keys(vec![]);
    assert!(tag.keys().is_empty());
}

#[test]
fn version_tag_round_trips_for_every_version() {
    let versions = [
        ProtocolVersion::V1,
        ProtocolVersion::V2,
        ProtocolVersion::V3,
        ProtocolVersion::V4,
        ProtocolVersion::V5,
        ProtocolVersion::V6,
        ProtocolVersion::V7,
    ];
    for v in versions {
        let tag = ExtXVersion::new(v);
        assert_eq!(ExtXVersion::from_str(tag.render().as_str()).unwrap(), tag);
    }
}
