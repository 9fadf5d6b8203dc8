use m3u8_tags::attribute::parse_attribute_pairs;
use m3u8_tags::decimal::{parse_u64, render_u64};
use m3u8_tags::error::Error;
use m3u8_tags::text::{quote, unquote};
use m3u8_tags::types::byte_range::ByteRange;
use m3u8_tags::types::hdcp_level::HdcpLevel;
use m3u8_tags::types::protocol_version::ProtocolVersion;

#[test]
fn hdcp_level_test_display() {
    let level = HdcpLevel::Type0;
    assert_eq!(level.render(), "TYPE-0".to_string());

    let level = HdcpLevel::NoHdcp;
    assert_eq!(level.render(), "NONE".to_string());
}

#[test]
fn hdcp_level_test_parse() {
    let level = HdcpLevel::Type0;
    assert_eq!(level, HdcpLevel::from_str("TYPE-0").unwrap());

    let level = HdcpLevel::NoHdcp;
    assert_eq!(level, HdcpLevel::from_str("NONE").unwrap());
}

#[test]
fn hdcp_level_rejects_tokens_outside_the_vocabulary() {
    assert_eq!(
        HdcpLevel::from_str("TYPE-1"),
        Err(Error::InvalidInput("TYPE-1".to_string()))
    );
    assert!(HdcpLevel::from_str("type-0").is_err());
    assert!(HdcpLevel::from_str("\"NONE\"").is_err());
    assert!(HdcpLevel::from_str("").is_err());
}

#[test]
fn protocol_version_parses_and_renders_its_range() {
    assert_eq!(ProtocolVersion::from_str("1").unwrap(), ProtocolVersion::V1);
    assert_eq!(ProtocolVersion::from_str("7").unwrap(), ProtocolVersion::V7);
    assert_eq!(ProtocolVersion::V4.render(), "4");
    assert!(ProtocolVersion::from_str("0").is_err());
    assert!(ProtocolVersion::from_str("8").is_err());
    assert!(ProtocolVersion::from_str("07").is_err());
    assert!(ProtocolVersion::from_str("").is_err());
}

#[test]
fn protocol_version_order_and_maximum() {
    assert!(ProtocolVersion::V2.le(ProtocolVersion::V6));
    assert!(!ProtocolVersion::V6.le(ProtocolVersion::V2));
    assert!(ProtocolVersion::V3.le(ProtocolVersion::V3));
    assert_eq!(
        ProtocolVersion::V2.max(ProtocolVersion::V6),
        ProtocolVersion::V6
    );
    assert_eq!(
        ProtocolVersion::V6.max(ProtocolVersion::V2),
        ProtocolVersion::V6
    );
    assert_eq!(ProtocolVersion::V5.number(), 5);
}

#[test]
fn decimal_literals_parse_within_the_unsigned_domain() {
    assert_eq!(parse_u64("0").unwrap(), 0);
    assert_eq!(parse_u64("22").unwrap(), 22);
    assert_eq!(parse_u64("007").unwrap(), 7);
    assert_eq!(parse_u64("18446744073709551615").unwrap(), u64::MAX);
    assert!(parse_u64("18446744073709551616").is_err());
    assert!(parse_u64("").is_err());
    assert!(parse_u64("1a").is_err());
    assert!(parse_u64("-1").is_err());
    assert!(parse_u64("1.5").is_err());
}

#[test]
fn decimal_rendering_is_canonical() {
    assert_eq!(render_u64(0), "0");
    assert_eq!(render_u64(9), "9");
    assert_eq!(render_u64(22), "22");
    assert_eq!(render_u64(1024), "1024");
    assert_eq!(render_u64(u64::MAX), "18446744073709551615");
}

#[test]
fn byte_range_parses_both_wire_forms() {
    assert_eq!(ByteRange::from_str("9@2").unwrap(), ByteRange::new(9, Some(2)));
    assert_eq!(ByteRange::from_str("9").unwrap(), ByteRange::new(9, None));
    assert_eq!(ByteRange::new(9, Some(2)).length(), 9);
    assert_eq!(ByteRange::new(9, Some(2)).offset(), Some(2));
    assert_eq!(ByteRange::new(9, None).offset(), None);
    assert!(ByteRange::from_str("x@2").is_err());
    assert!(ByteRange::from_str("9@").is_err());
    assert!(ByteRange::from_str("@2").is_err());
    assert!(ByteRange::from_str("9@2@3").is_err());
    assert!(ByteRange::from_str("").is_err());
}

#[test]
fn byte_range_renders_and_round_trips() {
    assert_eq!(ByteRange::new(9, Some(2)).render(), "9@2");
    assert_eq!(ByteRange::new(9, None).render(), "9");
    let r = ByteRange::new(u64::MAX, Some(0));
    assert_eq!(ByteRange::from_str(r.render().as_str()).unwrap(), r);
}

#[test]
fn attribute_lists_split_on_commas_outside_quotes() {
    let pairs = parse_attribute_pairs("A=1,B=\"x,y=z\",C=3").unwrap();
    assert_eq!(
        pairs,
        vec![
            ("A".to_string(), "1".to_string()),
            ("B".to_string(), "\"x,y=z\"".to_string()),
            ("C".to_string(), "3".to_string()),
        ]
    );
    assert_eq!(parse_attribute_pairs("").unwrap(), vec![]);
    let single = parse_attribute_pairs("KEY=").unwrap();
    assert_eq!(single, vec![("KEY".to_string(), "".to_string())]);
}

#[test]
fn attribute_lists_reject_broken_grammar() {
    assert!(parse_attribute_pairs("A").is_err());
    assert!(parse_attribute_pairs("A=1,B").is_err());
    assert!(parse_attribute_pairs("A=\"x").is_err());
    assert!(parse_attribute_pairs("A=1,").is_err());
    assert!(parse_attribute_pairs(",A=1").is_err());
}

#[test]
fn quoted_strings_are_delimited_and_clean() {
    assert_eq!(quote("foo"), "\"foo\"");
    assert_eq!(unquote("\"foo\"").unwrap(), "foo");
    assert_eq!(unquote("\"\"").unwrap(), "");
    assert!(unquote("foo").is_err());
    assert!(unquote("\"foo").is_err());
    assert!(unquote("\"f\"oo\"").is_err());
    assert!(unquote("\"a\rb\"").is_err());
    assert!(unquote("\"a\nb\"").is_err());
    assert!(unquote("\"").is_err());
}

#[test]
fn errors_carry_their_outcome_and_detail() {
    let invalid = Error::InvalidInput("bogus".to_string());
    assert!(invalid.is_invalid_input());
    assert!(!invalid.is_missing_value());
    assert_eq!(invalid.detail(), "bogus");
    let missing = Error::MissingValue("URI".to_string());
    assert!(missing.is_missing_value());
    assert!(!missing.is_invalid_input());
    assert_eq!(missing.detail(), "URI");
}
