use quest_presence::activity::parse_activity_json;
use quest_presence::activity::create_activity;
use quest_presence::activity::to_app_id;
use quest_presence::activity::kind_from_code;
use quest_presence::activity::ActivityKind;
use quest_presence::errors::DecodeError;

#[test]
fn missing_app_id_fails() {
    let r = parse_activity_json("{\"details\":\"D\"}");
    assert_eq!(r.err(), Some(DecodeError::MissingApplicationId));
}

#[test]
fn empty_object_fails() {
    let r = parse_activity_json("{}");
    assert_eq!(r.err(), Some(DecodeError::MissingApplicationId));
}

#[test]
fn malformed_text_fails() {
    assert_eq!(parse_activity_json("not json").err(), Some(DecodeError::Malformed));
    assert_eq!(parse_activity_json("").err(), Some(DecodeError::Malformed));
    assert_eq!(parse_activity_json("{\"app_id\":\"1\"").err(), Some(DecodeError::Malformed));
    assert_eq!(parse_activity_json("{\"app_id\":\"1\"} x").err(), Some(DecodeError::Malformed));
}

#[test]
fn non_numeric_app_id_fails() {
    let r = create_activity("{\"app_id\":\"abc\"}".to_string());
    assert_eq!(r.err(), Some(DecodeError::NonNumericApplicationId));
    let r = create_activity("{\"app_id\":\"12x\"}".to_string());
    assert_eq!(r.err(), Some(DecodeError::NonNumericApplicationId));
    let r = create_activity("{\"app_id\":\"\"}".to_string());
    assert_eq!(r.err(), Some(DecodeError::NonNumericApplicationId));
}

#[test]
fn numeric_app_id_parses() {
    assert_eq!(to_app_id("123"), Ok(123));
    assert_eq!(to_app_id("+123"), Ok(123));
    assert_eq!(to_app_id("000123"), Ok(123));
    assert_eq!(to_app_id("0"), Ok(0));
    assert_eq!(to_app_id("+0"), Ok(0));
    assert_eq!(to_app_id("18446744073709551615"), Ok(u64::MAX));
}

#[test]
fn app_id_overflow_fails() {
    assert_eq!(to_app_id("18446744073709551616").err(), Some(DecodeError::NonNumericApplicationId));
    assert_eq!(
        to_app_id("99999999999999999999999").err(),
        Some(DecodeError::NonNumericApplicationId)
    );
    assert_eq!(to_app_id("+").err(), Some(DecodeError::NonNumericApplicationId));
    assert_eq!(to_app_id("-1").err(), Some(DecodeError::NonNumericApplicationId));
}

#[test]
fn kind_codes_map_exactly() {
    assert_eq!(kind_from_code(0), ActivityKind::Playing);
    assert_eq!(kind_from_code(2), ActivityKind::Listening);
    assert_eq!(kind_from_code(3), ActivityKind::Watching);
    assert_eq!(kind_from_code(5), ActivityKind::Competing);
}

#[test]
fn kind_codes_fall_back_to_playing() {
    assert_eq!(kind_from_code(1), ActivityKind::Playing);
    assert_eq!(kind_from_code(4), ActivityKind::Playing);
    assert_eq!(kind_from_code(99), ActivityKind::Playing);
    assert_eq!(kind_from_code(-7), ActivityKind::Playing);
}

#[test]
fn absent_kind_defaults_to_playing() {
    let r = create_activity("{\"app_id\":\"1\"}".to_string()).unwrap();
    assert_eq!(r.activity.kind, ActivityKind::Playing);
}

#[test]
fn kind_field_is_used() {
    let r = create_activity("{\"app_id\":\"1\",\"activity_kind\":2}".to_string()).unwrap();
    assert_eq!(r.activity.kind, ActivityKind::Listening);
    let r = create_activity("{\"app_id\":\"1\",\"activity_kind\":5}".to_string()).unwrap();
    assert_eq!(r.activity.kind, ActivityKind::Competing);
}

#[test]
fn fields_decode_to_record() {
    let p = parse_activity_json(
        "{\"app_id\":\"42\",\"details\":\"D\",\"state\":\"S\",\"largeImageKey\":\"K\",\"largeImageText\":\"T\",\"timestamp\":1700000000,\"activity_kind\":3}",
    )
    .unwrap();
    assert_eq!(p.app_id, "42");
    assert_eq!(p.details.as_deref(), Some("D"));
    assert_eq!(p.state.as_deref(), Some("S"));
    assert_eq!(p.large_image_key.as_deref(), Some("K"));
    assert_eq!(p.large_image_text.as_deref(), Some("T"));
    assert_eq!(p.timestamp, Some(1700000000));
    assert_eq!(p.activity_kind, Some(3));
}

#[test]
fn empty_details_and_state_are_dropped() {
    let r = create_activity(
        "{\"app_id\":\"1\",\"details\":\"\",\"state\":\"\"}".to_string(),
    )
    .unwrap();
    assert!(r.activity.details.is_none());
    assert!(r.activity.state.is_none());
}

#[test]
fn empty_image_key_drops_assets() {
    let r = create_activity(
        "{\"app_id\":\"1\",\"largeImageKey\":\"\",\"largeImageText\":\"T\"}".to_string(),
    )
    .unwrap();
    assert!(r.activity.large_image.is_none());
}

#[test]
fn image_key_keeps_text() {
    let r = create_activity(
        "{\"app_id\":\"1\",\"largeImageKey\":\"K\",\"largeImageText\":\"T\"}".to_string(),
    )
    .unwrap();
    let img = r.activity.large_image.unwrap();
    assert_eq!(img.key, "K");
    assert_eq!(img.text.as_deref(), Some("T"));
}

#[test]
fn null_optional_fields_are_absent() {
    let p = parse_activity_json("{\"app_id\":\"1\",\"details\":null,\"timestamp\":null}").unwrap();
    assert!(p.details.is_none());
    assert!(p.timestamp.is_none());
}

#[test]
fn null_app_id_is_wrong_type() {
    let r = parse_activity_json("{\"app_id\":null}");
    assert_eq!(r.err(), Some(DecodeError::WrongFieldType));
}

#[test]
fn wrong_field_types_fail() {
    let r = parse_activity_json("{\"app_id\":\"1\",\"details\":7}");
    assert_eq!(r.err(), Some(DecodeError::WrongFieldType));
    let r = parse_activity_json("{\"app_id\":\"1\",\"timestamp\":\"soon\"}");
    assert_eq!(r.err(), Some(DecodeError::WrongFieldType));
}

#[test]
fn duplicate_known_field_fails() {
    let r = parse_activity_json("{\"app_id\":\"1\",\"app_id\":\"2\"}");
    assert_eq!(r.err(), Some(DecodeError::DuplicateField));
}

#[test]
fn unknown_fields_are_ignored() {
    let p = parse_activity_json("{\"app_id\":\"1\",\"other\":\"x\",\"flag\":true,\"z\":null}")
        .unwrap();
    assert_eq!(p.app_id, "1");
}

#[test]
fn negative_timestamp_is_kept() {
    let p = parse_activity_json("{\"app_id\":\"1\",\"timestamp\":-5}").unwrap();
    assert_eq!(p.timestamp, Some(-5));
}

#[test]
fn timestamp_out_of_range_is_malformed() {
    let r = parse_activity_json("{\"app_id\":\"1\",\"timestamp\":99999999999999999999}");
    assert_eq!(r.err(), Some(DecodeError::Malformed));
}

#[test]
fn kind_out_of_i32_range_is_wrong_type() {
    let r = parse_activity_json("{\"app_id\":\"1\",\"activity_kind\":3000000000}");
    assert_eq!(r.err(), Some(DecodeError::WrongFieldType));
}

#[test]
fn string_escapes_decode() {
    let p = parse_activity_json("{\"app_id\":\"1\",\"details\":\"a\\\"b\\\\c\\nd\"}").unwrap();
    assert_eq!(p.details.as_deref(), Some("a\"b\\c\nd"));
}

#[test]
fn whitespace_is_tolerated() {
    let p = parse_activity_json(" {\n \"app_id\" : \"7\" ,\t\"details\" : \"D\" }\r\n").unwrap();
    assert_eq!(p.app_id, "7");
    assert_eq!(p.details.as_deref(), Some("D"));
}

#[test]
fn nested_containers_are_rejected() {
    let r = parse_activity_json("{\"app_id\":\"1\",\"other\":{\"a\":1}}");
    assert_eq!(r.err(), Some(DecodeError::Malformed));
    let r = parse_activity_json("{\"app_id\":\"1\",\"other\":[1,2]}");
    assert_eq!(r.err(), Some(DecodeError::Malformed));
}

#[test]
fn decode_error_messages() {
    assert_eq!(DecodeError::Malformed.message(), "Failed to parse activity JSON");
    assert_eq!(DecodeError::MissingApplicationId.message(), "Missing app_id");
    assert_eq!(DecodeError::NonNumericApplicationId.message(), "Failed to parse app_id");
}
