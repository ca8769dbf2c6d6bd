use ham::domain::{
    is_decimal_string, is_ipv4_string, validate_tag_value, FieldType, StoredTagValue,
    ValidationError,
};
use ham::json::{JsonNumber, JsonValue};

fn text(s: &str) -> JsonValue {
    JsonValue::String(s.to_string())
}

fn integer(i: i64) -> JsonValue {
    JsonValue::Number(JsonNumber::from_i64(i))
}

#[test]
fn stored_tag_value_rejects_json_null() {
    let err = StoredTagValue::new(JsonValue::Null).unwrap_err();
    assert_eq!(err, ValidationError::NullValueNotAllowed);
}

#[test]
fn money_requires_decimal_string_not_number() {
    let good = text("12.34");
    assert!(validate_tag_value(&FieldType::Money, &good).is_ok());

    let bad = JsonValue::Number(JsonNumber::Float(12.34f64.to_bits()));
    let err = validate_tag_value(&FieldType::Money, &bad).unwrap_err();
    assert_eq!(err, ValidationError::MoneyMustBeDecimalString);
}

#[test]
fn ipv4_requires_canonical_dotted_quad() {
    let good = text("192.168.1.10");
    assert!(validate_tag_value(&FieldType::Ipv4, &good).is_ok());

    let leading_zero = text("192.168.01.10");
    let err = validate_tag_value(&FieldType::Ipv4, &leading_zero).unwrap_err();
    assert_eq!(err, ValidationError::InvalidIpv4);

    let out_of_range = text("192.168.1.256");
    let err = validate_tag_value(&FieldType::Ipv4, &out_of_range).unwrap_err();
    assert_eq!(err, ValidationError::InvalidIpv4);
}

#[test]
fn enum_value_must_be_string_option_key() {
    let good = text("active");
    assert!(validate_tag_value(&FieldType::Enum, &good).is_ok());

    let bad = integer(10);
    let err = validate_tag_value(&FieldType::Enum, &bad).unwrap_err();
    assert_eq!(err, ValidationError::EnumMustBeStringOptionKey);
}

#[test]
fn external_entity_value_must_be_integer_id() {
    let good = integer(42);
    assert!(validate_tag_value(&FieldType::ExternalEntity(4), &good).is_ok());

    let bad = text("42");
    let err = validate_tag_value(&FieldType::ExternalEntity(4), &bad).unwrap_err();
    assert_eq!(err, ValidationError::ExternalEntityMustBeIntegerId);
}

#[test]
fn stored_tag_value_keeps_other_values() {
    let v = StoredTagValue::new(text("x")).unwrap();
    assert_eq!(v.into_inner(), text("x"));
}

#[test]
fn every_field_type_refuses_null() {
    let types = [
        FieldType::Text,
        FieldType::Integer,
        FieldType::Decimal,
        FieldType::Boolean,
        FieldType::Date,
        FieldType::Datetime,
        FieldType::Money,
        FieldType::Url,
        FieldType::MacAddress,
        FieldType::Ipv4,
        FieldType::Enum,
        FieldType::ExternalEntity(1),
    ];
    for t in types.iter() {
        assert_eq!(
            validate_tag_value(t, &JsonValue::Null),
            Err(ValidationError::NullValueNotAllowed)
        );
    }
}

#[test]
fn scalar_field_types_check_their_shape() {
    assert_eq!(validate_tag_value(&FieldType::Text, &integer(1)), Err(ValidationError::ExpectedString));
    assert_eq!(validate_tag_value(&FieldType::Integer, &text("1")), Err(ValidationError::ExpectedInteger));
    assert_eq!(
        validate_tag_value(
            &FieldType::Integer,
            &JsonValue::Number(JsonNumber::PosInt(u64::MAX))
        ),
        Err(ValidationError::ExpectedInteger)
    );
    assert!(validate_tag_value(&FieldType::Integer, &integer(-7)).is_ok());
    assert!(validate_tag_value(
        &FieldType::Decimal,
        &JsonValue::Number(JsonNumber::Float(0.5f64.to_bits()))
    )
    .is_ok());
    assert_eq!(validate_tag_value(&FieldType::Decimal, &text("0.5")), Err(ValidationError::ExpectedNumber));
    assert!(validate_tag_value(&FieldType::Boolean, &JsonValue::Bool(false)).is_ok());
    assert_eq!(validate_tag_value(&FieldType::Boolean, &integer(0)), Err(ValidationError::ExpectedBoolean));
}

#[test]
fn decimal_strings() {
    assert!(is_decimal_string("12"));
    assert!(is_decimal_string("-0.5"));
    assert!(is_decimal_string("+.5"));
    assert!(is_decimal_string("5."));
    assert!(!is_decimal_string(""));
    assert!(!is_decimal_string("-"));
    assert!(!is_decimal_string("."));
    assert!(!is_decimal_string("1.2.3"));
    assert!(!is_decimal_string("1e3"));
    assert!(!is_decimal_string("\u{0663}"));
}

#[test]
fn ipv4_strings() {
    assert!(is_ipv4_string("0.0.0.0"));
    assert!(is_ipv4_string("255.255.255.255"));
    assert!(!is_ipv4_string("1.2.3"));
    assert!(!is_ipv4_string("1.2.3.4.5"));
    assert!(!is_ipv4_string("1..3.4"));
    assert!(!is_ipv4_string("1.2.3.4."));
    assert!(!is_ipv4_string("00.1.2.3"));
    assert!(!is_ipv4_string("1.2.3.+4"));
    assert!(!is_ipv4_string("99999.1.1.1"));
    assert!(!is_ipv4_string(""));
}

#[test]
fn validation_messages() {
    assert_eq!(ValidationError::InvalidIpv4.to_string(), "invalid ipv4 value");
    assert_eq!(
        ValidationError::NullValueNotAllowed.to_string(),
        "null is not an allowed stored tag value"
    );
}
