use ham::domain::{
    apply_event, DomainState, Event, EventApplyError, EventType, FieldType, IdempotencyComparison,
    MutationSpec,
};
use ham::json::{JsonNumber, JsonObject, JsonValue};

fn text(s: &str) -> JsonValue {
    JsonValue::String(s.to_string())
}

fn integer(i: i64) -> JsonValue {
    JsonValue::Number(JsonNumber::from_i64(i))
}

fn uint(u: u64) -> JsonValue {
    JsonValue::Number(JsonNumber::PosInt(u))
}

fn float(f: f64) -> JsonValue {
    JsonValue::Number(JsonNumber::Float(f.to_bits()))
}

fn add_f64(a: u64, b: u64) -> Option<u64> {
    let sum = f64::from_bits(a) + f64::from_bits(b);
    if sum.is_finite() {
        Some(sum.to_bits())
    } else {
        None
    }
}

fn payload(entries: &[(&str, JsonValue)]) -> JsonObject {
    let mut map = JsonObject::new();
    for (k, v) in entries {
        map.insert((*k).to_string(), v.clone());
    }
    map
}

fn state_of(entries: &[(&str, JsonValue)]) -> DomainState {
    payload(entries)
}

#[test]
fn event_type_id_and_version_must_match_definition() {
    let def = EventType {
        event_type_id: "asset.adjust".to_string(),
        event_type_version: 2,
        mutations: vec![MutationSpec::Clear {
            field_id: "note".to_string(),
        }],
    };

    let event = Event {
        idempotency_key: "k1".to_string(),
        event_type_id: "asset.adjust".to_string(),
        event_type_version: 1,
        payload: JsonObject::new(),
    };

    let mut state = DomainState::new();
    let err = apply_event(&mut state, &def, &event, add_f64).unwrap_err();

    assert!(matches!(err, EventApplyError::EventTypeMismatch { .. }));
}

#[test]
fn applies_set_clear_and_increment_mutations() {
    let def = EventType {
        event_type_id: "asset.update".to_string(),
        event_type_version: 1,
        mutations: vec![
            MutationSpec::SetValue {
                field_id: "label".to_string(),
                field_type: FieldType::Text,
                input_key: "label".to_string(),
            },
            MutationSpec::Increment {
                field_id: "count".to_string(),
                field_type: FieldType::Integer,
                input_key: "delta".to_string(),
            },
            MutationSpec::Clear {
                field_id: "obsolete".to_string(),
            },
        ],
    };

    let event = Event {
        idempotency_key: "k2".to_string(),
        event_type_id: "asset.update".to_string(),
        event_type_version: 1,
        payload: payload(&[("label", text("router")), ("delta", integer(3))]),
    };

    let mut state = state_of(&[("count", integer(4)), ("obsolete", JsonValue::Bool(true))]);

    apply_event(&mut state, &def, &event, add_f64).unwrap();

    assert_eq!(state.get("label"), Some(&text("router")));
    assert_eq!(state.get("count"), Some(&integer(7)));
    assert!(!state.contains_key("obsolete"));
}

#[test]
fn apply_is_atomic_when_any_mutation_is_invalid() {
    let def = EventType {
        event_type_id: "asset.atomic".to_string(),
        event_type_version: 1,
        mutations: vec![
            MutationSpec::Increment {
                field_id: "count".to_string(),
                field_type: FieldType::Integer,
                input_key: "delta".to_string(),
            },
            MutationSpec::SetValue {
                field_id: "label".to_string(),
                field_type: FieldType::Text,
                input_key: "label".to_string(),
            },
        ],
    };

    let event = Event {
        idempotency_key: "k3".to_string(),
        event_type_id: "asset.atomic".to_string(),
        event_type_version: 1,
        payload: payload(&[("delta", integer(2)), ("label", integer(99))]),
    };

    let mut state = state_of(&[("count", integer(10))]);
    let before = state.clone();

    let err = apply_event(&mut state, &def, &event, add_f64).unwrap_err();
    assert!(matches!(err, EventApplyError::InvalidInputValue { .. }));
    assert_eq!(state, before);
}

#[test]
fn mutation_inputs_must_exist_and_match_spec_type() {
    let def = EventType {
        event_type_id: "asset.set.status".to_string(),
        event_type_version: 1,
        mutations: vec![MutationSpec::SetValue {
            field_id: "status".to_string(),
            field_type: FieldType::Enum,
            input_key: "status".to_string(),
        }],
    };

    let mut state = DomainState::new();

    let missing = Event {
        idempotency_key: "k4".to_string(),
        event_type_id: "asset.set.status".to_string(),
        event_type_version: 1,
        payload: JsonObject::new(),
    };
    let err = apply_event(&mut state, &def, &missing, add_f64).unwrap_err();
    assert!(matches!(err, EventApplyError::MissingInput { .. }));

    let bad_type = Event {
        idempotency_key: "k5".to_string(),
        event_type_id: "asset.set.status".to_string(),
        event_type_version: 1,
        payload: payload(&[("status", integer(3))]),
    };
    let err = apply_event(&mut state, &def, &bad_type, add_f64).unwrap_err();
    assert!(matches!(err, EventApplyError::InvalidInputValue { .. }));
}

#[test]
fn increment_requires_numeric_field_types_and_no_mixed_numeric_kinds() {
    let bad_increment_def = EventType {
        event_type_id: "asset.bad.increment".to_string(),
        event_type_version: 1,
        mutations: vec![MutationSpec::Increment {
            field_id: "label".to_string(),
            field_type: FieldType::Text,
            input_key: "delta".to_string(),
        }],
    };
    let event_bad_op = Event {
        idempotency_key: "k6".to_string(),
        event_type_id: "asset.bad.increment".to_string(),
        event_type_version: 1,
        payload: payload(&[("delta", integer(1))]),
    };
    let mut state = DomainState::new();
    let err = apply_event(&mut state, &bad_increment_def, &event_bad_op, add_f64).unwrap_err();
    assert!(matches!(
        err,
        EventApplyError::InvalidIncrementTargetType { .. }
    ));

    let int_def = EventType {
        event_type_id: "asset.int.increment".to_string(),
        event_type_version: 1,
        mutations: vec![MutationSpec::Increment {
            field_id: "count".to_string(),
            field_type: FieldType::Integer,
            input_key: "delta".to_string(),
        }],
    };
    let mixed = Event {
        idempotency_key: "k7".to_string(),
        event_type_id: "asset.int.increment".to_string(),
        event_type_version: 1,
        payload: payload(&[("delta", float(1.5))]),
    };
    let err = apply_event(&mut state, &int_def, &mixed, add_f64).unwrap_err();
    assert!(matches!(err, EventApplyError::MixedNumericKinds { .. }));
}

#[test]
fn increment_integer_supports_large_u64_current_values() {
    let def = EventType {
        event_type_id: "asset.int.large".to_string(),
        event_type_version: 1,
        mutations: vec![MutationSpec::Increment {
            field_id: "count".to_string(),
            field_type: FieldType::Integer,
            input_key: "delta".to_string(),
        }],
    };

    let event = Event {
        idempotency_key: "k8".to_string(),
        event_type_id: "asset.int.large".to_string(),
        event_type_version: 1,
        payload: payload(&[("delta", integer(1))]),
    };

    let mut state = state_of(&[("count", uint(u64::MAX - 1))]);
    apply_event(&mut state, &def, &event, add_f64).unwrap();

    assert_eq!(state.get("count"), Some(&uint(u64::MAX)));
}

#[test]
fn increment_integer_overflow_returns_structured_error() {
    let def = EventType {
        event_type_id: "asset.int.overflow".to_string(),
        event_type_version: 1,
        mutations: vec![MutationSpec::Increment {
            field_id: "count".to_string(),
            field_type: FieldType::Integer,
            input_key: "delta".to_string(),
        }],
    };

    let event = Event {
        idempotency_key: "k9".to_string(),
        event_type_id: "asset.int.overflow".to_string(),
        event_type_version: 1,
        payload: payload(&[("delta", integer(1))]),
    };

    let mut state = state_of(&[("count", uint(u64::MAX))]);
    let err = apply_event(&mut state, &def, &event, add_f64).unwrap_err();
    assert!(matches!(err, EventApplyError::IntegerOverflow { .. }));
}

#[test]
fn increment_invalid_number_reports_mutation_input_key() {
    let def = EventType {
        event_type_id: "asset.int.bad-input".to_string(),
        event_type_version: 1,
        mutations: vec![MutationSpec::Increment {
            field_id: "count".to_string(),
            field_type: FieldType::Integer,
            input_key: "change".to_string(),
        }],
    };

    let event = Event {
        idempotency_key: "k10".to_string(),
        event_type_id: "asset.int.bad-input".to_string(),
        event_type_version: 1,
        payload: payload(&[("change", text("oops"))]),
    };

    let mut state = DomainState::new();
    let err = apply_event(&mut state, &def, &event, add_f64).unwrap_err();
    assert!(matches!(
        err,
        EventApplyError::InvalidInputValue { input_key, .. } if input_key == "change"
    ));
}

#[test]
fn idempotency_payload_comparison_distinguishes_match_vs_mismatch() {
    let base = Event {
        idempotency_key: "same-key".to_string(),
        event_type_id: "asset.update".to_string(),
        event_type_version: 1,
        payload: payload(&[("label", text("switch")), ("delta", integer(2))]),
    };

    let same = Event {
        idempotency_key: "same-key".to_string(),
        event_type_id: "asset.update".to_string(),
        event_type_version: 1,
        payload: payload(&[("label", text("switch")), ("delta", integer(2))]),
    };

    let different_payload = Event {
        idempotency_key: "same-key".to_string(),
        event_type_id: "asset.update".to_string(),
        event_type_version: 1,
        payload: payload(&[("label", text("switch")), ("delta", integer(3))]),
    };

    assert_eq!(
        base.compare_idempotency(&same),
        IdempotencyComparison::SamePayload
    );
    assert_eq!(
        base.compare_idempotency(&different_payload),
        IdempotencyComparison::PayloadMismatch
    );
}

#[test]
fn idempotency_ignores_key_order_and_detects_other_keys() {
    let a = Event {
        idempotency_key: "k".to_string(),
        event_type_id: "t".to_string(),
        event_type_version: 1,
        payload: payload(&[("x", integer(1)), ("y", text("b"))]),
    };
    let reordered = Event {
        idempotency_key: "k".to_string(),
        event_type_id: "t".to_string(),
        event_type_version: 1,
        payload: payload(&[("y", text("b")), ("x", integer(1))]),
    };
    let other_key = Event {
        idempotency_key: "other".to_string(),
        event_type_id: "t".to_string(),
        event_type_version: 1,
        payload: payload(&[("x", integer(1)), ("y", text("b"))]),
    };
    let other_version = Event {
        idempotency_key: "k".to_string(),
        event_type_id: "t".to_string(),
        event_type_version: 2,
        payload: payload(&[("x", integer(1)), ("y", text("b"))]),
    };
    assert_eq!(a.compare_idempotency(&a), IdempotencyComparison::SamePayload);
    assert_eq!(a.compare_idempotency(&reordered), IdempotencyComparison::SamePayload);
    assert_eq!(a.compare_idempotency(&other_key), IdempotencyComparison::DifferentKey);
    assert_eq!(a.compare_idempotency(&other_version), IdempotencyComparison::PayloadMismatch);
    assert_eq!(reordered.compare_idempotency(&a), a.compare_idempotency(&reordered));
    assert_eq!(other_version.compare_idempotency(&a), a.compare_idempotency(&other_version));
    assert_eq!(other_key.compare_idempotency(&a), a.compare_idempotency(&other_key));
}

#[test]
fn decimal_increment_adds_and_rejects_integers_in_state() {
    let def = EventType {
        event_type_id: "asset.cost".to_string(),
        event_type_version: 3,
        mutations: vec![MutationSpec::Increment {
            field_id: "cost".to_string(),
            field_type: FieldType::Decimal,
            input_key: "delta".to_string(),
        }],
    };
    let event = Event {
        idempotency_key: "d1".to_string(),
        event_type_id: "asset.cost".to_string(),
        event_type_version: 3,
        payload: payload(&[("delta", float(0.25))]),
    };
    let mut state = state_of(&[("cost", float(1.5))]);
    apply_event(&mut state, &def, &event, add_f64).unwrap();
    assert_eq!(state.get("cost"), Some(&float(1.75)));

    let mut fresh = DomainState::new();
    apply_event(&mut fresh, &def, &event, add_f64).unwrap();
    assert_eq!(fresh.get("cost"), Some(&float(0.25)));

    let mut mixed = state_of(&[("cost", integer(2))]);
    let err = apply_event(&mut mixed, &def, &event, add_f64).unwrap_err();
    assert!(matches!(err, EventApplyError::MixedNumericKinds { .. }));

    let integer_input = Event {
        idempotency_key: "d2".to_string(),
        event_type_id: "asset.cost".to_string(),
        event_type_version: 3,
        payload: payload(&[("delta", integer(2))]),
    };
    let err = apply_event(&mut fresh, &def, &integer_input, add_f64).unwrap_err();
    assert!(matches!(err, EventApplyError::MixedNumericKinds { .. }));

    let huge = Event {
        idempotency_key: "d3".to_string(),
        event_type_id: "asset.cost".to_string(),
        event_type_version: 3,
        payload: payload(&[("delta", float(f64::MAX))]),
    };
    let mut big = state_of(&[("cost", float(f64::MAX))]);
    let err = apply_event(&mut big, &def, &huge, add_f64).unwrap_err();
    assert!(matches!(err, EventApplyError::MixedNumericKinds { .. }));
    assert_eq!(big.get("cost"), Some(&float(f64::MAX)));
}

#[test]
fn negative_integer_increment_goes_below_zero() {
    let def = EventType {
        event_type_id: "asset.count".to_string(),
        event_type_version: 1,
        mutations: vec![MutationSpec::Increment {
            field_id: "count".to_string(),
            field_type: FieldType::Integer,
            input_key: "delta".to_string(),
        }],
    };
    let event = Event {
        idempotency_key: "n1".to_string(),
        event_type_id: "asset.count".to_string(),
        event_type_version: 1,
        payload: payload(&[("delta", integer(-5))]),
    };
    let mut state = state_of(&[("count", integer(3))]);
    apply_event(&mut state, &def, &event, add_f64).unwrap();
    assert_eq!(state.get("count"), Some(&integer(-2)));

    let mut low = state_of(&[("count", integer(i64::MIN))]);
    let err = apply_event(&mut low, &def, &event, add_f64).unwrap_err();
    assert!(matches!(err, EventApplyError::IntegerOverflow { .. }));
}

#[test]
fn apply_error_messages_are_readable() {
    let mismatch = EventApplyError::EventTypeMismatch {
        expected_event_type_id: "a".to_string(),
        expected_event_type_version: 2,
        found_event_type_id: "b".to_string(),
        found_event_type_version: 1,
    };
    assert_eq!(mismatch.to_string(), "event type mismatch: expected a@2, got b@1");
    let missing = EventApplyError::MissingInput {
        input_key: "delta".to_string(),
    };
    assert_eq!(missing.to_string(), "missing required input key 'delta'");
    let invalid = EventApplyError::InvalidInputValue {
        input_key: "ip".to_string(),
        field_type: FieldType::ExternalEntity(4),
        reason: ham::domain::ValidationError::ExternalEntityMustBeIntegerId,
    };
    assert_eq!(
        invalid.to_string(),
        "invalid input 'ip' for ExternalEntity(4): external entity value must be an integer id"
    );
    let target = EventApplyError::InvalidIncrementTargetType {
        field_id: "label".to_string(),
        field_type: FieldType::Text,
    };
    assert_eq!(
        target.to_string(),
        "increment on 'label' is invalid for field type Text"
    );
    let mixed = EventApplyError::MixedNumericKinds {
        field_id: "cost".to_string(),
    };
    assert_eq!(mixed.to_string(), "increment for 'cost' mixed integer/decimal kinds");
    let overflow = EventApplyError::IntegerOverflow {
        field_id: "count".to_string(),
    };
    assert_eq!(overflow.to_string(), "integer increment overflow for 'count'");
}
