use std::hash::{Hash, Hasher};
use ham::domain::{DomainState, EventApplyError, EventType, FieldType, MutationSpec};
use ham::json::{JsonNumber, JsonObject, JsonValue};
use ham::server::{
    hex16_text, idempotency_scope_hash,
    apply_error_reply, applied_status, check_external_entity_type, clamp_limit,
    create_event_precheck, decode_cursor, default_limit, delete_guard_step, encode_cursor,
    event_apply_message, format_tag, guard_reply, is_supported_operation, json_object, mutation_from_row,
    reference_probes, GuardedChange, check_version_delete, event_type_create_reply,
    event_type_version_create_reply, first_unsupported_operation, mutations_required_reply,
    numbered_mutations, version_delete_reply, EventTypeCreateError, EventTypeDeleteVersionError,
    EventTypeVersionCreateError, MutationRequest, event_list_reply, EventListError,
    page_from_rows, parse_field_type, stored_version, value_reference, EventApplyRepoError,
    EventListItem, GuardStep, HttpReply, TagGeneratorSettings, ValueReference, replay_step, ReplayStep, apply_new_event,
};

fn settings(prefix: &str, width: usize, separator: &str) -> TagGeneratorSettings {
    TagGeneratorSettings {
        prefix: prefix.to_string(),
        number_width: width,
        separator: separator.to_string(),
    }
}

fn item(id: i64) -> EventListItem {
    EventListItem {
        event_id: id,
        event_type_id: "t".to_string(),
        event_type_version: 1,
        payload: JsonValue::Null,
        timestamp: "2024-01-01 00:00:00".to_string(),
        idempotency_key: format!("k-{id}"),
    }
}

#[test]
fn format_tag_pads_and_joins() {
    assert_eq!(format_tag(&settings("AST", 6, "-"), 42), "AST-000042");
    assert_eq!(format_tag(&settings("AST", 3, ""), 7), "AST007");
    assert_eq!(format_tag(&settings("", 4, "-"), 7), "0007");
    assert_eq!(format_tag(&settings("A", 2, "-"), 12345), "A-12345");
    assert_eq!(format_tag(&settings("", 5, ""), -42), "-0042");
}

#[test]
fn field_types_from_stored_names() {
    assert_eq!(parse_field_type("integer", None), FieldType::Integer);
    assert_eq!(parse_field_type("mac_address", None), FieldType::MacAddress);
    assert_eq!(parse_field_type("external_entity", Some(9)), FieldType::ExternalEntity(9));
    assert_eq!(parse_field_type("external_entity", None), FieldType::ExternalEntity(0));
    assert_eq!(parse_field_type("unknown", None), FieldType::Text);
}

#[test]
fn operations_and_rows() {
    assert!(is_supported_operation("set"));
    assert!(is_supported_operation("increment"));
    assert!(!is_supported_operation("multiply"));
    match mutation_from_row("set".to_string(), "owner".to_string(), "text", None, None).unwrap() {
        MutationSpec::SetValue { field_id, field_type, input_key } => {
            assert_eq!(field_id, "owner");
            assert_eq!(field_type, FieldType::Text);
            assert_eq!(input_key, "value");
        }
        other => panic!("unexpected {other:?}"),
    }
    match mutation_from_row("increment".to_string(), "count".to_string(), "integer", None, None).unwrap() {
        MutationSpec::Increment { input_key, .. } => assert_eq!(input_key, "delta"),
        other => panic!("unexpected {other:?}"),
    }
    match mutation_from_row("multiply".to_string(), "x".to_string(), "text", None, None) {
        Err(EventApplyRepoError::EventTypeMutationInvalid(op)) => assert_eq!(op, "multiply"),
        other => panic!("unexpected {other:?}"),
    }
    assert_eq!(stored_version(3), 3);
    assert_eq!(stored_version(-1), 1);
    assert_eq!(stored_version(1 << 40), 1);
}

#[test]
fn cursors_round_trip_and_pages_cut() {
    let c = encode_cursor("2024-01-01", 101);
    assert_eq!(c, "101");
    assert_eq!(decode_cursor(&c), Some(101));
    assert_eq!(decode_cursor("not-a-number"), None);
    assert_eq!(default_limit(), 50);
    assert_eq!(clamp_limit(0), 1);
    assert_eq!(clamp_limit(500), 100);
    assert_eq!(clamp_limit(20), 20);

    let page = page_from_rows(vec![item(102), item(101), item(100)], 2);
    assert_eq!(page.items.len(), 2);
    assert_eq!(page.items[1].event_id, 101);
    assert_eq!(page.next_cursor.as_deref(), Some("101"));
    let last = page_from_rows(vec![item(100)], 2);
    assert_eq!(last.items.len(), 1);
    assert_eq!(last.next_cursor, None);
}

#[test]
fn payload_must_be_an_object() {
    let mut o = JsonObject::new();
    o.insert("owner".to_string(), JsonValue::String("a".to_string()));
    assert!(json_object(JsonValue::Object(o)).is_ok());
    match json_object(JsonValue::Bool(true)) {
        Err(EventApplyRepoError::InvalidPayload(m)) => assert_eq!(m, "payload must be an object"),
        other => panic!("unexpected {other:?}"),
    }
}

#[test]
fn value_references_by_tag_type() {
    assert_eq!(
        value_reference("enum", "status", &JsonValue::String("active".to_string())).unwrap(),
        ValueReference::EnumOption("active".to_string())
    );
    match value_reference("enum", "status", &JsonValue::Bool(true)) {
        Err(EventApplyRepoError::InvalidPayload(m)) => {
            assert_eq!(m, "enum field `status` requires string option key")
        }
        other => panic!("unexpected {other:?}"),
    }
    assert_eq!(
        value_reference("external_entity", "vendor", &JsonValue::Number(JsonNumber::from_i64(31)))
            .unwrap(),
        ValueReference::ExternalEntity(31)
    );
    match value_reference("external_entity", "vendor", &JsonValue::String("31".to_string())) {
        Err(EventApplyRepoError::InvalidPayload(m)) => {
            assert_eq!(m, "external_entity field `vendor` requires integer id")
        }
        other => panic!("unexpected {other:?}"),
    }
    assert_eq!(
        value_reference("text", "owner", &JsonValue::Null).unwrap(),
        ValueReference::Nothing
    );
    assert!(check_external_entity_type("vendor", 31, 4, Some(4)).is_ok());
    assert!(matches!(
        check_external_entity_type("vendor", 31, 5, Some(4)),
        Err(EventApplyRepoError::ExternalEntityTypeMismatch { entity_id: 31, expected_type_id: 4, found_type_id: 5, .. })
    ));
    assert!(matches!(
        check_external_entity_type("vendor", 31, 5, None),
        Err(EventApplyRepoError::ExternalEntityTypeMissing(_))
    ));
}

#[test]
fn event_request_prechecks() {
    assert_eq!(create_event_precheck(Some("  idem-1 "), false), Ok("idem-1".to_string()));
    assert_eq!(create_event_precheck(Some("\u{3000}k 2\u{a0}\t"), false), Ok("k 2".to_string()));
    assert!(create_event_precheck(Some("\u{2028}\u{85}"), false).is_err());
    let missing = create_event_precheck(Some("   "), false).unwrap_err();
    assert_eq!(missing.status, 400);
    assert_eq!(missing.reason_code.as_deref(), Some("IDEMPOTENCY_KEY_REQUIRED"));
    let none = create_event_precheck(None, true).unwrap_err();
    assert_eq!(none.reason_code.as_deref(), Some("IDEMPOTENCY_KEY_REQUIRED"));
    let ts = create_event_precheck(Some("k"), true).unwrap_err();
    assert_eq!(ts.reason_code.as_deref(), Some("EVENT_TIMESTAMP_FORBIDDEN"));
    assert_eq!(ts.message.as_deref(), Some("client timestamp override is not allowed"));
    assert_eq!(applied_status(true), 200);
    assert_eq!(applied_status(false), 201);
}

#[test]
fn apply_errors_become_replies() {
    assert_eq!(
        apply_error_reply(&EventApplyRepoError::AssetNotFound),
        HttpReply { status: 404, reason_code: None, message: None }
    );
    let r = apply_error_reply(&EventApplyRepoError::IdempotencyPayloadMismatch);
    assert_eq!(r.status, 409);
    assert_eq!(r.reason_code.as_deref(), Some("IDEMPOTENCY_KEY_PAYLOAD_MISMATCH"));
    let r = apply_error_reply(&EventApplyRepoError::InvalidPayload("bad".to_string()));
    assert_eq!(r.status, 400);
    assert_eq!(r.message.as_deref(), Some("bad"));
    let r = apply_error_reply(&EventApplyRepoError::Sql("locked".to_string()));
    assert_eq!(r.status, 500);
    assert_eq!(r.reason_code.as_deref(), Some("INTERNAL_ERROR"));
    assert_eq!(r.message.as_deref(), Some("database error: locked"));
    let r = apply_error_reply(&EventApplyRepoError::ExternalEntityTypeMissing("v".to_string()));
    assert_eq!(r.reason_code.as_deref(), Some("EVENT_VALUE_REFERENCE_CONFLICT"));
    assert_eq!(
        EventApplyRepoError::ExternalEntityTypeMismatch {
            field_id: "v".to_string(),
            entity_id: 1,
            expected_type_id: 2,
            found_type_id: 3
        }
        .to_string(),
        "external entity type mismatch for `v`: entity 1 has type 3, expected 2"
    );
    let e = EventApplyError::MissingInput { input_key: "delta".to_string() };
    assert_eq!(event_apply_message(&e), "missing required input key 'delta'");
}

#[test]
fn guarded_delete_steps() {
    assert_eq!(delete_guard_step(3, 0, false), GuardStep::NotFound);
    assert_eq!(delete_guard_step(3, 0, true), GuardStep::Probe(1));
    assert_eq!(delete_guard_step(3, 1, false), GuardStep::Probe(2));
    assert_eq!(delete_guard_step(3, 2, true), GuardStep::Conflict);
    assert_eq!(delete_guard_step(3, 3, false), GuardStep::Delete);
    assert_eq!(delete_guard_step(0, 0, true), GuardStep::Delete);
}

fn run_guard(change: GuardedChange, answers: &[bool]) -> HttpReply {
    let probes = reference_probes(change);
    let mut at = 0;
    for &found in answers {
        let step = delete_guard_step(probes, at, found);
        if let Some(reply) = guard_reply(change, step, at) {
            return reply;
        }
        match step {
            GuardStep::Probe(next) => at = next,
            _ => unreachable!(),
        }
    }
    panic!("guard did not decide");
}

#[test]
fn guarded_changes_answer_by_their_table() {
    let r = run_guard(GuardedChange::TagDefinitionDelete, &[true, false, true]);
    assert_eq!(r.status, 409);
    assert_eq!(r.reason_code.as_deref(), Some("TAG_DEFINITION_IN_USE"));
    assert_eq!(r.message.as_deref(), Some("cannot delete tag definition while referenced"));

    let r = run_guard(GuardedChange::TagDefinitionDelete, &[true, false, false, false, false]);
    assert_eq!(r, HttpReply { status: 204, reason_code: None, message: None });

    let r = run_guard(GuardedChange::CategoryDelete, &[true, false, true]);
    assert_eq!(r.reason_code.as_deref(), Some("CATEGORY_HAS_ASSETS"));
    let r = run_guard(GuardedChange::CategoryDelete, &[true, true]);
    assert_eq!(r.reason_code.as_deref(), Some("CATEGORY_HAS_CHILDREN"));
    assert_eq!(r.message.as_deref(), Some("category has child categories"));

    let r = run_guard(GuardedChange::ExternalEntityDelete, &[false]);
    assert_eq!(r, HttpReply { status: 404, reason_code: None, message: None });

    let r = run_guard(GuardedChange::AssetDelete, &[true]);
    assert_eq!(r.status, 204);
    assert_eq!(reference_probes(GuardedChange::ExternalEntityTypeDelete), 2);
}

fn mutation(operation: &str, tag: i64, key: Option<&str>) -> MutationRequest {
    MutationRequest { operation: operation.to_string(), tag_definition_id: tag, input_key: key.map(|k| k.to_string()) }
}

#[test]
fn new_event_type_mutations_are_numbered_and_checked() {
    let ms = numbered_mutations(&[mutation("set", 4, Some("vendor")), mutation("rename", 5, None), mutation("clear", 6, None)]);
    assert_eq!(ms.iter().map(|m| m.mutation_index).collect::<Vec<_>>(), vec![0, 1, 2]);
    assert_eq!(ms[0].input_key.as_deref(), Some("vendor"));
    assert_eq!(ms[2].tag_definition_id, 6);
    assert_eq!(first_unsupported_operation(&ms), Some("rename".to_string()));
    assert_eq!(first_unsupported_operation(&ms[..1]), None);
}

#[test]
fn event_type_requests_are_answered_by_their_errors() {
    let r = mutations_required_reply(true);
    assert_eq!((r.status, r.reason_code.as_deref()), (400, Some("EVENT_TYPE_MUTATIONS_REQUIRED")));
    assert_eq!(r.message.as_deref(), Some("event type must include at least one mutation"));
    assert_eq!(mutations_required_reply(false).message.as_deref(), Some("event type version must include at least one mutation"));

    let r = event_type_create_reply(&EventTypeCreateError::AlreadyExists);
    assert_eq!((r.status, r.reason_code.as_deref()), (409, Some("EVENT_TYPE_ALREADY_EXISTS")));
    let r = event_type_create_reply(&EventTypeCreateError::TagDefinitionMissing(42));
    assert_eq!(r.message.as_deref(), Some("tag definition `42` does not exist"));
    let r = event_type_create_reply(&EventTypeCreateError::UnsupportedMutationOperation("rename".to_string()));
    assert_eq!((r.status, r.message.as_deref()), (400, Some("mutation operation `rename` is not supported")));
    let r = event_type_create_reply(&EventTypeCreateError::Sql("disk I/O error".to_string()));
    assert_eq!((r.status, r.message.as_deref()), (500, Some("database error: disk I/O error")));

    let r = event_type_version_create_reply(&EventTypeVersionCreateError::EventTypeNotFound);
    assert_eq!(r, HttpReply { status: 404, reason_code: None, message: None });
    let r = event_type_version_create_reply(&EventTypeVersionCreateError::TagDefinitionMissing(-1));
    assert_eq!(r.message.as_deref(), Some("tag definition `-1` does not exist"));
}

#[test]
fn event_type_versions_are_deleted_only_when_safe() {
    assert_eq!(check_version_delete(None, true, false, 3), Err(EventTypeDeleteVersionError::EventTypeNotFound));
    assert_eq!(check_version_delete(Some(2), false, false, 3), Err(EventTypeDeleteVersionError::VersionNotFound));
    assert_eq!(check_version_delete(Some(2), true, true, 3), Err(EventTypeDeleteVersionError::VersionInUse));
    assert_eq!(check_version_delete(Some(2), true, false, 1), Err(EventTypeDeleteVersionError::CannotDeleteOnlyVersion));
    assert_eq!(check_version_delete(Some(2), true, false, 2), Ok(2));

    assert_eq!(version_delete_reply(&Ok(())).status, 204);
    assert_eq!(version_delete_reply(&Err(EventTypeDeleteVersionError::VersionNotFound)).status, 404);
    let r = version_delete_reply(&Err(EventTypeDeleteVersionError::CannotDeleteOnlyVersion));
    assert_eq!((r.status, r.message.as_deref()), (409, Some("cannot delete only remaining version")));
    let r = version_delete_reply(&Err(EventTypeDeleteVersionError::VersionInUse));
    assert_eq!(r.reason_code.as_deref(), Some("EVENT_TYPE_VERSION_IN_USE"));
}

#[test]
fn timeline_listing_errors_are_answered() {
    assert_eq!(event_list_reply(&EventListError::AssetNotFound), HttpReply { status: 404, reason_code: None, message: None });
    let r = event_list_reply(&EventListError::InvalidCursor);
    assert_eq!((r.status, r.reason_code.as_deref(), r.message.as_deref()), (400, Some("INVALID_CURSOR"), Some("cursor format is invalid")));
    let r = event_list_reply(&EventListError::Sql("locked".to_string()));
    assert_eq!((r.status, r.message.as_deref()), (500, Some("database error: locked")));
}

#[test]
fn replays_of_an_idempotency_key() {
    assert_eq!(replay_step(None, "h1", "asset.update").unwrap(), ReplayStep::ApplyNew);
    assert_eq!(replay_step(Some(("h1", "asset.update")), "h1", "asset.update").unwrap(), ReplayStep::ReturnExisting);
    assert!(matches!(
        replay_step(Some(("h0", "asset.update")), "h1", "asset.update"),
        Err(EventApplyRepoError::IdempotencyPayloadMismatch)
    ));
    assert!(matches!(
        replay_step(Some(("h1", "asset.move")), "h1", "asset.update"),
        Err(EventApplyRepoError::IdempotencyPayloadMismatch)
    ));
}

fn add_bits(a: u64, b: u64) -> Option<u64> {
    let sum = f64::from_bits(a) + f64::from_bits(b);
    if sum.is_finite() {
        Some(sum.to_bits())
    } else {
        None
    }
}

#[test]
fn new_events_check_type_payload_then_apply() {
    let def = EventType {
        event_type_id: "asset.label".to_string(),
        event_type_version: 2,
        mutations: vec![MutationSpec::SetValue {
            field_id: "label".to_string(),
            field_type: FieldType::Text,
            input_key: "label".to_string(),
        }],
    };
    let mut state = DomainState::new();
    assert!(matches!(
        apply_new_event(&mut state, None, "k".to_string(), JsonValue::Object(JsonObject::new()), add_bits),
        Err(EventApplyRepoError::EventTypeNotFound)
    ));
    match apply_new_event(&mut state, Some(def.clone()), "k".to_string(), JsonValue::Null, add_bits) {
        Err(EventApplyRepoError::InvalidPayload(m)) => assert_eq!(m, "payload must be an object"),
        other => panic!("unexpected {other:?}"),
    }
    match apply_new_event(&mut state, Some(def.clone()), "k".to_string(), JsonValue::Object(JsonObject::new()), add_bits) {
        Err(EventApplyRepoError::InvalidPayload(_)) => {},
        other => panic!("unexpected {other:?}"),
    }
    assert_eq!(state.len(), 0);
    let mut payload = JsonObject::new();
    payload.insert("label".to_string(), JsonValue::String("core".to_string()));
    let event = apply_new_event(&mut state, Some(def), "k".to_string(), JsonValue::Object(payload), add_bits).unwrap();
    assert_eq!(event.event_type_version, 2);
    assert_eq!(event.idempotency_key, "k");
    assert_eq!(state.get("label"), Some(&JsonValue::String("core".to_string())));
}

#[test]
fn scope_hash_is_sixteen_hex_digits_of_the_hasher() {
    assert_eq!(hex16_text(255), "00000000000000ff");
    assert_eq!(hex16_text(0), "0000000000000000");
    assert_eq!(hex16_text(u64::MAX), "ffffffffffffffff");
    assert_eq!(hex16_text(0x0123_4567_89ab_cdef), "0123456789abcdef");
    let a = idempotency_scope_hash("POST", "/api/v1/assets/7/events", 7, "{\"status\":\"active\"}");
    let b = idempotency_scope_hash("POST", "/api/v1/assets/7/events", 7, "{\"status\":\"active\"}");
    let c = idempotency_scope_hash("POST", "/api/v1/assets/7/events", 7, "{\"status\":\"retired\"}");
    assert_eq!(a, b);
    assert_ne!(a, c);
    assert_eq!(a.len(), 16);
    assert!(a.chars().all(|ch| ch.is_ascii_hexdigit() && !ch.is_ascii_uppercase()));
    let mut hasher = std::collections::hash_map::DefaultHasher::new();
    "POST".hash(&mut hasher);
    "/api/v1/assets/7/events".hash(&mut hasher);
    7i64.hash(&mut hasher);
    "{\"status\":\"active\"}".hash(&mut hasher);
    assert_eq!(a, format!("{:016x}", hasher.finish()));
}
