//! The decisions of the HAM server that do not touch its database: asset tag
//! numbering, how stored mutation rows become mutations, event timeline
//! cursors and pages, and which answer each outcome of an event request gets.
use vstd::prelude::*;
use crate::text::{eq_lit, chars_of, i64_text, int_text, lemma_int_text_parses, padded_int_text, parse_i64, parse_i64_spec, trim_str, trimmed_text, zero_padded};
use crate::domain::{apply_error_text, apply_event, apply_outcome, is_decimal_adder, ApplyErrorView, DomainState, Event, EventApplyError, EventType, FieldType, MutationSpec};
use crate::json::{JsonObject, JsonValue, json_as_i64, str_eq};
use crate::text::push_char;
use std::collections::hash_map::DefaultHasher;
use std::hash::{Hash, Hasher};

verus! {

/// How generated asset tags look: a prefix, a separator, then the number
/// zero-padded to a width.
#[derive(Debug, Clone)]
pub struct TagGeneratorSettings {
    pub prefix: String,
    pub number_width: usize,
    pub separator: String,
}

/// The tag for number `value` under `settings`: the padded number alone when
/// there is no prefix, else the prefix, the separator if any, and the number.
pub open spec fn tag_text(settings: TagGeneratorSettings, value: i64) -> Seq<char> {
    let number = padded_int_text(value as int, settings.number_width as int);
    if settings.prefix@.len() == 0 {
        number
    } else if settings.separator@.len() == 0 {
        settings.prefix@ + number
    } else {
        settings.prefix@ + settings.separator@ + number
    }
}

/// The tag for number `value` (see `tag_text`).
pub fn format_tag(settings: &TagGeneratorSettings, value: i64) -> (s: String)
    ensures
        s@ == tag_text(*settings, value),
{
    let number = zero_padded(value, settings.number_width);
    if settings.prefix.as_str().unicode_len() == 0 {
        number
    } else if settings.separator.as_str().unicode_len() == 0 {
        let mut s = settings.prefix.clone();
        s.append(number.as_str());
        s
    } else {
        let mut s = settings.prefix.clone();
        s.append(settings.separator.as_str());
        s.append(number.as_str());
        s
    }
}

} // verus!

verus! {

/// A mutation of an event type version, as stored.
#[derive(Debug, Clone)]
pub struct EventMutationRow {
    pub mutation_index: i64,
    pub operation: String,
    pub tag_definition_id: i64,
    pub input_key: Option<String>,
}

/// A version of an event type, as stored.
#[derive(Debug, Clone)]
pub struct EventTypeVersionRecord {
    pub event_type_id: String,
    pub display_name: String,
    pub description: Option<String>,
    pub version: i64,
    pub mutations: Vec<EventMutationRow>,
}

/// A mutation of a new event type version, to store.
#[derive(Debug, Clone)]
pub struct NewEventMutation {
    pub mutation_index: i64,
    pub operation: String,
    pub tag_definition_id: i64,
    pub input_key: Option<String>,
}

/// The field type a stored value type names; unknown names are text, and an
/// external-entity type without its entity type refers to entity type 0.
pub open spec fn field_type_named(value_type: Seq<char>, external_entity_type_id: Option<i64>) -> FieldType {
    if value_type == "text"@ {
        FieldType::Text
    } else if value_type == "integer"@ {
        FieldType::Integer
    } else if value_type == "decimal"@ {
        FieldType::Decimal
    } else if value_type == "boolean"@ {
        FieldType::Boolean
    } else if value_type == "date"@ {
        FieldType::Date
    } else if value_type == "datetime"@ {
        FieldType::Datetime
    } else if value_type == "money"@ {
        FieldType::Money
    } else if value_type == "url"@ {
        FieldType::Url
    } else if value_type == "mac_address"@ {
        FieldType::MacAddress
    } else if value_type == "ipv4"@ {
        FieldType::Ipv4
    } else if value_type == "enum"@ {
        FieldType::Enum
    } else if value_type == "external_entity"@ {
        FieldType::ExternalEntity(
            match external_entity_type_id {
                Some(id) => id,
                None => 0,
            },
        )
    } else {
        FieldType::Text
    }
}

/// The field type a stored value type names (see `field_type_named`).
pub fn parse_field_type(value_type: &str, external_entity_type_id: Option<i64>) -> (t: FieldType)
    ensures
        t == field_type_named(value_type@, external_entity_type_id),
{
    let v = chars_of(value_type);
    if eq_lit(&v, "text") {
        FieldType::Text
    } else if eq_lit(&v, "integer") {
        FieldType::Integer
    } else if eq_lit(&v, "decimal") {
        FieldType::Decimal
    } else if eq_lit(&v, "boolean") {
        FieldType::Boolean
    } else if eq_lit(&v, "date") {
        FieldType::Date
    } else if eq_lit(&v, "datetime") {
        FieldType::Datetime
    } else if eq_lit(&v, "money") {
        FieldType::Money
    } else if eq_lit(&v, "url") {
        FieldType::Url
    } else if eq_lit(&v, "mac_address") {
        FieldType::MacAddress
    } else if eq_lit(&v, "ipv4") {
        FieldType::Ipv4
    } else if eq_lit(&v, "enum") {
        FieldType::Enum
    } else if eq_lit(&v, "external_entity") {
        FieldType::ExternalEntity(
            match external_entity_type_id {
                Some(id) => id,
                None => 0,
            },
        )
    } else {
        FieldType::Text
    }
}

/// Whether `operation` is a mutation operation events can carry.
pub open spec fn supported_operation(operation: Seq<char>) -> bool {
    operation == "set"@ || operation == "clear"@ || operation == "increment"@
}

/// Whether `operation` is `set`, `clear` or `increment`.
pub fn is_supported_operation(operation: &str) -> (b: bool)
    ensures
        b == supported_operation(operation@),
{
    let v = chars_of(operation);
    eq_lit(&v, "set") || eq_lit(&v, "clear") || eq_lit(&v, "increment")
}

/// The cursor after event `event_id`: its id in decimal.
pub fn encode_cursor(timestamp: &str, event_id: i64) -> (c: String)
    ensures
        c@ == int_text(event_id as int),
{
    i64_text(event_id)
}

/// The event id a cursor names, if it is a decimal `i64`.
pub fn decode_cursor(cursor: &str) -> (r: Option<i64>)
    ensures
        r == parse_i64_spec(cursor@),
{
    parse_i64(cursor)
}

/// A cursor made for an event names that event.
pub proof fn lemma_cursor_round_trip(event_id: i64)
    ensures
        parse_i64_spec(int_text(event_id as int)) == Some(event_id),
{
    lemma_int_text_parses(event_id);
}

/// The page size asked for when none is given.
pub fn default_limit() -> (n: usize)
    ensures
        n == 50,
{
    50
}

/// A requested page size, brought between 1 and 100.
pub fn clamp_limit(limit: usize) -> (n: usize)
    ensures
        n == (if limit < 1 {
            1
        } else if limit > 100 {
            100
        } else {
            limit
        }),
{
    if limit < 1 {
        1
    } else if limit > 100 {
        100
    } else {
        limit
    }
}

/// Why an event could not be applied to an asset.
#[derive(Debug, Clone)]
pub enum EventApplyRepoError {
    AssetNotFound,
    EventTypeNotFound,
    IdempotencyPayloadMismatch,
    EventTypeMutationInvalid(String),
    EnumOptionNotFound { field_id: String, option_key: String },
    ExternalEntityNotFound { field_id: String, entity_id: i64 },
    ExternalEntityTypeMismatch { field_id: String, entity_id: i64, expected_type_id: i64, found_type_id: i64 },
    ExternalEntityTypeMissing(String),
    InvalidPayload(String),
    Sql(String),
}

/// The message under which an event application error is reported.
pub fn event_apply_message(err: &EventApplyError) -> (s: String)
    ensures
        s@ == apply_error_text(err@),
{
    err.to_string()
}

/// The mutation a stored row describes: its operation, the tag's key and
/// type, and the payload key (by default `value` for `set` and `delta` for
/// `increment`); an unknown operation is refused.
pub open spec fn mutation_of_row(
    operation: Seq<char>,
    field_id: Seq<char>,
    field_type: FieldType,
    input_key: Option<Seq<char>>,
    m: MutationSpec,
) -> bool {
    if operation == "set"@ {
        m matches MutationSpec::SetValue { field_id: f, field_type: t, input_key: k } && f@ == field_id && t
            == field_type && k@ == (match input_key {
            Some(x) => x,
            None => "value"@,
        })
    } else if operation == "clear"@ {
        m matches MutationSpec::Clear { field_id: f } && f@ == field_id
    } else if operation == "increment"@ {
        m matches MutationSpec::Increment { field_id: f, field_type: t, input_key: k } && f@ == field_id && t
            == field_type && k@ == (match input_key {
            Some(x) => x,
            None => "delta"@,
        })
    } else {
        false
    }
}

/// The mutation a stored row describes (see `mutation_of_row`); an unknown
/// operation is refused with its name.
pub fn mutation_from_row(
    operation: String,
    field_id: String,
    value_type: &str,
    external_entity_type_id: Option<i64>,
    input_key: Option<String>,
) -> (r: Result<MutationSpec, EventApplyRepoError>)
    ensures
        match r {
            Ok(m) => mutation_of_row(
                operation@,
                field_id@,
                field_type_named(value_type@, external_entity_type_id),
                match input_key {
                    Some(k) => Some(k@),
                    None => None,
                },
                m,
            ),
            Err(e) => !supported_operation(operation@) && (e matches EventApplyRepoError::EventTypeMutationInvalid(o)
                && o@ == operation@),
        },
{
    let field_type = parse_field_type(value_type, external_entity_type_id);
    let op = chars_of(operation.as_str());
    if eq_lit(&op, "set") {
        let key = match input_key {
            Some(k) => k,
            None => String::from_str("value"),
        };
        Ok(MutationSpec::SetValue { field_id, field_type, input_key: key })
    } else if eq_lit(&op, "clear") {
        Ok(MutationSpec::Clear { field_id })
    } else if eq_lit(&op, "increment") {
        let key = match input_key {
            Some(k) => k,
            None => String::from_str("delta"),
        };
        Ok(MutationSpec::Increment { field_id, field_type, input_key: key })
    } else {
        Err(EventApplyRepoError::EventTypeMutationInvalid(operation))
    }
}

/// The event type version stored as `version`, as a `u32`; an out-of-range
/// version counts as version 1.
pub fn stored_version(version: i64) -> (v: u32)
    ensures
        v == (if 0 <= version <= u32::MAX {
            version as u32
        } else {
            1u32
        }),
{
    if 0 <= version && version <= 4294967295 {
        version as u32
    } else {
        1
    }
}

} // verus!

verus! {

/// An event of an asset's timeline, as listed.
#[derive(Debug, Clone)]
pub struct EventListItem {
    pub event_id: i64,
    pub event_type_id: String,
    pub event_type_version: i64,
    pub payload: JsonValue,
    pub timestamp: String,
    pub idempotency_key: String,
}

/// A page of an asset's timeline, with the cursor of the next page if any.
#[derive(Debug, Clone)]
pub struct EventListPage {
    pub items: Vec<EventListItem>,
    pub next_cursor: Option<String>,
}

/// The page made of the rows read for a page of `limit` items (one more row
/// is read to learn whether more follow): the first `limit` rows, and, when
/// rows were left over, the cursor of the last row kept.
pub fn page_from_rows(rows: Vec<EventListItem>, limit: usize) -> (p: EventListPage)
    ensures
        p.items@ == (if rows@.len() > limit {
            rows@.take(limit as int)
        } else {
            rows@
        }),
        match p.next_cursor {
            Some(c) => rows@.len() > limit && limit > 0 && c@ == int_text(rows@[limit - 1].event_id as int),
            None => !(rows@.len() > limit && limit > 0),
        },
{
    let mut items = rows;
    let has_more = items.len() > limit;
    if has_more {
        items.truncate(limit);
    }
    let next_cursor = if has_more && items.len() > 0 {
        let last = &items[items.len() - 1];
        Some(encode_cursor(last.timestamp.as_str(), last.event_id))
    } else {
        None
    };
    EventListPage { items, next_cursor }
}

/// The payload object of an event request; anything else is refused.
pub fn json_object(value: JsonValue) -> (r: Result<JsonObject, EventApplyRepoError>)
    ensures
        match value {
            JsonValue::Object(o) => r matches Ok(p) && p == o,
            _ => r matches Err(EventApplyRepoError::InvalidPayload(m)) && m@ == "payload must be an object"@,
        },
{
    match value {
        JsonValue::Object(map) => Ok(map),
        _ => Err(EventApplyRepoError::InvalidPayload(String::from_str("payload must be an object"))),
    }
}

/// What a stored tag value refers to: nothing, an enum option by key, or an
/// external entity by id.
#[derive(Debug, Clone, PartialEq, Eq)]
pub enum ValueReference {
    Nothing,
    EnumOption(String),
    ExternalEntity(i64),
}

/// What the value `value` of tag `field_id`, of stored type `value_type`,
/// refers to: an enum value must be a string option key, an external-entity
/// value an integer id.
pub fn value_reference(value_type: &str, field_id: &str, value: &JsonValue) -> (r: Result<
    ValueReference,
    EventApplyRepoError,
>)
    ensures
        value_type@ == "enum"@ ==> match *value {
            JsonValue::String(s) => r matches Ok(ValueReference::EnumOption(k)) && k@ == s@,
            _ => r matches Err(EventApplyRepoError::InvalidPayload(m)) && m@ == "enum field `"@ + field_id@
                + "` requires string option key"@,
        },
        value_type@ == "external_entity"@ ==> match json_as_i64(*value) {
            Some(id) => r == Ok::<ValueReference, EventApplyRepoError>(ValueReference::ExternalEntity(id)),
            None => r matches Err(EventApplyRepoError::InvalidPayload(m)) && m@ == "external_entity field `"@
                + field_id@ + "` requires integer id"@,
        },
        value_type@ != "enum"@ && value_type@ != "external_entity"@ ==> r == Ok::<
            ValueReference,
            EventApplyRepoError,
        >(ValueReference::Nothing),
{
    let v = chars_of(value_type);
    proof {
        reveal_strlit("enum");
        reveal_strlit("external_entity");
        assert("enum"@.len() == 4);
        assert("external_entity"@.len() == 15);
        assert("enum"@ != "external_entity"@);
    }
    if eq_lit(&v, "enum") {
        match value.as_str() {
            Some(key) => Ok(ValueReference::EnumOption(key.clone())),
            None => {
                let mut m = String::from_str("enum field `");
                m.append(field_id);
                m.append("` requires string option key");
                Err(EventApplyRepoError::InvalidPayload(m))
            },
        }
    } else if eq_lit(&v, "external_entity") {
        match value.as_i64() {
            Some(id) => Ok(ValueReference::ExternalEntity(id)),
            None => {
                let mut m = String::from_str("external_entity field `");
                m.append(field_id);
                m.append("` requires integer id");
                Err(EventApplyRepoError::InvalidPayload(m))
            },
        }
    } else {
        Ok(ValueReference::Nothing)
    }
}

/// Checks that external entity `entity_id`, found with type `found_type_id`,
/// has the entity type the tag `field_id` expects.
pub fn check_external_entity_type(
    field_id: &str,
    entity_id: i64,
    found_type_id: i64,
    expected_type_id: Option<i64>,
) -> (r: Result<(), EventApplyRepoError>)
    ensures
        match expected_type_id {
            None => r matches Err(EventApplyRepoError::ExternalEntityTypeMissing(f)) && f@ == field_id@,
            Some(t) => if t == found_type_id {
                r is Ok
            } else {
                r matches Err(
                    EventApplyRepoError::ExternalEntityTypeMismatch { field_id: f, entity_id: e, expected_type_id: x, found_type_id: y },
                ) && f@ == field_id@ && e == entity_id && x == t && y == found_type_id
            },
        },
{
    match expected_type_id {
        None => Err(EventApplyRepoError::ExternalEntityTypeMissing(field_id.to_string())),
        Some(t) => {
            if t != found_type_id {
                Err(
                    EventApplyRepoError::ExternalEntityTypeMismatch {
                        field_id: field_id.to_string(),
                        entity_id,
                        expected_type_id: t,
                        found_type_id,
                    },
                )
            } else {
                Ok(())
            }
        },
    }
}

/// `<str as Hash>::hash`: feeds `s` to `hasher`. The bytes it writes are
/// not documented by std, so nothing is stated of the hasher afterwards.
#[verifier::external_body]
fn hash_text(hasher: &mut DefaultHasher, s: &str) {
    s.hash(hasher)
}

/// `<i64 as Hash>::hash`: feeds `n` to `hasher`. The bytes it writes are
/// not documented by std, so nothing is stated of the hasher afterwards.
#[verifier::external_body]
fn hash_i64(hasher: &mut DefaultHasher, n: i64) {
    n.hash(hasher)
}

/// The lowercase hexadecimal digit for `d`, for `0 <= d < 16`.
pub open spec fn hex_digit(d: int) -> char {
    if d < 10 {
        (d + ('0' as int)) as char
    } else {
        (d - 10 + ('a' as int)) as char
    }
}

/// The last `width` hexadecimal digits of `n`, most significant first,
/// padded with zeros.
pub open spec fn hex_digits(n: nat, width: nat) -> Seq<char>
    decreases width,
{
    if width == 0 {
        Seq::empty()
    } else {
        hex_digits(n / 16, (width - 1) as nat).push(hex_digit((n % 16) as int))
    }
}

/// The last `width` hexadecimal digits of `n` (see `hex_digits`).
fn hex_digits_text(n: u64, width: usize) -> (s: String)
    ensures
        s@ == hex_digits(n as nat, width as nat),
    decreases width,
{
    if width == 0 {
        String::new()
    } else {
        let mut s = hex_digits_text(n / 16, width - 1);
        let d: u64 = n % 16;
        let c: char = if d < 10 {
            ((d as u8) + 48u8) as char
        } else {
            ((d as u8) + 87u8) as char
        };
        push_char(&mut s, c);
        s
    }
}

/// `n` as sixteen lowercase hexadecimal digits, zero-padded: the form a
/// scope hash is stored in.
pub fn hex16_text(n: u64) -> (s: String)
    ensures
        s@ == hex_digits(n as nat, 16),
{
    hex_digits_text(n, 16)
}

/// The scope hash of an event request: the request's method, path, asset id
/// and canonical payload fed in turn to a `DefaultHasher`, its hash written
/// as sixteen hexadecimal digits (see `hex16_text`). Which number the hasher
/// gives is std's, and is not stated.
pub fn idempotency_scope_hash(method: &str, path: &str, asset_id: i64, canonical_payload: &str) -> (s: String)
    ensures
        exists|h: u64| s@ == hex_digits(h as nat, 16),
{
    let mut hasher = DefaultHasher::new();
    hash_text(&mut hasher, method);
    hash_text(&mut hasher, path);
    hash_i64(&mut hasher, asset_id);
    hash_text(&mut hasher, canonical_payload);
    let h: u64 = hasher.finish();
    hex16_text(h)
}

/// What an event request does once the store has been asked for an event of
/// the asset under the same idempotency key.
#[derive(Debug, Clone, Copy, PartialEq, Eq, Structural)]
pub enum ReplayStep {
    ApplyNew,
    ReturnExisting,
}

/// What an event request does, given the scope hash and event type of the
/// stored event under its idempotency key, if any: without one the event is
/// applied; a stored event with the same scope hash and event type is
/// answered again; any other is a payload mismatch.
pub fn replay_step(existing: Option<(&str, &str)>, scope_hash: &str, event_type_id: &str) -> (r: Result<
    ReplayStep,
    EventApplyRepoError,
>)
    ensures
        match existing {
            None => r matches Ok(ReplayStep::ApplyNew),
            Some((h, t)) => if h@ == scope_hash@ && t@ == event_type_id@ {
                r matches Ok(ReplayStep::ReturnExisting)
            } else {
                r matches Err(EventApplyRepoError::IdempotencyPayloadMismatch)
            },
        },
{
    match existing {
        None => Ok(ReplayStep::ApplyNew),
        Some((h, t)) => if replay_is_consistent(h, scope_hash, t, event_type_id) {
            Ok(ReplayStep::ReturnExisting)
        } else {
            Err(EventApplyRepoError::IdempotencyPayloadMismatch)
        },
    }
}

/// The event an event request makes: the request's key, the type and
/// version of the event type's current definition, and the payload object.
pub open spec fn requested_event(idempotency_key: String, et: EventType, payload: JsonObject) -> Event {
    Event {
        idempotency_key,
        event_type_id: et.event_type_id,
        event_type_version: et.event_type_version,
        payload,
    }
}

/// What an event request that is no replay does to the asset's current tag
/// state, given the current definition of its event type (none when the
/// type is unknown): an unknown type is refused, then a payload that is not
/// an object, then an event that does not apply (with the reason as
/// message); otherwise the state becomes the applied state and the event is
/// returned for storing. On refusal the state is unchanged.
pub fn apply_new_event<F: Fn(u64, u64) -> Option<u64>>(
    state: &mut DomainState,
    event_type: Option<EventType>,
    idempotency_key: String,
    payload: JsonValue,
    add_decimals: F,
) -> (r: Result<Event, EventApplyRepoError>)
    requires
        is_decimal_adder(add_decimals),
    ensures
        match event_type {
            None => r matches Err(EventApplyRepoError::EventTypeNotFound) && final(state).view() == old(state).view(),
            Some(et) => match payload {
                JsonValue::Object(o) => match apply_outcome(
                    old(state).view(),
                    et,
                    requested_event(idempotency_key, et, o),
                    add_decimals,
                ) {
                    Ok(next) => r == Ok::<Event, EventApplyRepoError>(requested_event(idempotency_key, et, o))
                        && final(state).view() == next,
                    Err(x) => r matches Err(EventApplyRepoError::InvalidPayload(m)) && m@ == apply_error_text(x)
                        && final(state).view() == old(state).view(),
                },
                _ => r matches Err(EventApplyRepoError::InvalidPayload(m)) && m@ == "payload must be an object"@
                    && final(state).view() == old(state).view(),
            },
        },
{
    let et = match event_type {
        None => {
            return Err(EventApplyRepoError::EventTypeNotFound);
        },
        Some(t) => t,
    };
    let object = match json_object(payload) {
        Ok(o) => o,
        Err(e) => {
            return Err(e);
        },
    };
    let event = Event {
        idempotency_key,
        event_type_id: et.event_type_id.clone(),
        event_type_version: et.event_type_version,
        payload: object,
    };
    match apply_event(state, &et, &event, add_decimals) {
        Ok(()) => Ok(event),
        Err(e) => Err(EventApplyRepoError::InvalidPayload(event_apply_message(&e))),
    }
}

/// Whether a stored event with the same idempotency key is a replay of the
/// request: same scope hash and same event type.
pub fn replay_is_consistent(
    existing_hash: &str,
    scope_hash: &str,
    existing_event_type_id: &str,
    event_type_id: &str,
) -> (b: bool)
    ensures
        b == (existing_hash@ == scope_hash@ && existing_event_type_id@ == event_type_id@),
{
    str_eq(existing_hash, scope_hash) && str_eq(existing_event_type_id, event_type_id)
}

} // verus!

verus! {

/// An HTTP answer: its status, and for most its reason code and message.
#[derive(Debug, Clone, PartialEq, Eq)]
pub struct HttpReply {
    pub status: u16,
    pub reason_code: Option<String>,
    pub message: Option<String>,
}

/// Whether `r` is status `status` with reason code `code` and message `message`.
pub open spec fn reply_is(r: HttpReply, status: u16, code: Seq<char>, message: Seq<char>) -> bool {
    &&& r.status == status
    &&& r.reason_code matches Some(c) && c@ == code
    &&& r.message matches Some(m) && m@ == message
}

/// Whether `r` is status `status` without a body.
pub open spec fn reply_bare(r: HttpReply, status: u16) -> bool {
    r.status == status && r.reason_code is None && r.message is None
}

/// The answer with status `status`, reason code `code` and message `message`.
pub(crate) fn reply(status: u16, code: &str, message: String) -> (r: HttpReply)
    ensures
        reply_is(r, status, code@, message@),
{
    HttpReply { status, reason_code: Some(code.to_string()), message: Some(message) }
}

/// The answer to a request that failed inside the server: 500, `INTERNAL_ERROR`.
pub fn internal_error(message: String) -> (r: HttpReply)
    ensures
        reply_is(r, 500, "INTERNAL_ERROR"@, message@),
{
    reply(500, "INTERNAL_ERROR", message)
}

/// Checks an event request before anything is read: it needs a non-blank
/// `Idempotency-Key` header (trimmed), and may not set its own timestamp.
pub fn create_event_precheck(idempotency_header: Option<&str>, has_timestamp: bool) -> (r: Result<String, HttpReply>)
    ensures
        match idempotency_header {
            Some(h) if trimmed_text(h@).len() > 0 => if has_timestamp {
                r matches Err(e) && reply_is(e, 400, "EVENT_TIMESTAMP_FORBIDDEN"@, "client timestamp override is not allowed"@)
            } else {
                r matches Ok(k) && k@ == trimmed_text(h@)
            },
            _ => r matches Err(e) && reply_is(e, 400, "IDEMPOTENCY_KEY_REQUIRED"@, "Idempotency-Key header is required"@),
        },
{
    let key = match idempotency_header {
        Some(h) => {
            let t = trim_str(h);
            if t.unicode_len() == 0 {
                None
            } else {
                Some(t.to_string())
            }
        },
        None => None,
    };
    match key {
        None => Err(reply(400, "IDEMPOTENCY_KEY_REQUIRED", String::from_str("Idempotency-Key header is required"))),
        Some(k) => {
            if has_timestamp {
                Err(
                    reply(
                        400,
                        "EVENT_TIMESTAMP_FORBIDDEN",
                        String::from_str("client timestamp override is not allowed"),
                    ),
                )
            } else {
                Ok(k)
            }
        },
    }
}

/// The status of an applied event: 200 for a replay, 201 for a new event.
pub fn applied_status(replayed: bool) -> (s: u16)
    ensures
        s == (if replayed {
            200u16
        } else {
            201u16
        }),
{
    if replayed {
        200
    } else {
        201
    }
}

/// The human-readable text of an event application error.
pub open spec fn repo_error_text(e: EventApplyRepoError) -> Seq<char> {
    match e {
        EventApplyRepoError::AssetNotFound => "asset not found"@,
        EventApplyRepoError::EventTypeNotFound => "event type not found"@,
        EventApplyRepoError::IdempotencyPayloadMismatch => "idempotency key payload mismatch"@,
        EventApplyRepoError::EventTypeMutationInvalid(o) => "event type mutation operation invalid: "@ + o@,
        EventApplyRepoError::EnumOptionNotFound { field_id, option_key } => "enum option not found for `"@
            + field_id@ + "`: "@ + option_key@,
        EventApplyRepoError::ExternalEntityNotFound { field_id, entity_id } => "external entity not found for `"@
            + field_id@ + "`: "@ + int_text(entity_id as int),
        EventApplyRepoError::ExternalEntityTypeMismatch { field_id, entity_id, expected_type_id, found_type_id } =>
            "external entity type mismatch for `"@ + field_id@ + "`: entity "@ + int_text(entity_id as int)
            + " has type "@ + int_text(found_type_id as int) + ", expected "@ + int_text(expected_type_id as int),
        EventApplyRepoError::ExternalEntityTypeMissing(f) => "external entity type is not configured for `"@ + f@
            + "`"@,
        EventApplyRepoError::InvalidPayload(m) => "invalid payload: "@ + m@,
        EventApplyRepoError::Sql(m) => "database error: "@ + m@,
    }
}

impl EventApplyRepoError {
    /// The human-readable text of the error.
    pub fn to_string(&self) -> (s: String)
        ensures
            s@ == repo_error_text(*self),
    {
        match self {
            EventApplyRepoError::AssetNotFound => String::from_str("asset not found"),
            EventApplyRepoError::EventTypeNotFound => String::from_str("event type not found"),
            EventApplyRepoError::IdempotencyPayloadMismatch => String::from_str("idempotency key payload mismatch"),
            EventApplyRepoError::EventTypeMutationInvalid(o) => {
                let mut s = String::from_str("event type mutation operation invalid: ");
                s.append(o.as_str());
                s
            },
            EventApplyRepoError::EnumOptionNotFound { field_id, option_key } => {
                let mut s = String::from_str("enum option not found for `");
                s.append(field_id.as_str());
                s.append("`: ");
                s.append(option_key.as_str());
                s
            },
            EventApplyRepoError::ExternalEntityNotFound { field_id, entity_id } => {
                let mut s = String::from_str("external entity not found for `");
                s.append(field_id.as_str());
                s.append("`: ");
                let n = i64_text(*entity_id);
                s.append(n.as_str());
                s
            },
            EventApplyRepoError::ExternalEntityTypeMismatch { field_id, entity_id, expected_type_id, found_type_id } => {
                let mut s = String::from_str("external entity type mismatch for `");
                s.append(field_id.as_str());
                s.append("`: entity ");
                let a = i64_text(*entity_id);
                s.append(a.as_str());
                s.append(" has type ");
                let b = i64_text(*found_type_id);
                s.append(b.as_str());
                s.append(", expected ");
                let c = i64_text(*expected_type_id);
                s.append(c.as_str());
                s
            },
            EventApplyRepoError::ExternalEntityTypeMissing(f) => {
                let mut s = String::from_str("external entity type is not configured for `");
                s.append(f.as_str());
                s.append("`");
                s
            },
            EventApplyRepoError::InvalidPayload(m) => {
                let mut s = String::from_str("invalid payload: ");
                s.append(m.as_str());
                s
            },
            EventApplyRepoError::Sql(m) => {
                let mut s = String::from_str("database error: ");
                s.append(m.as_str());
                s
            },
        }
    }
}

/// The answer to an event request that failed with `e`.
pub open spec fn apply_error_reply_spec(e: EventApplyRepoError, r: HttpReply) -> bool {
    match e {
        EventApplyRepoError::AssetNotFound | EventApplyRepoError::EventTypeNotFound => reply_bare(r, 404),
        EventApplyRepoError::IdempotencyPayloadMismatch => reply_is(
            r,
            409,
            "IDEMPOTENCY_KEY_PAYLOAD_MISMATCH"@,
            "same idempotency key used with different payload"@,
        ),
        EventApplyRepoError::EventTypeMutationInvalid(m) => reply_is(r, 409, "EVENT_TYPE_MUTATION_INVALID"@, m@),
        EventApplyRepoError::ExternalEntityNotFound { .. } => reply_is(
            r,
            400,
            "INVALID_EVENT_PAYLOAD"@,
            "external entity reference does not exist"@,
        ),
        EventApplyRepoError::EnumOptionNotFound { .. } => reply_is(
            r,
            400,
            "INVALID_EVENT_PAYLOAD"@,
            "enum option reference does not exist"@,
        ),
        EventApplyRepoError::ExternalEntityTypeMismatch { .. } | EventApplyRepoError::ExternalEntityTypeMissing(_) =>
            reply_is(r, 409, "EVENT_VALUE_REFERENCE_CONFLICT"@, "event value reference type mismatch"@),
        EventApplyRepoError::InvalidPayload(m) => reply_is(r, 400, "INVALID_EVENT_PAYLOAD"@, m@),
        EventApplyRepoError::Sql(_) => reply_is(r, 500, "INTERNAL_ERROR"@, repo_error_text(e)),
    }
}

/// The answer to an event request that failed with `e`.
pub fn apply_error_reply(e: &EventApplyRepoError) -> (r: HttpReply)
    ensures
        apply_error_reply_spec(*e, r),
{
    match e {
        EventApplyRepoError::AssetNotFound | EventApplyRepoError::EventTypeNotFound => HttpReply {
            status: 404,
            reason_code: None,
            message: None,
        },
        EventApplyRepoError::IdempotencyPayloadMismatch => reply(
            409,
            "IDEMPOTENCY_KEY_PAYLOAD_MISMATCH",
            String::from_str("same idempotency key used with different payload"),
        ),
        EventApplyRepoError::EventTypeMutationInvalid(m) => reply(409, "EVENT_TYPE_MUTATION_INVALID", m.clone()),
        EventApplyRepoError::ExternalEntityNotFound { .. } => reply(
            400,
            "INVALID_EVENT_PAYLOAD",
            String::from_str("external entity reference does not exist"),
        ),
        EventApplyRepoError::EnumOptionNotFound { .. } => reply(
            400,
            "INVALID_EVENT_PAYLOAD",
            String::from_str("enum option reference does not exist"),
        ),
        EventApplyRepoError::ExternalEntityTypeMismatch { .. } | EventApplyRepoError::ExternalEntityTypeMissing(_) =>
            reply(409, "EVENT_VALUE_REFERENCE_CONFLICT", String::from_str("event value reference type mismatch")),
        EventApplyRepoError::InvalidPayload(m) => reply(400, "INVALID_EVENT_PAYLOAD", m.clone()),
        EventApplyRepoError::Sql(_) => internal_error(e.to_string()),
    }
}

/// Where a guarded delete stands after a probe: ask the next probe, or stop
/// because the record is missing, because something still refers to it, or
/// because it may be deleted.
#[derive(Debug, Clone, Copy, PartialEq, Eq, Structural)]
pub enum GuardStep {
    Probe(usize),
    NotFound,
    Conflict,
    Delete,
}

/// The next step after probe `at` answered `found`: probe 0 asks whether the
/// record exists, probes 1 to `reference_probes` whether something refers to
/// it.
pub open spec fn guard_step(reference_probes: usize, at: usize, found: bool) -> GuardStep {
    if at == 0 {
        if !found {
            GuardStep::NotFound
        } else if reference_probes == 0 {
            GuardStep::Delete
        } else {
            GuardStep::Probe(1)
        }
    } else if found {
        GuardStep::Conflict
    } else if at >= reference_probes {
        GuardStep::Delete
    } else {
        GuardStep::Probe((at + 1) as usize)
    }
}

/// The next step of a guarded delete (see `guard_step`).
pub fn delete_guard_step(reference_probes: usize, at: usize, found: bool) -> (s: GuardStep)
    requires
        at <= reference_probes,
    ensures
        s == guard_step(reference_probes, at, found),
{
    if at == 0 {
        if !found {
            GuardStep::NotFound
        } else if reference_probes == 0 {
            GuardStep::Delete
        } else {
            GuardStep::Probe(1)
        }
    } else if found {
        GuardStep::Conflict
    } else if at >= reference_probes {
        GuardStep::Delete
    } else {
        GuardStep::Probe(at + 1)
    }
}

/// Where a guarded delete ends when the probes from `at` on answer `answers`
/// (probe `at` answers `answers[0]`, and so on).
pub open spec fn guard_outcome(reference_probes: usize, at: usize, answers: Seq<bool>) -> GuardStep
    decreases answers.len(),
{
    if answers.len() == 0 {
        GuardStep::Probe(at)
    } else {
        match guard_step(reference_probes, at, answers[0]) {
            GuardStep::Probe(next) => guard_outcome(reference_probes, next, answers.drop_first()),
            other => other,
        }
    }
}

/// A guarded delete deletes exactly when the record exists and none of the
/// reference probes finds a reference; it reports a missing record when the
/// first probe finds none.
pub proof fn lemma_guard_deletes_only_unreferenced(reference_probes: usize, answers: Seq<bool>)
    requires
        answers.len() == reference_probes + 1,
    ensures
        (guard_outcome(reference_probes, 0, answers) == GuardStep::Delete) == (answers[0] && forall|k: int|
            1 <= k <= reference_probes ==> !answers[k]),
        (guard_outcome(reference_probes, 0, answers) == GuardStep::NotFound) == !answers[0],
        guard_outcome(reference_probes, 0, answers) != GuardStep::Probe(0),
{
    lemma_guard_from(reference_probes, 0, answers);
}

/// The guarded delete from probe `at` on: it deletes exactly when no answer
/// from there finds a reference (the first answer, when `at` is 0, finding
/// the record), and stops within the answers.
pub proof fn lemma_guard_from(reference_probes: usize, at: usize, answers: Seq<bool>)
    requires
        at <= reference_probes,
        answers.len() == reference_probes + 1 - at,
    ensures
        at > 0 ==> ((guard_outcome(reference_probes, at, answers) == GuardStep::Delete) == forall|k: int|
            0 <= k < answers.len() ==> !answers[k]),
        at > 0 ==> (guard_outcome(reference_probes, at, answers) is Delete || guard_outcome(
            reference_probes,
            at,
            answers,
        ) is Conflict),
        at == 0 ==> ((guard_outcome(reference_probes, at, answers) == GuardStep::Delete) == (answers[0]
            && forall|k: int| 1 <= k < answers.len() ==> !answers[k])),
        at == 0 ==> ((guard_outcome(reference_probes, at, answers) == GuardStep::NotFound) == !answers[0]),
        at == 0 ==> !(guard_outcome(reference_probes, at, answers) is Probe),
    decreases answers.len(),
{
    let rest = answers.drop_first();
    if at == 0 {
        if answers[0] && reference_probes > 0 {
            lemma_guard_from(reference_probes, 1, rest);
            assert forall|k: int| 1 <= k < answers.len() implies answers[k] == rest[k - 1] by {}
        }
    } else {
        if !answers[0] && at < reference_probes {
            lemma_guard_from(reference_probes, (at + 1) as usize, rest);
            assert forall|k: int| 1 <= k < answers.len() implies answers[k] == rest[k - 1] by {}
        }
    }
}


/// A change the server makes only after probing the database: the record
/// must exist, and (for most) nothing may refer to it.
#[derive(Debug, Clone, Copy, PartialEq, Eq, Structural)]
pub enum GuardedChange {
    /// Deleting a tag definition: no event type mutation, category hint,
    /// enumeration option or current tag value may use it.
    TagDefinitionDelete,
    /// Changing the value type of a tag definition: no event type mutation
    /// may use it (probed only when a new type is given).
    TagDefinitionTypeChange,
    /// Deleting an enumeration option: no current tag value may hold it.
    TagEnumOptionDelete,
    /// Deleting an external entity type: no tag definition and no entity
    /// may be of it.
    ExternalEntityTypeDelete,
    /// Deleting an external entity: no current tag value may refer to it.
    ExternalEntityDelete,
    /// Deleting a category: it may have neither child categories nor assets.
    CategoryDelete,
    /// Marking an asset deleted.
    AssetDelete,
    /// Retiring an enumeration option.
    EnumOptionRetire,
}

/// How many reference probes a change makes after the existence probe.
pub open spec fn probe_count(change: GuardedChange) -> usize {
    match change {
        GuardedChange::TagDefinitionDelete => 4,
        GuardedChange::TagDefinitionTypeChange => 1,
        GuardedChange::TagEnumOptionDelete => 1,
        GuardedChange::ExternalEntityTypeDelete => 2,
        GuardedChange::ExternalEntityDelete => 1,
        GuardedChange::CategoryDelete => 2,
        GuardedChange::AssetDelete => 0,
        GuardedChange::EnumOptionRetire => 0,
    }
}

/// How many reference probes a change makes (see `probe_count`).
pub fn reference_probes(change: GuardedChange) -> (n: usize)
    ensures
        n == probe_count(change),
{
    match change {
        GuardedChange::TagDefinitionDelete => 4,
        GuardedChange::TagDefinitionTypeChange => 1,
        GuardedChange::TagEnumOptionDelete => 1,
        GuardedChange::ExternalEntityTypeDelete => 2,
        GuardedChange::ExternalEntityDelete => 1,
        GuardedChange::CategoryDelete => 2,
        GuardedChange::AssetDelete => 0,
        GuardedChange::EnumOptionRetire => 0,
    }
}

/// The refusal when reference probe `probe` (from 1) of a change finds a
/// reference: 409 with the change's reason code and message (a category
/// says whether children or assets stand in the way).
pub open spec fn conflict_of(change: GuardedChange, probe: usize) -> (Seq<char>, Seq<char>) {
    match change {
        GuardedChange::TagDefinitionDelete => ("TAG_DEFINITION_IN_USE"@, "cannot delete tag definition while referenced"@),
        GuardedChange::TagDefinitionTypeChange => ("TAG_DEFINITION_TYPE_IN_USE"@, "cannot mutate type while referenced"@),
        GuardedChange::TagEnumOptionDelete => ("TAG_ENUM_OPTION_IN_USE"@, "cannot delete enum option while referenced"@),
        GuardedChange::ExternalEntityTypeDelete => (
            "EXTERNAL_ENTITY_TYPE_IN_USE"@,
            "cannot delete external entity type while referenced"@,
        ),
        GuardedChange::ExternalEntityDelete => (
            "EXTERNAL_ENTITY_IN_USE"@,
            "cannot hard-delete external entity while referenced"@,
        ),
        GuardedChange::CategoryDelete => if probe == 1 {
            ("CATEGORY_HAS_CHILDREN"@, "category has child categories"@)
        } else {
            ("CATEGORY_HAS_ASSETS"@, "category has assigned assets"@)
        },
        _ => (Seq::empty(), Seq::empty()),
    }
}

/// The answer of a guarded change once its guard has decided: 404 without
/// a body for a missing record, the change's refusal for a reference found
/// by probe `probe`, 204 without a body once the change is made; nothing
/// while probes remain.
pub fn guard_reply(change: GuardedChange, step: GuardStep, probe: usize) -> (r: Option<HttpReply>)
    requires
        step is Conflict ==> 1 <= probe <= probe_count(change),
    ensures
        match step {
            GuardStep::NotFound => r matches Some(x) && reply_bare(x, 404),
            GuardStep::Delete => r matches Some(x) && reply_bare(x, 204),
            GuardStep::Conflict => r matches Some(x) && reply_is(
                x,
                409,
                conflict_of(change, probe).0,
                conflict_of(change, probe).1,
            ),
            GuardStep::Probe(_) => r is None,
        },
{
    match step {
        GuardStep::NotFound => Some(HttpReply { status: 404, reason_code: None, message: None }),
        GuardStep::Delete => Some(HttpReply { status: 204, reason_code: None, message: None }),
        GuardStep::Probe(_) => None,
        GuardStep::Conflict => {
            let r = match change {
                GuardedChange::TagDefinitionDelete => reply(
                    409,
                    "TAG_DEFINITION_IN_USE",
                    String::from_str("cannot delete tag definition while referenced"),
                ),
                GuardedChange::TagDefinitionTypeChange => reply(
                    409,
                    "TAG_DEFINITION_TYPE_IN_USE",
                    String::from_str("cannot mutate type while referenced"),
                ),
                GuardedChange::TagEnumOptionDelete => reply(
                    409,
                    "TAG_ENUM_OPTION_IN_USE",
                    String::from_str("cannot delete enum option while referenced"),
                ),
                GuardedChange::ExternalEntityTypeDelete => reply(
                    409,
                    "EXTERNAL_ENTITY_TYPE_IN_USE",
                    String::from_str("cannot delete external entity type while referenced"),
                ),
                GuardedChange::ExternalEntityDelete => reply(
                    409,
                    "EXTERNAL_ENTITY_IN_USE",
                    String::from_str("cannot hard-delete external entity while referenced"),
                ),
                GuardedChange::CategoryDelete => if probe == 1 {
                    reply(409, "CATEGORY_HAS_CHILDREN", String::from_str("category has child categories"))
                } else {
                    reply(409, "CATEGORY_HAS_ASSETS", String::from_str("category has assigned assets"))
                },
                GuardedChange::AssetDelete | GuardedChange::EnumOptionRetire => vstd::pervasive::unreached(),
            };
            Some(r)
        },
    }
}


/// A mutation as a request to create an event type (version) gives it.
#[derive(Debug, Clone)]
pub struct MutationRequest {
    pub operation: String,
    pub tag_definition_id: i64,
    pub input_key: Option<String>,
}

/// Whether stored mutation `m` is request `q` numbered `i`.
pub open spec fn numbered_as(m: NewEventMutation, q: MutationRequest, i: int) -> bool {
    &&& m.mutation_index == i
    &&& m.operation@ == q.operation@
    &&& m.tag_definition_id == q.tag_definition_id
    &&& opt_view(m.input_key) == opt_view(q.input_key)
}

/// The text of an optional string.
pub open spec fn opt_view(o: Option<String>) -> Option<Seq<char>> {
    match o {
        Some(s) => Some(s@),
        None => None,
    }
}

/// The mutations of a request, numbered in order from 0.
pub fn numbered_mutations(requests: &[MutationRequest]) -> (ms: Vec<NewEventMutation>)
    requires
        requests@.len() <= i64::MAX,
    ensures
        ms@.len() == requests@.len(),
        forall|i: int| 0 <= i < ms@.len() ==> numbered_as(#[trigger] ms@[i], requests@[i], i),
{
    let mut ms: Vec<NewEventMutation> = Vec::new();
    let mut i: usize = 0;
    while i < requests.len()
        invariant
            i <= requests@.len(),
            requests@.len() <= i64::MAX,
            ms@.len() == i,
            forall|k: int| 0 <= k < i ==> numbered_as(#[trigger] ms@[k], requests@[k], k),
        decreases requests.len() - i,
    {
        let q = &requests[i];
        let input_key = match &q.input_key {
            Some(k) => Some(k.clone()),
            None => None,
        };
        ms.push(
            NewEventMutation {
                mutation_index: i as i64,
                operation: q.operation.clone(),
                tag_definition_id: q.tag_definition_id,
                input_key,
            },
        );
        i = i + 1;
    }
    ms
}

/// The operation of the first mutation from `i` on that events cannot
/// carry, if any.
pub open spec fn first_unsupported(ms: Seq<NewEventMutation>, i: int) -> Option<Seq<char>>
    decreases ms.len() - i,
{
    if i < 0 || i >= ms.len() {
        None
    } else if !supported_operation(ms[i].operation@) {
        Some(ms[i].operation@)
    } else {
        first_unsupported(ms, i + 1)
    }
}

/// The operation of the first mutation that events cannot carry (see
/// `first_unsupported`).
pub fn first_unsupported_operation(ms: &[NewEventMutation]) -> (r: Option<String>)
    ensures
        opt_view(r) == first_unsupported(ms@, 0),
{
    let mut i: usize = 0;
    while i < ms.len()
        invariant
            i <= ms@.len(),
            first_unsupported(ms@, 0) == first_unsupported(ms@, i as int),
        decreases ms.len() - i,
    {
        if !is_supported_operation(ms[i].operation.as_str()) {
            return Some(ms[i].operation.clone());
        }
        i = i + 1;
    }
    None
}

/// Why an event type could not be created.
#[derive(Debug, Clone, PartialEq, Eq)]
pub enum EventTypeCreateError {
    AlreadyExists,
    TagDefinitionMissing(i64),
    UnsupportedMutationOperation(String),
    Sql(String),
}

/// Why a version of an event type could not be created.
#[derive(Debug, Clone, PartialEq, Eq)]
pub enum EventTypeVersionCreateError {
    EventTypeNotFound,
    TagDefinitionMissing(i64),
    UnsupportedMutationOperation(String),
    Sql(String),
}

/// Why a version of an event type could not be deleted.
#[derive(Debug, Clone, PartialEq, Eq)]
pub enum EventTypeDeleteVersionError {
    EventTypeNotFound,
    VersionNotFound,
    VersionInUse,
    CannotDeleteOnlyVersion,
    Sql(String),
}

/// The refusal of a request without mutations: 400,
/// `EVENT_TYPE_MUTATIONS_REQUIRED`, naming an event type or a version.
pub fn mutations_required_reply(first_version: bool) -> (r: HttpReply)
    ensures
        reply_is(
            r,
            400,
            "EVENT_TYPE_MUTATIONS_REQUIRED"@,
            if first_version {
                "event type must include at least one mutation"@
            } else {
                "event type version must include at least one mutation"@
            },
        ),
{
    if first_version {
        reply(400, "EVENT_TYPE_MUTATIONS_REQUIRED", String::from_str("event type must include at least one mutation"))
    } else {
        reply(
            400,
            "EVENT_TYPE_MUTATIONS_REQUIRED",
            String::from_str("event type version must include at least one mutation"),
        )
    }
}

/// The refusal of a mutation naming a tag definition that does not exist:
/// 400, `TAG_DEFINITION_NOT_FOUND`.
fn tag_definition_missing_reply(id: i64) -> (r: HttpReply)
    ensures
        reply_is(r, 400, "TAG_DEFINITION_NOT_FOUND"@, "tag definition `"@ + int_text(id as int) + "` does not exist"@),
{
    let mut m = String::from_str("tag definition `");
    let t = i64_text(id);
    m.append(t.as_str());
    m.append("` does not exist");
    reply(400, "TAG_DEFINITION_NOT_FOUND", m)
}

/// The refusal of a mutation operation events cannot carry: 400,
/// `UNSUPPORTED_MUTATION_OPERATION`.
fn unsupported_operation_reply(operation: &str) -> (r: HttpReply)
    ensures
        reply_is(r, 400, "UNSUPPORTED_MUTATION_OPERATION"@, "mutation operation `"@ + operation@ + "` is not supported"@),
{
    let mut m = String::from_str("mutation operation `");
    m.append(operation);
    m.append("` is not supported");
    reply(400, "UNSUPPORTED_MUTATION_OPERATION", m)
}

/// The answer to a failed database request: 500, `INTERNAL_ERROR`, with
/// the error's text.
fn database_error_reply(message: &str) -> (r: HttpReply)
    ensures
        reply_is(r, 500, "INTERNAL_ERROR"@, "database error: "@ + message@),
{
    let mut m = String::from_str("database error: ");
    m.append(message);
    internal_error(m)
}

/// The answer to a failed event type creation: 409 for an existing id,
/// 400 for a missing tag definition or an unsupported operation, 500 for a
/// database error.
pub fn event_type_create_reply(e: &EventTypeCreateError) -> (r: HttpReply)
    ensures
        match *e {
            EventTypeCreateError::AlreadyExists => reply_is(r, 409, "EVENT_TYPE_ALREADY_EXISTS"@, "event type already exists"@),
            EventTypeCreateError::TagDefinitionMissing(id) => reply_is(
                r,
                400,
                "TAG_DEFINITION_NOT_FOUND"@,
                "tag definition `"@ + int_text(id as int) + "` does not exist"@,
            ),
            EventTypeCreateError::UnsupportedMutationOperation(op) => reply_is(
                r,
                400,
                "UNSUPPORTED_MUTATION_OPERATION"@,
                "mutation operation `"@ + op@ + "` is not supported"@,
            ),
            EventTypeCreateError::Sql(m) => reply_is(r, 500, "INTERNAL_ERROR"@, "database error: "@ + m@),
        },
{
    match e {
        EventTypeCreateError::AlreadyExists => reply(409, "EVENT_TYPE_ALREADY_EXISTS", String::from_str("event type already exists")),
        EventTypeCreateError::TagDefinitionMissing(id) => tag_definition_missing_reply(*id),
        EventTypeCreateError::UnsupportedMutationOperation(op) => unsupported_operation_reply(op.as_str()),
        EventTypeCreateError::Sql(m) => database_error_reply(m.as_str()),
    }
}

/// The answer to a failed version creation: 404 without a body for a
/// missing event type, otherwise as for a new event type.
pub fn event_type_version_create_reply(e: &EventTypeVersionCreateError) -> (r: HttpReply)
    ensures
        match *e {
            EventTypeVersionCreateError::EventTypeNotFound => reply_bare(r, 404),
            EventTypeVersionCreateError::TagDefinitionMissing(id) => reply_is(
                r,
                400,
                "TAG_DEFINITION_NOT_FOUND"@,
                "tag definition `"@ + int_text(id as int) + "` does not exist"@,
            ),
            EventTypeVersionCreateError::UnsupportedMutationOperation(op) => reply_is(
                r,
                400,
                "UNSUPPORTED_MUTATION_OPERATION"@,
                "mutation operation `"@ + op@ + "` is not supported"@,
            ),
            EventTypeVersionCreateError::Sql(m) => reply_is(r, 500, "INTERNAL_ERROR"@, "database error: "@ + m@),
        },
{
    match e {
        EventTypeVersionCreateError::EventTypeNotFound => HttpReply { status: 404, reason_code: None, message: None },
        EventTypeVersionCreateError::TagDefinitionMissing(id) => tag_definition_missing_reply(*id),
        EventTypeVersionCreateError::UnsupportedMutationOperation(op) => unsupported_operation_reply(op.as_str()),
        EventTypeVersionCreateError::Sql(m) => database_error_reply(m.as_str()),
    }
}

/// Whether a version of an event type may be deleted, checked in order: the
/// event type exists (its current version is `current_version`), the
/// version has mutations, no event used it, and it is not the only version.
pub open spec fn version_delete_verdict(
    current_version: Option<i64>,
    version_exists: bool,
    version_in_use: bool,
    versions_count: i64,
) -> Result<i64, EventTypeDeleteVersionError> {
    match current_version {
        None => Err(EventTypeDeleteVersionError::EventTypeNotFound),
        Some(c) => if !version_exists {
            Err(EventTypeDeleteVersionError::VersionNotFound)
        } else if version_in_use {
            Err(EventTypeDeleteVersionError::VersionInUse)
        } else if versions_count <= 1 {
            Err(EventTypeDeleteVersionError::CannotDeleteOnlyVersion)
        } else {
            Ok(c)
        },
    }
}

/// Whether a version of an event type may be deleted (see
/// `version_delete_verdict`); the current version when it may.
pub fn check_version_delete(
    current_version: Option<i64>,
    version_exists: bool,
    version_in_use: bool,
    versions_count: i64,
) -> (r: Result<i64, EventTypeDeleteVersionError>)
    ensures
        r == version_delete_verdict(current_version, version_exists, version_in_use, versions_count),
{
    match current_version {
        None => Err(EventTypeDeleteVersionError::EventTypeNotFound),
        Some(c) => {
            if !version_exists {
                Err(EventTypeDeleteVersionError::VersionNotFound)
            } else if version_in_use {
                Err(EventTypeDeleteVersionError::VersionInUse)
            } else if versions_count <= 1 {
                Err(EventTypeDeleteVersionError::CannotDeleteOnlyVersion)
            } else {
                Ok(c)
            }
        },
    }
}

/// The answer to a version deletion: 204 when done, 404 without a body for
/// a missing event type or version, 409 for a version in use or the only
/// version, 500 for a database error.
pub fn version_delete_reply(r: &Result<(), EventTypeDeleteVersionError>) -> (x: HttpReply)
    ensures
        match *r {
            Ok(()) => reply_bare(x, 204),
            Err(EventTypeDeleteVersionError::EventTypeNotFound) => reply_bare(x, 404),
            Err(EventTypeDeleteVersionError::VersionNotFound) => reply_bare(x, 404),
            Err(EventTypeDeleteVersionError::VersionInUse) => reply_is(
                x,
                409,
                "EVENT_TYPE_VERSION_IN_USE"@,
                "cannot delete event type version while referenced"@,
            ),
            Err(EventTypeDeleteVersionError::CannotDeleteOnlyVersion) => reply_is(
                x,
                409,
                "EVENT_TYPE_VERSION_IN_USE"@,
                "cannot delete only remaining version"@,
            ),
            Err(EventTypeDeleteVersionError::Sql(m)) => reply_is(x, 500, "INTERNAL_ERROR"@, "database error: "@ + m@),
        },
{
    match r {
        Ok(()) => HttpReply { status: 204, reason_code: None, message: None },
        Err(EventTypeDeleteVersionError::EventTypeNotFound) | Err(EventTypeDeleteVersionError::VersionNotFound) => {
            HttpReply { status: 404, reason_code: None, message: None }
        },
        Err(EventTypeDeleteVersionError::VersionInUse) => reply(
            409,
            "EVENT_TYPE_VERSION_IN_USE",
            String::from_str("cannot delete event type version while referenced"),
        ),
        Err(EventTypeDeleteVersionError::CannotDeleteOnlyVersion) => reply(
            409,
            "EVENT_TYPE_VERSION_IN_USE",
            String::from_str("cannot delete only remaining version"),
        ),
        Err(EventTypeDeleteVersionError::Sql(m)) => database_error_reply(m.as_str()),
    }
}


/// Why a page of an asset's timeline could not be listed.
#[derive(Debug, Clone, PartialEq, Eq)]
pub enum EventListError {
    AssetNotFound,
    InvalidCursor,
    Sql(String),
}

/// The answer to a failed timeline listing: 404 without a body for a
/// missing asset, 400 `INVALID_CURSOR` for a cursor that names no event of
/// the asset, 500 for a database error.
pub fn event_list_reply(e: &EventListError) -> (r: HttpReply)
    ensures
        match *e {
            EventListError::AssetNotFound => reply_bare(r, 404),
            EventListError::InvalidCursor => reply_is(r, 400, "INVALID_CURSOR"@, "cursor format is invalid"@),
            EventListError::Sql(m) => reply_is(r, 500, "INTERNAL_ERROR"@, "database error: "@ + m@),
        },
{
    match e {
        EventListError::AssetNotFound => HttpReply { status: 404, reason_code: None, message: None },
        EventListError::InvalidCursor => reply(400, "INVALID_CURSOR", String::from_str("cursor format is invalid")),
        EventListError::Sql(m) => database_error_reply(m.as_str()),
    }
}

} // verus!
