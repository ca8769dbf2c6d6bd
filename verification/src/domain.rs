//! The HAM domain rules: the kinds of tag fields, which stored values each kind
//! admits, event types as lists of mutations, and how an event is applied to
//! an asset's tag state all at once or not at all.
use vstd::prelude::*;
use crate::text::{all_digits, split_parts, chars_of, digits_value, i64_text, int_text, is_digit, lemma_digits_value_prefix_mono, lemma_index_of_from_bounds, find_char, nat_text, slice_chars, u64_text};
use crate::json::{JsonNumber, JsonObject, JsonValue, JsonView, entries_equiv, json_equiv, json_view, json_wf, lemma_json_equiv_reflexive, lemma_json_equiv_symmetric, objects_equal, str_eq};

verus! {

/// Why a value cannot be stored for a tag field.
#[derive(Clone, Copy, Debug, PartialEq, Eq, Structural)]
pub enum ValidationError {
    NullValueNotAllowed,
    ExpectedString,
    ExpectedInteger,
    ExpectedNumber,
    ExpectedBoolean,
    MoneyMustBeDecimalString,
    InvalidIpv4,
    EnumMustBeStringOptionKey,
    ExternalEntityMustBeIntegerId,
}

/// The human-readable text of a validation error.
pub open spec fn validation_message(e: ValidationError) -> Seq<char> {
    match e {
        ValidationError::NullValueNotAllowed => "null is not an allowed stored tag value"@,
        ValidationError::ExpectedString => "expected a string value"@,
        ValidationError::ExpectedInteger => "expected an integer value"@,
        ValidationError::ExpectedNumber => "expected a numeric value"@,
        ValidationError::ExpectedBoolean => "expected a boolean value"@,
        ValidationError::MoneyMustBeDecimalString => "money value must be a decimal string"@,
        ValidationError::InvalidIpv4 => "invalid ipv4 value"@,
        ValidationError::EnumMustBeStringOptionKey => "enum value must be a string option key"@,
        ValidationError::ExternalEntityMustBeIntegerId => "external entity value must be an integer id"@,
    }
}

impl ValidationError {
    /// The human-readable text of the error.
    pub fn to_string(&self) -> (s: String)
        ensures
            s@ == validation_message(*self),
    {
        match self {
            ValidationError::NullValueNotAllowed => String::from_str("null is not an allowed stored tag value"),
            ValidationError::ExpectedString => String::from_str("expected a string value"),
            ValidationError::ExpectedInteger => String::from_str("expected an integer value"),
            ValidationError::ExpectedNumber => String::from_str("expected a numeric value"),
            ValidationError::ExpectedBoolean => String::from_str("expected a boolean value"),
            ValidationError::MoneyMustBeDecimalString => String::from_str("money value must be a decimal string"),
            ValidationError::InvalidIpv4 => String::from_str("invalid ipv4 value"),
            ValidationError::EnumMustBeStringOptionKey => String::from_str("enum value must be a string option key"),
            ValidationError::ExternalEntityMustBeIntegerId => String::from_str(
                "external entity value must be an integer id",
            ),
        }
    }
}

/// The kind of a tag field; an external-entity field names its entity type.
#[derive(Clone, Copy, Debug, PartialEq, Eq, Structural)]
pub enum FieldType {
    Text,
    Integer,
    Decimal,
    Boolean,
    Date,
    Datetime,
    Money,
    Url,
    MacAddress,
    Ipv4,
    Enum,
    ExternalEntity(i64),
}

/// Whether `b` is a run of digits with at most one `.`, holding a digit.
pub open spec fn decimal_body(b: Seq<char>) -> bool {
    &&& forall|i: int| 0 <= i < b.len() ==> is_digit(#[trigger] b[i]) || b[i] == '.'
    &&& forall|i: int, j: int| 0 <= i < j < b.len() && #[trigger] b[i] == '.' ==> #[trigger] b[j] != '.'
    &&& exists|i: int| 0 <= i < b.len() && is_digit(#[trigger] b[i])
}

/// Whether `s` spells a decimal amount: an optional sign, then digits with at
/// most one decimal point, at least one digit among them.
pub open spec fn is_decimal_text(s: Seq<char>) -> bool {
    if s.len() > 0 && (s[0] == '+' || s[0] == '-') {
        decimal_body(s.drop_first())
    } else {
        decimal_body(s)
    }
}

/// Whether `s` spells a decimal amount (see `is_decimal_text`).
pub fn is_decimal_string(s: &str) -> (b: bool)
    ensures
        b == is_decimal_text(s@),
{
    let v = chars_of(s);
    let n = v.len();
    if n == 0 {
        return false;
    }
    let start: usize = if v[0] == '+' || v[0] == '-' { 1 } else { 0 };
    let ghost body = v@.subrange(start as int, n as int);
    proof {
        if start == 1 {
            assert(body == s@.drop_first());
        } else {
            assert(body == s@);
        }
        assert(is_decimal_text(s@) == decimal_body(body));
    }
    let mut seen_digit = false;
    let mut seen_dot = false;
    let mut i: usize = start;
    while i < n
        invariant
            start <= i <= n,
            n == v@.len(),
            start <= 1,
            body == v@.subrange(start as int, n as int),
            is_decimal_text(s@) == decimal_body(body),
            forall|k: int| 0 <= k < i - start ==> is_digit(#[trigger] body[k]) || body[k] == '.',
            seen_dot == exists|k: int| 0 <= k < i - start && #[trigger] body[k] == '.',
            seen_digit == exists|k: int| 0 <= k < i - start && is_digit(#[trigger] body[k]),
            forall|a: int, c: int| 0 <= a < c < i - start && #[trigger] body[a] == '.' ==> #[trigger] body[c] != '.',
        decreases n - i,
    {
        let c = v[i];
        let ghost j = i - start;
        assert(body[j] == c);
        if c == '.' {
            if seen_dot {
                proof {
                    let a = choose|k: int| 0 <= k < i - start && #[trigger] body[k] == '.';
                    assert(body[a] == '.' && body[j] == '.');
                }
                return false;
            }
            seen_dot = true;
        } else if '0' <= c && c <= '9' {
            seen_digit = true;
        } else {
            assert(!(is_digit(body[j]) || body[j] == '.'));
            return false;
        }
        i = i + 1;
    }
    seen_digit
}

/// Whether `p` is an octet written canonically: digits without a leading
/// zero (but `0` itself), at most 255.
pub open spec fn is_canonical_octet(p: Seq<char>) -> bool {
    &&& p.len() > 0
    &&& !(p.len() > 1 && p[0] == '0')
    &&& all_digits(p)
    &&& digits_value(p) <= 255
}

/// Whether `s` is a canonical dotted quad: four canonical octets.
pub open spec fn is_ipv4_text(s: Seq<char>) -> bool {
    let parts = split_parts(s, '.', 0);
    parts.len() == 4 && forall|i: int| 0 <= i < parts.len() ==> is_canonical_octet(#[trigger] parts[i])
}

/// Whether the characters `p` are a canonical octet.
pub fn is_canonical_octet_chars(p: &Vec<char>) -> (b: bool)
    ensures
        b == is_canonical_octet(p@),
{
    let n = p.len();
    if n == 0 {
        return false;
    }
    if n > 1 && p[0] == '0' {
        return false;
    }
    let mut value: u64 = 0;
    let mut i: usize = 0;
    while i < n
        invariant
            i <= n,
            n == p@.len(),
            n > 0,
            all_digits(p@.take(i as int)),
            value == digits_value(p@.take(i as int)),
            value <= 255,
        decreases n - i,
    {
        let c = p[i];
        if !('0' <= c && c <= '9') {
            assert(!all_digits(p@));
            return false;
        }
        let d = (c as u32 - '0' as u32) as u64;
        assert(p@.take(i + 1).drop_last() == p@.take(i as int));
        assert(all_digits(p@.take(i + 1)));
        value = value * 10 + d;
        if value > 255 {
            proof {
                if all_digits(p@) {
                    lemma_digits_value_prefix_mono(p@, i + 1, n as int);
                    assert(p@.take(n as int) == p@);
                }
            }
            return false;
        }
        i = i + 1;
    }
    assert(p@.take(n as int) == p@);
    true
}

/// Whether `s` is a canonical dotted quad (see `is_ipv4_text`).
pub fn is_ipv4_string(s: &str) -> (b: bool)
    ensures
        b == is_ipv4_text(s@),
{
    let v = chars_of(s);
    let n = v.len();
    let mut start: usize = 0;
    let mut count: usize = 0;
    let ghost mut done: Seq<Seq<char>> = seq![];
    loop
        invariant
            start <= n,
            n == v@.len(),
            v@ == s@,
            count == done.len(),
            count <= 4,
            split_parts(v@, '.', 0) == done + split_parts(v@, '.', start as int),
            forall|k: int| 0 <= k < done.len() ==> is_canonical_octet(#[trigger] done[k]),
        decreases n - start,
    {
        let found = find_char(&v, '.', start);
        proof {
            lemma_index_of_from_bounds(v@, '.', start as int);
        }
        let ghost rest = split_parts(v@, '.', start as int);
        match found {
            Some(k) => {
                let part = slice_chars(&v, start, k);
                assert(rest == seq![part@] + split_parts(v@, '.', k + 1));
                if count == 4 {
                    assert(split_parts(v@, '.', 0).len() > 4);
                    return false;
                }
                if !is_canonical_octet_chars(&part) {
                    assert(split_parts(v@, '.', 0)[count as int] == part@);
                    return false;
                }
                proof {
                    assert(done + rest == done.push(part@) + split_parts(v@, '.', k + 1));
                    done = done.push(part@);
                }
                count = count + 1;
                start = k + 1;
            },
            None => {
                let part = slice_chars(&v, start, n);
                assert(rest == seq![part@]);
                let ok = is_canonical_octet_chars(&part);
                let ghost parts = done.push(part@);
                assert(split_parts(v@, '.', 0) == parts);
                if !ok {
                    assert(parts[count as int] == part@);
                    return false;
                }
                return count == 3;
            },
        }
    }
}

} // verus!

verus! {

/// The `i64` a JSON value holds, if it is an integer in range.
pub open spec fn view_as_i64(v: JsonView) -> Option<i64> {
    match v {
        JsonView::Number(n) => n.spec_as_i64(),
        _ => None,
    }
}

/// Whether a value may be stored for a field of type `ft`, and if not, why.
pub open spec fn tag_value_check(ft: FieldType, v: JsonView) -> Result<(), ValidationError> {
    if v is Null {
        Err(ValidationError::NullValueNotAllowed)
    } else {
        match ft {
            FieldType::Text | FieldType::Date | FieldType::Datetime | FieldType::Url | FieldType::MacAddress => {
                if v is String {
                    Ok(())
                } else {
                    Err(ValidationError::ExpectedString)
                }
            },
            FieldType::Integer => if view_as_i64(v) is Some {
                Ok(())
            } else {
                Err(ValidationError::ExpectedInteger)
            },
            FieldType::Decimal => if v is Number {
                Ok(())
            } else {
                Err(ValidationError::ExpectedNumber)
            },
            FieldType::Boolean => if v is Bool {
                Ok(())
            } else {
                Err(ValidationError::ExpectedBoolean)
            },
            FieldType::Money => match v {
                JsonView::String(s) => if is_decimal_text(s) {
                    Ok(())
                } else {
                    Err(ValidationError::MoneyMustBeDecimalString)
                },
                _ => Err(ValidationError::MoneyMustBeDecimalString),
            },
            FieldType::Ipv4 => match v {
                JsonView::String(s) => if is_ipv4_text(s) {
                    Ok(())
                } else {
                    Err(ValidationError::InvalidIpv4)
                },
                _ => Err(ValidationError::InvalidIpv4),
            },
            FieldType::Enum => if v is String {
                Ok(())
            } else {
                Err(ValidationError::EnumMustBeStringOptionKey)
            },
            FieldType::ExternalEntity(_) => if view_as_i64(v) is Some {
                Ok(())
            } else {
                Err(ValidationError::ExternalEntityMustBeIntegerId)
            },
        }
    }
}

/// Whether `v` is a JSON integer that fits an `i64`.
pub open spec fn is_i64_json(v: JsonView) -> bool {
    ||| v matches JsonView::Number(JsonNumber::NegInt(_))
    ||| (v matches JsonView::Number(JsonNumber::PosInt(u)) && u <= i64::MAX)
}

/// Which JSON values each field type stores: `null` never; the text-like
/// types (text, date, datetime, URL, MAC address) exactly the strings, any
/// other value refused as not a string; integers and external entity ids
/// exactly the integers that fit an `i64`; decimals exactly the numbers;
/// booleans exactly the booleans; enums exactly the strings (an option key);
/// money and IPv4 addresses no value that is not a string.
pub proof fn lemma_tag_value_kinds(ft: FieldType, v: JsonView)
    ensures
        v is Null ==> tag_value_check(ft, v) == Err::<(), ValidationError>(ValidationError::NullValueNotAllowed),
        (ft is Text || ft is Date || ft is Datetime || ft is Url || ft is MacAddress) && !(v is Null) ==> (
        tag_value_check(ft, v) == if v is String {
            Ok::<(), ValidationError>(())
        } else {
            Err(ValidationError::ExpectedString)
        }),
        ft is Integer && !(v is Null) ==> (tag_value_check(ft, v) == if is_i64_json(v) {
            Ok::<(), ValidationError>(())
        } else {
            Err(ValidationError::ExpectedInteger)
        }),
        ft is ExternalEntity && !(v is Null) ==> (tag_value_check(ft, v) == if is_i64_json(v) {
            Ok::<(), ValidationError>(())
        } else {
            Err(ValidationError::ExternalEntityMustBeIntegerId)
        }),
        ft is Decimal && !(v is Null) ==> (tag_value_check(ft, v) == if v is Number {
            Ok::<(), ValidationError>(())
        } else {
            Err(ValidationError::ExpectedNumber)
        }),
        ft is Boolean && !(v is Null) ==> (tag_value_check(ft, v) == if v is Bool {
            Ok::<(), ValidationError>(())
        } else {
            Err(ValidationError::ExpectedBoolean)
        }),
        ft is Enum && !(v is Null) ==> (tag_value_check(ft, v) == if v is String {
            Ok::<(), ValidationError>(())
        } else {
            Err(ValidationError::EnumMustBeStringOptionKey)
        }),
        ft is Money && !(v is Null) && !(v is String) ==> tag_value_check(ft, v) == Err::<(), ValidationError>(
            ValidationError::MoneyMustBeDecimalString,
        ),
        ft is Ipv4 && !(v is Null) && !(v is String) ==> tag_value_check(ft, v) == Err::<(), ValidationError>(
            ValidationError::InvalidIpv4,
        ),
{
}

/// Checks that `value` may be stored for a field of type `field_type`.
pub fn validate_tag_value(field_type: &FieldType, value: &JsonValue) -> (r: Result<(), ValidationError>)
    ensures
        r == tag_value_check(*field_type, json_view(*value)),
{
    if value.is_null() {
        return Err(ValidationError::NullValueNotAllowed);
    }
    match field_type {
        FieldType::Text | FieldType::Date | FieldType::Datetime | FieldType::Url | FieldType::MacAddress => {
            if value.is_string() {
                Ok(())
            } else {
                Err(ValidationError::ExpectedString)
            }
        },
        FieldType::Integer => {
            if value.as_i64().is_some() {
                Ok(())
            } else {
                Err(ValidationError::ExpectedInteger)
            }
        },
        FieldType::Decimal => {
            if value.is_number() {
                Ok(())
            } else {
                Err(ValidationError::ExpectedNumber)
            }
        },
        FieldType::Boolean => {
            if value.is_boolean() {
                Ok(())
            } else {
                Err(ValidationError::ExpectedBoolean)
            }
        },
        FieldType::Money => match value.as_str() {
            Some(raw) => {
                if is_decimal_string(raw.as_str()) {
                    Ok(())
                } else {
                    Err(ValidationError::MoneyMustBeDecimalString)
                }
            },
            None => Err(ValidationError::MoneyMustBeDecimalString),
        },
        FieldType::Ipv4 => match value.as_str() {
            Some(raw) => {
                if is_ipv4_string(raw.as_str()) {
                    Ok(())
                } else {
                    Err(ValidationError::InvalidIpv4)
                }
            },
            None => Err(ValidationError::InvalidIpv4),
        },
        FieldType::Enum => {
            if value.is_string() {
                Ok(())
            } else {
                Err(ValidationError::EnumMustBeStringOptionKey)
            }
        },
        FieldType::ExternalEntity(_) => {
            if value.as_i64().is_some() {
                Ok(())
            } else {
                Err(ValidationError::ExternalEntityMustBeIntegerId)
            }
        },
    }
}

/// A value that may be stored for a tag: anything but `null`.
#[derive(Debug)]
pub struct StoredTagValue(JsonValue);

impl StoredTagValue {
    /// The stored value's content.
    pub closed spec fn content(&self) -> JsonView {
        json_view(self.0)
    }

    /// Wraps `value`, refusing `null`.
    pub fn new(value: JsonValue) -> (r: Result<StoredTagValue, ValidationError>)
        ensures
            match r {
                Ok(t) => !(value is Null) && t.content() == json_view(value),
                Err(e) => value is Null && e == ValidationError::NullValueNotAllowed,
            },
    {
        if value.is_null() {
            return Err(ValidationError::NullValueNotAllowed);
        }
        Ok(StoredTagValue(value))
    }

    /// The wrapped value.
    pub fn into_inner(self) -> (v: JsonValue)
        ensures
            json_view(v) == self.content(),
    {
        self.0
    }
}

} // verus!

verus! {

/// The tag state of an asset: field ids mapped to stored values.
pub type DomainState = JsonObject;

/// One change an event type makes to the tag state.
#[derive(Clone, Debug)]
pub enum MutationSpec {
    /// Stores the payload's `input_key` value, checked against `field_type`.
    SetValue { field_id: String, field_type: FieldType, input_key: String },
    /// Removes the field.
    Clear { field_id: String },
    /// Adds the payload's `input_key` number to the field's number.
    Increment { field_id: String, field_type: FieldType, input_key: String },
}

/// A version of an event type: what applying one of its events does.
#[derive(Clone, Debug)]
pub struct EventType {
    pub event_type_id: String,
    pub event_type_version: u32,
    pub mutations: Vec<MutationSpec>,
}

/// An event to apply: its type and version, and the inputs of its mutations.
#[derive(Debug)]
pub struct Event {
    pub idempotency_key: String,
    pub event_type_id: String,
    pub event_type_version: u32,
    pub payload: JsonObject,
}

/// How a resubmitted event relates to an earlier one.
#[derive(Clone, Copy, Debug, PartialEq, Eq, Structural)]
pub enum IdempotencyComparison {
    DifferentKey,
    SamePayload,
    PayloadMismatch,
}

/// How `a` relates to `b`: another key, or the same key with the same type,
/// version and payload, or the same key with something else.
pub open spec fn idempotency_of(a: Event, b: Event) -> IdempotencyComparison {
    if a.idempotency_key@ != b.idempotency_key@ {
        IdempotencyComparison::DifferentKey
    } else if a.event_type_id@ == b.event_type_id@ && a.event_type_version == b.event_type_version
        && entries_equiv(a.payload.entry_seq(), b.payload.entry_seq()) {
        IdempotencyComparison::SamePayload
    } else {
        IdempotencyComparison::PayloadMismatch
    }
}

impl Event {
    /// How this event relates to `other` under the idempotency rules.
    pub fn compare_idempotency(&self, other: &Self) -> (c: IdempotencyComparison)
        ensures
            c == idempotency_of(*self, *other),
            c == idempotency_of(*other, *self),
    {
        self.payload.walk_well_formed();
        other.payload.walk_well_formed();
        proof {
            lemma_idempotency_symmetric(*self, *other);
        }
        if !str_eq(self.idempotency_key.as_str(), other.idempotency_key.as_str()) {
            return IdempotencyComparison::DifferentKey;
        }
        if str_eq(self.event_type_id.as_str(), other.event_type_id.as_str())
            && self.event_type_version == other.event_type_version && objects_equal(&self.payload, &other.payload) {
            IdempotencyComparison::SamePayload
        } else {
            IdempotencyComparison::PayloadMismatch
        }
    }
}

/// Why an event could not be applied.
#[derive(Clone, Debug)]
pub enum EventApplyError {
    EventTypeMismatch {
        expected_event_type_id: String,
        expected_event_type_version: u32,
        found_event_type_id: String,
        found_event_type_version: u32,
    },
    MissingInput { input_key: String },
    InvalidInputValue { input_key: String, field_type: FieldType, reason: ValidationError },
    InvalidIncrementTargetType { field_id: String, field_type: FieldType },
    MixedNumericKinds { field_id: String },
    IntegerOverflow { field_id: String },
}

/// The content of an `EventApplyError`, with text as characters.
pub enum ApplyErrorView {
    EventTypeMismatch {
        expected_event_type_id: Seq<char>,
        expected_event_type_version: u32,
        found_event_type_id: Seq<char>,
        found_event_type_version: u32,
    },
    MissingInput { input_key: Seq<char> },
    InvalidInputValue { input_key: Seq<char>, field_type: FieldType, reason: ValidationError },
    InvalidIncrementTargetType { field_id: Seq<char>, field_type: FieldType },
    MixedNumericKinds { field_id: Seq<char> },
    IntegerOverflow { field_id: Seq<char> },
}

impl View for EventApplyError {
    type V = ApplyErrorView;

    open spec fn view(&self) -> ApplyErrorView {
        match self {
            EventApplyError::EventTypeMismatch {
                expected_event_type_id,
                expected_event_type_version,
                found_event_type_id,
                found_event_type_version,
            } => ApplyErrorView::EventTypeMismatch {
                expected_event_type_id: expected_event_type_id@,
                expected_event_type_version: *expected_event_type_version,
                found_event_type_id: found_event_type_id@,
                found_event_type_version: *found_event_type_version,
            },
            EventApplyError::MissingInput { input_key } => ApplyErrorView::MissingInput { input_key: input_key@ },
            EventApplyError::InvalidInputValue { input_key, field_type, reason } => ApplyErrorView::InvalidInputValue {
                input_key: input_key@,
                field_type: *field_type,
                reason: *reason,
            },
            EventApplyError::InvalidIncrementTargetType { field_id, field_type } =>
                ApplyErrorView::InvalidIncrementTargetType { field_id: field_id@, field_type: *field_type },
            EventApplyError::MixedNumericKinds { field_id } => ApplyErrorView::MixedNumericKinds { field_id: field_id@ },
            EventApplyError::IntegerOverflow { field_id } => ApplyErrorView::IntegerOverflow { field_id: field_id@ },
        }
    }
}

/// The sum of two decimals (binary64 bit patterns) as `add` computes it.
pub open spec fn decimal_sum<F: Fn(u64, u64) -> Option<u64>>(add: F, a: u64, b: u64) -> Option<u64> {
    choose|r: Option<u64>| call_ensures(add, (a, b), r)
}

/// Whether `add` may be called on any two decimals and answers each pair
/// always the same way.
pub open spec fn is_decimal_adder<F: Fn(u64, u64) -> Option<u64>>(add: F) -> bool {
    &&& forall|a: u64, b: u64| call_requires(add, (a, b))
    &&& forall|a: u64, b: u64, r1: Option<u64>, r2: Option<u64>|
        call_ensures(add, (a, b), r1) && call_ensures(add, (a, b), r2) ==> r1 == r2
}

/// The integer value of a JSON integer.
pub open spec fn integer_of(n: JsonNumber) -> Option<int> {
    match n {
        JsonNumber::PosInt(u) => Some(u as int),
        JsonNumber::NegInt(i) => Some(i as int),
        JsonNumber::Float(_) => None,
    }
}

/// The JSON integer for `v`, if it fits the range of JSON integers.
pub open spec fn integer_number(v: int) -> Option<JsonNumber> {
    if 0 <= v <= u64::MAX {
        Some(JsonNumber::PosInt(v as u64))
    } else if i64::MIN <= v < 0 {
        Some(JsonNumber::NegInt(v as i64))
    } else {
        None
    }
}

/// What incrementing a field comes down to once its inputs are checked: a
/// new integer to store, or two decimals to add.
#[derive(Clone, Copy, Debug, PartialEq, Eq, Structural)]
pub enum IncrementPlan {
    Store(JsonNumber),
    AddDecimals(u64, u64),
}

/// The plan for incrementing field `fid` of `s` by the payload value `input`
/// (named `ik` in the payload), or the reason it cannot be done.
pub open spec fn increment_plan(
    s: Map<Seq<char>, JsonView>,
    fid: Seq<char>,
    ft: FieldType,
    ik: Seq<char>,
    input: JsonView,
) -> Result<IncrementPlan, ApplyErrorView> {
    match ft {
        FieldType::Integer => match input {
            JsonView::Number(JsonNumber::Float(_)) => Err(ApplyErrorView::MixedNumericKinds { field_id: fid }),
            JsonView::Number(n) => {
                let delta = integer_of(n)->0;
                let base: Option<int> = if !s.contains_key(fid) {
                    Some(0)
                } else {
                    match s[fid] {
                        JsonView::Number(m) => integer_of(m),
                        _ => None,
                    }
                };
                match base {
                    None => Err(ApplyErrorView::MixedNumericKinds { field_id: fid }),
                    Some(b) => match integer_number(b + delta) {
                        Some(out) => Ok(IncrementPlan::Store(out)),
                        None => Err(ApplyErrorView::IntegerOverflow { field_id: fid }),
                    },
                }
            },
            _ => Err(
                ApplyErrorView::InvalidInputValue { input_key: ik, field_type: ft, reason: ValidationError::ExpectedNumber },
            ),
        },
        FieldType::Decimal => match input {
            JsonView::Number(JsonNumber::Float(delta)) => {
                if !s.contains_key(fid) {
                    Ok(IncrementPlan::AddDecimals(0, delta))
                } else {
                    match s[fid] {
                        JsonView::Number(JsonNumber::Float(b)) => Ok(IncrementPlan::AddDecimals(b, delta)),
                        _ => Err(ApplyErrorView::MixedNumericKinds { field_id: fid }),
                    }
                }
            },
            JsonView::Number(_) => Err(ApplyErrorView::MixedNumericKinds { field_id: fid }),
            _ => Err(
                ApplyErrorView::InvalidInputValue { input_key: ik, field_type: ft, reason: ValidationError::ExpectedNumber },
            ),
        },
        _ => Err(ApplyErrorView::InvalidIncrementTargetType { field_id: fid, field_type: ft }),
    }
}

/// The result of incrementing field `fid` of `s` by the payload value `input`,
/// decimals being added by `add`; a sum `add` cannot give is refused.
pub open spec fn increment_step<F: Fn(u64, u64) -> Option<u64>>(
    s: Map<Seq<char>, JsonView>,
    fid: Seq<char>,
    ft: FieldType,
    ik: Seq<char>,
    input: JsonView,
    add: F,
) -> Result<Map<Seq<char>, JsonView>, ApplyErrorView> {
    match increment_plan(s, fid, ft, ik, input) {
        Err(e) => Err(e),
        Ok(IncrementPlan::Store(n)) => Ok(s.insert(fid, JsonView::Number(n))),
        Ok(IncrementPlan::AddDecimals(b, d)) => match decimal_sum(add, b, d) {
            Some(out) => Ok(s.insert(fid, JsonView::Number(JsonNumber::Float(out)))),
            None => Err(ApplyErrorView::MixedNumericKinds { field_id: fid }),
        },
    }
}

/// The result of applying mutation `m` to `s` with the event payload `payload`.
pub open spec fn mutation_step<F: Fn(u64, u64) -> Option<u64>>(
    s: Map<Seq<char>, JsonView>,
    m: MutationSpec,
    payload: Map<Seq<char>, JsonView>,
    add: F,
) -> Result<Map<Seq<char>, JsonView>, ApplyErrorView> {
    match m {
        MutationSpec::SetValue { field_id, field_type, input_key } => {
            if !payload.contains_key(input_key@) {
                Err(ApplyErrorView::MissingInput { input_key: input_key@ })
            } else {
                match tag_value_check(field_type, payload[input_key@]) {
                    Err(reason) => Err(
                        ApplyErrorView::InvalidInputValue { input_key: input_key@, field_type, reason },
                    ),
                    Ok(_) => Ok(s.insert(field_id@, payload[input_key@])),
                }
            }
        },
        MutationSpec::Clear { field_id } => Ok(s.remove(field_id@)),
        MutationSpec::Increment { field_id, field_type, input_key } => {
            if !payload.contains_key(input_key@) {
                Err(ApplyErrorView::MissingInput { input_key: input_key@ })
            } else {
                increment_step(s, field_id@, field_type, input_key@, payload[input_key@], add)
            }
        },
    }
}

/// The result of applying the mutations `muts` in order, stopping at the
/// first that fails.
pub open spec fn run_mutations<F: Fn(u64, u64) -> Option<u64>>(
    s: Map<Seq<char>, JsonView>,
    muts: Seq<MutationSpec>,
    payload: Map<Seq<char>, JsonView>,
    add: F,
) -> Result<Map<Seq<char>, JsonView>, ApplyErrorView>
    decreases muts.len(),
{
    if muts.len() == 0 {
        Ok(s)
    } else {
        match run_mutations(s, muts.drop_last(), payload, add) {
            Ok(w) => mutation_step(w, muts.last(), payload, add),
            Err(e) => Err(e),
        }
    }
}

/// The result of applying `ev` to `s` under the definition `et`.
pub open spec fn apply_outcome<F: Fn(u64, u64) -> Option<u64>>(
    s: Map<Seq<char>, JsonView>,
    et: EventType,
    ev: Event,
    add: F,
) -> Result<Map<Seq<char>, JsonView>, ApplyErrorView> {
    if ev.event_type_id@ != et.event_type_id@ || ev.event_type_version != et.event_type_version {
        Err(
            ApplyErrorView::EventTypeMismatch {
                expected_event_type_id: et.event_type_id@,
                expected_event_type_version: et.event_type_version,
                found_event_type_id: ev.event_type_id@,
                found_event_type_version: ev.event_type_version,
            },
        )
    } else {
        run_mutations(s, et.mutations@, ev.payload.view(), add)
    }
}

} // verus!

verus! {

/// The integer a JSON integer holds.
fn integer_value(n: JsonNumber) -> (v: Option<i128>)
    ensures
        match integer_of(n) {
            Some(i) => v == Some(i as i128),
            None => v is None,
        },
{
    match n {
        JsonNumber::PosInt(u) => Some(u as i128),
        JsonNumber::NegInt(i) => Some(i as i128),
        JsonNumber::Float(_) => None,
    }
}

/// The JSON integer for `v`, if in range.
fn integer_number_exec(v: i128) -> (n: Option<JsonNumber>)
    ensures
        n == integer_number(v as int),
{
    if v >= 0 {
        if v <= 18446744073709551615i128 {
            Some(JsonNumber::PosInt(v as u64))
        } else {
            None
        }
    } else if v >= -9223372036854775808i128 {
        Some(JsonNumber::NegInt(v as i64))
    } else {
        None
    }
}

/// Checks an increment of `field_id` in `working` by the payload value
/// `input`, and says what it comes down to.
pub fn plan_increment(
    working: &JsonObject,
    field_id: &String,
    field_type: FieldType,
    input_key: &String,
    input: &JsonValue,
) -> (r: Result<IncrementPlan, EventApplyError>)
    ensures
        match r {
            Ok(p) => increment_plan(working.view(), field_id@, field_type, input_key@, json_view(*input)) == Ok::<
                IncrementPlan,
                ApplyErrorView,
            >(p),
            Err(e) => increment_plan(working.view(), field_id@, field_type, input_key@, json_view(*input)) == Err::<
                IncrementPlan,
                ApplyErrorView,
            >(e@),
        },
{
    let current = working.get(field_id.as_str());
    match field_type {
        FieldType::Integer => {
            let delta = match input.as_number() {
                None => {
                    return Err(
                        EventApplyError::InvalidInputValue {
                            input_key: input_key.clone(),
                            field_type,
                            reason: ValidationError::ExpectedNumber,
                        },
                    );
                },
                Some(n) => match integer_value(n) {
                    None => {
                        return Err(EventApplyError::MixedNumericKinds { field_id: field_id.clone() });
                    },
                    Some(d) => d,
                },
            };
            let base: i128 = match current {
                None => 0,
                Some(c) => match c.as_number() {
                    Some(m) => match integer_value(m) {
                        Some(b) => b,
                        None => {
                            return Err(EventApplyError::MixedNumericKinds { field_id: field_id.clone() });
                        },
                    },
                    None => {
                        return Err(EventApplyError::MixedNumericKinds { field_id: field_id.clone() });
                    },
                },
            };
            match integer_number_exec(base + delta) {
                Some(out) => Ok(IncrementPlan::Store(out)),
                None => Err(EventApplyError::IntegerOverflow { field_id: field_id.clone() }),
            }
        },
        FieldType::Decimal => {
            let delta = match input.as_number() {
                None => {
                    return Err(
                        EventApplyError::InvalidInputValue {
                            input_key: input_key.clone(),
                            field_type,
                            reason: ValidationError::ExpectedNumber,
                        },
                    );
                },
                Some(JsonNumber::Float(d)) => d,
                Some(_) => {
                    return Err(EventApplyError::MixedNumericKinds { field_id: field_id.clone() });
                },
            };
            match current {
                None => Ok(IncrementPlan::AddDecimals(0, delta)),
                Some(c) => match c.as_number() {
                    Some(JsonNumber::Float(b)) => Ok(IncrementPlan::AddDecimals(b, delta)),
                    _ => Err(EventApplyError::MixedNumericKinds { field_id: field_id.clone() }),
                },
            }
        },
        _ => Err(EventApplyError::InvalidIncrementTargetType { field_id: field_id.clone(), field_type }),
    }
}

} // verus!

verus! {

/// Once a prefix of the mutations fails, applying all of them fails the same way.
pub proof fn lemma_run_error_persists<F: Fn(u64, u64) -> Option<u64>>(
    s: Map<Seq<char>, JsonView>,
    muts: Seq<MutationSpec>,
    payload: Map<Seq<char>, JsonView>,
    add: F,
    k: int,
)
    requires
        0 <= k <= muts.len(),
        run_mutations(s, muts.take(k), payload, add) is Err,
    ensures
        run_mutations(s, muts, payload, add) == run_mutations(s, muts.take(k), payload, add),
    decreases muts.len() - k,
{
    if k < muts.len() {
        assert(muts.take(k + 1).drop_last() == muts.take(k));
        lemma_run_error_persists(s, muts, payload, add, k + 1);
    } else {
        assert(muts.take(k) == muts);
    }
}

/// Applies `event` to `state` under the definition `event_type`: all its
/// mutations in order, or, when one of them cannot be made, none. Decimal
/// increments are added by `add_decimals`, given and giving binary64 bit
/// patterns, `None` for a sum that is not a finite number.
pub fn apply_event<F: Fn(u64, u64) -> Option<u64>>(
    state: &mut DomainState,
    event_type: &EventType,
    event: &Event,
    add_decimals: F,
) -> (r: Result<(), EventApplyError>)
    requires
        is_decimal_adder(add_decimals),
    ensures
        match r {
            Ok(_) => apply_outcome(old(state).view(), *event_type, *event, add_decimals) == Ok::<
                Map<Seq<char>, JsonView>,
                ApplyErrorView,
            >(final(state).view()),
            Err(e) => apply_outcome(old(state).view(), *event_type, *event, add_decimals) == Err::<
                Map<Seq<char>, JsonView>,
                ApplyErrorView,
            >(e@) && final(state).view() == old(state).view(),
        },
{
    if !str_eq(event.event_type_id.as_str(), event_type.event_type_id.as_str())
        || event.event_type_version != event_type.event_type_version {
        return Err(
            EventApplyError::EventTypeMismatch {
                expected_event_type_id: event_type.event_type_id.clone(),
                expected_event_type_version: event_type.event_type_version,
                found_event_type_id: event.event_type_id.clone(),
                found_event_type_version: event.event_type_version,
            },
        );
    }
    let ghost s0 = state.view();
    let ghost muts = event_type.mutations@;
    let ghost payload = event.payload.view();
    let mut working = state.copy();
    let n = event_type.mutations.len();
    let mut i: usize = 0;
    assert(muts.take(0) == Seq::<MutationSpec>::empty());
    while i < n
        invariant
            i <= n,
            n == muts.len(),
            muts == event_type.mutations@,
            payload == event.payload.view(),
            s0 == state.view(),
            is_decimal_adder(add_decimals),
            apply_outcome(s0, *event_type, *event, add_decimals) == run_mutations(s0, muts, payload, add_decimals),
            run_mutations(s0, muts.take(i as int), payload, add_decimals) == Ok::<
                Map<Seq<char>, JsonView>,
                ApplyErrorView,
            >(working.view()),
        decreases n - i,
    {
        let ghost w0 = working.view();
        let m = &event_type.mutations[i];
        proof {
            assert(muts.take(i + 1).drop_last() == muts.take(i as int));
            assert(muts.take(i + 1).last() == *m);
        }
        let step: Result<(), EventApplyError> = match m {
            MutationSpec::SetValue { field_id, field_type, input_key } => {
                match event.payload.get(input_key.as_str()) {
                    None => Err(EventApplyError::MissingInput { input_key: input_key.clone() }),
                    Some(input) => match validate_tag_value(field_type, input) {
                        Err(reason) => Err(
                            EventApplyError::InvalidInputValue {
                                input_key: input_key.clone(),
                                field_type: *field_type,
                                reason,
                            },
                        ),
                        Ok(_) => {
                            working.insert(field_id.clone(), input.copy());
                            Ok(())
                        },
                    },
                }
            },
            MutationSpec::Clear { field_id } => {
                working.remove(field_id.as_str());
                Ok(())
            },
            MutationSpec::Increment { field_id, field_type, input_key } => {
                match event.payload.get(input_key.as_str()) {
                    None => Err(EventApplyError::MissingInput { input_key: input_key.clone() }),
                    Some(input) => match plan_increment(&working, field_id, *field_type, input_key, input) {
                        Err(e) => Err(e),
                        Ok(IncrementPlan::Store(out)) => {
                            working.insert(field_id.clone(), JsonValue::Number(out));
                            Ok(())
                        },
                        Ok(IncrementPlan::AddDecimals(b, d)) => {
                            let sum = add_decimals(b, d);
                            proof {
                                assert(call_ensures(add_decimals, (b, d), sum));
                                assert(decimal_sum(add_decimals, b, d) == sum);
                            }
                            match sum {
                                Some(out) => {
                                    working.insert(field_id.clone(), JsonValue::Number(JsonNumber::Float(out)));
                                    Ok(())
                                },
                                None => Err(EventApplyError::MixedNumericKinds { field_id: field_id.clone() }),
                            }
                        },
                    },
                }
            },
        };
        match step {
            Err(e) => {
                proof {
                    assert(run_mutations(s0, muts.take(i + 1), payload, add_decimals) == Err::<
                        Map<Seq<char>, JsonView>,
                        ApplyErrorView,
                    >(e@));
                    lemma_run_error_persists(s0, muts, payload, add_decimals, i + 1);
                }
                return Err(e);
            },
            Ok(_) => {},
        }
        assert(run_mutations(s0, muts.take(i + 1), payload, add_decimals) == Ok::<
            Map<Seq<char>, JsonView>,
            ApplyErrorView,
        >(working.view()));
        i = i + 1;
    }
    assert(muts.take(n as int) == muts);
    *state = working;
    Ok(())
}

} // verus!

verus! {

/// How a field type is written in messages (its variant name).
pub open spec fn field_type_text(ft: FieldType) -> Seq<char> {
    match ft {
        FieldType::Text => "Text"@,
        FieldType::Integer => "Integer"@,
        FieldType::Decimal => "Decimal"@,
        FieldType::Boolean => "Boolean"@,
        FieldType::Date => "Date"@,
        FieldType::Datetime => "Datetime"@,
        FieldType::Money => "Money"@,
        FieldType::Url => "Url"@,
        FieldType::MacAddress => "MacAddress"@,
        FieldType::Ipv4 => "Ipv4"@,
        FieldType::Enum => "Enum"@,
        FieldType::ExternalEntity(id) => "ExternalEntity("@ + int_text(id as int) + ")"@,
    }
}

impl FieldType {
    /// How the field type is written in messages (see `field_type_text`).
    pub fn to_text(&self) -> (s: String)
        ensures
            s@ == field_type_text(*self),
    {
        match self {
            FieldType::Text => String::from_str("Text"),
            FieldType::Integer => String::from_str("Integer"),
            FieldType::Decimal => String::from_str("Decimal"),
            FieldType::Boolean => String::from_str("Boolean"),
            FieldType::Date => String::from_str("Date"),
            FieldType::Datetime => String::from_str("Datetime"),
            FieldType::Money => String::from_str("Money"),
            FieldType::Url => String::from_str("Url"),
            FieldType::MacAddress => String::from_str("MacAddress"),
            FieldType::Ipv4 => String::from_str("Ipv4"),
            FieldType::Enum => String::from_str("Enum"),
            FieldType::ExternalEntity(id) => {
                let mut s = String::from_str("ExternalEntity(");
                let digits = i64_text(*id);
                s.append(digits.as_str());
                s.append(")");
                s
            },
        }
    }
}

/// The human-readable text of an event application error.
pub open spec fn apply_error_text(e: ApplyErrorView) -> Seq<char> {
    match e {
        ApplyErrorView::EventTypeMismatch {
            expected_event_type_id,
            expected_event_type_version,
            found_event_type_id,
            found_event_type_version,
        } => "event type mismatch: expected "@ + expected_event_type_id + "@"@ + nat_text(
            expected_event_type_version as nat,
        ) + ", got "@ + found_event_type_id + "@"@ + nat_text(found_event_type_version as nat),
        ApplyErrorView::MissingInput { input_key } => "missing required input key '"@ + input_key + "'"@,
        ApplyErrorView::InvalidInputValue { input_key, field_type, reason } => "invalid input '"@ + input_key
            + "' for "@ + field_type_text(field_type) + ": "@ + validation_message(reason),
        ApplyErrorView::InvalidIncrementTargetType { field_id, field_type } => "increment on '"@ + field_id
            + "' is invalid for field type "@ + field_type_text(field_type),
        ApplyErrorView::MixedNumericKinds { field_id } => "increment for '"@ + field_id
            + "' mixed integer/decimal kinds"@,
        ApplyErrorView::IntegerOverflow { field_id } => "integer increment overflow for '"@ + field_id + "'"@,
    }
}

impl EventApplyError {
    /// The human-readable text of the error.
    pub fn to_string(&self) -> (s: String)
        ensures
            s@ == apply_error_text(self@),
    {
        match self {
            EventApplyError::EventTypeMismatch {
                expected_event_type_id,
                expected_event_type_version,
                found_event_type_id,
                found_event_type_version,
            } => {
                let mut s = String::from_str("event type mismatch: expected ");
                s.append(expected_event_type_id.as_str());
                s.append("@");
                let v1 = u64_text(*expected_event_type_version as u64);
                s.append(v1.as_str());
                s.append(", got ");
                s.append(found_event_type_id.as_str());
                s.append("@");
                let v2 = u64_text(*found_event_type_version as u64);
                s.append(v2.as_str());
                s
            },
            EventApplyError::MissingInput { input_key } => {
                let mut s = String::from_str("missing required input key '");
                s.append(input_key.as_str());
                s.append("'");
                s
            },
            EventApplyError::InvalidInputValue { input_key, field_type, reason } => {
                let mut s = String::from_str("invalid input '");
                s.append(input_key.as_str());
                s.append("' for ");
                let t = field_type.to_text();
                s.append(t.as_str());
                s.append(": ");
                let r = reason.to_string();
                s.append(r.as_str());
                s
            },
            EventApplyError::InvalidIncrementTargetType { field_id, field_type } => {
                let mut s = String::from_str("increment on '");
                s.append(field_id.as_str());
                s.append("' is invalid for field type ");
                let t = field_type.to_text();
                s.append(t.as_str());
                s
            },
            EventApplyError::MixedNumericKinds { field_id } => {
                let mut s = String::from_str("increment for '");
                s.append(field_id.as_str());
                s.append("' mixed integer/decimal kinds");
                s
            },
            EventApplyError::IntegerOverflow { field_id } => {
                let mut s = String::from_str("integer increment overflow for '");
                s.append(field_id.as_str());
                s.append("'");
                s
            },
        }
    }
}

} // verus!

verus! {

/// An event compared with itself is a replay with the same payload.
pub proof fn lemma_event_replays_itself(e: Event)
    requires
        json_wf(JsonValue::Object(e.payload)),
    ensures
        idempotency_of(e, e) == IdempotencyComparison::SamePayload,
{
    lemma_json_equiv_reflexive(JsonValue::Object(e.payload));
}

/// The idempotency comparison is symmetric: comparing `a` with `b` gives
/// what comparing `b` with `a` gives.
pub proof fn lemma_idempotency_symmetric(a: Event, b: Event)
    requires
        json_wf(JsonValue::Object(a.payload)),
        json_wf(JsonValue::Object(b.payload)),
    ensures
        idempotency_of(a, b) == idempotency_of(b, a),
{
    let x = JsonValue::Object(a.payload);
    let y = JsonValue::Object(b.payload);
    if entries_equiv(a.payload.entry_seq(), b.payload.entry_seq()) {
        assert(json_equiv(x, y));
        lemma_json_equiv_symmetric(x, y);
        assert(json_equiv(y, x));
    }
    if entries_equiv(b.payload.entry_seq(), a.payload.entry_seq()) {
        assert(json_equiv(y, x));
        lemma_json_equiv_symmetric(y, x);
        assert(json_equiv(x, y));
    }
}

/// Events with different idempotency keys are never compared further.
pub proof fn lemma_different_keys_are_unrelated(a: Event, b: Event)
    requires
        a.idempotency_key@ != b.idempotency_key@,
    ensures
        idempotency_of(a, b) == IdempotencyComparison::DifferentKey,
        idempotency_of(b, a) == IdempotencyComparison::DifferentKey,
{
}

/// A `SetValue` mutation that succeeds stores exactly the payload's input
/// under the field, and leaves every other field as it was.
pub proof fn lemma_set_stores_input<F: Fn(u64, u64) -> Option<u64>>(
    s: Map<Seq<char>, JsonView>,
    m: MutationSpec,
    payload: Map<Seq<char>, JsonView>,
    add: F,
    other: Seq<char>,
)
    requires
        m is SetValue,
        mutation_step(s, m, payload, add) is Ok,
    ensures
        ({
            let t = mutation_step(s, m, payload, add)->Ok_0;
            &&& payload.contains_key(m->SetValue_input_key@)
            &&& t.contains_key(m->SetValue_field_id@)
            &&& t[m->SetValue_field_id@] == payload[m->SetValue_input_key@]
            &&& tag_value_check(m->SetValue_field_type, payload[m->SetValue_input_key@]) is Ok
            &&& other != m->SetValue_field_id@ ==> (t.contains_key(other) == s.contains_key(other) && t[other]
                == s[other])
        }),
{
}

/// The field a mutation changes.
pub open spec fn mutation_field(m: MutationSpec) -> Seq<char> {
    match m {
        MutationSpec::SetValue { field_id, .. } => field_id@,
        MutationSpec::Clear { field_id } => field_id@,
        MutationSpec::Increment { field_id, .. } => field_id@,
    }
}

/// A mutation that succeeds leaves every field but its own as it was.
proof fn lemma_step_keeps_other_fields<F: Fn(u64, u64) -> Option<u64>>(
    s: Map<Seq<char>, JsonView>,
    m: MutationSpec,
    payload: Map<Seq<char>, JsonView>,
    add: F,
    k: Seq<char>,
)
    requires
        mutation_field(m) != k,
    ensures
        mutation_step(s, m, payload, add) matches Ok(t) ==> t.contains_key(k) == s.contains_key(k) && (
        s.contains_key(k) ==> t[k] == s[k]),
{
}

/// Running mutations none of which names `k` leaves `k` as it was.
proof fn lemma_run_keeps_unnamed<F: Fn(u64, u64) -> Option<u64>>(
    s: Map<Seq<char>, JsonView>,
    muts: Seq<MutationSpec>,
    payload: Map<Seq<char>, JsonView>,
    add: F,
    k: Seq<char>,
)
    requires
        forall|i: int| 0 <= i < muts.len() ==> mutation_field(#[trigger] muts[i]) != k,
    ensures
        run_mutations(s, muts, payload, add) matches Ok(n) ==> n.contains_key(k) == s.contains_key(k) && (
        s.contains_key(k) ==> n[k] == s[k]),
    decreases muts.len(),
{
    if muts.len() > 0 {
        let init = muts.drop_last();
        assert forall|i: int| 0 <= i < init.len() implies mutation_field(#[trigger] init[i]) != k by {
            assert(init[i] == muts[i]);
        }
        lemma_run_keeps_unnamed(s, init, payload, add, k);
        match run_mutations(s, init, payload, add) {
            Ok(w) => {
                assert(mutation_field(muts[muts.len() - 1]) != k);
                lemma_step_keeps_other_fields(w, muts.last(), payload, add, k);
            },
            Err(_) => {},
        }
    }
}

/// Applying an event changes only the fields its type's mutations name:
/// every other field keeps its value (or stays absent). On failure nothing
/// changes at all (see `apply_event`).
pub proof fn lemma_unnamed_fields_kept<F: Fn(u64, u64) -> Option<u64>>(
    s: Map<Seq<char>, JsonView>,
    et: EventType,
    ev: Event,
    add: F,
    k: Seq<char>,
)
    requires
        forall|i: int| 0 <= i < et.mutations@.len() ==> mutation_field(#[trigger] et.mutations@[i]) != k,
    ensures
        apply_outcome(s, et, ev, add) matches Ok(n) ==> n.contains_key(k) == s.contains_key(k) && (s.contains_key(k)
            ==> n[k] == s[k]),
{
    lemma_run_keeps_unnamed(s, et.mutations@, ev.payload.view(), add, k);
}

/// A `Clear` mutation always succeeds, removes the field and keeps the others.
pub proof fn lemma_clear_removes_field<F: Fn(u64, u64) -> Option<u64>>(
    s: Map<Seq<char>, JsonView>,
    field_id: String,
    payload: Map<Seq<char>, JsonView>,
    add: F,
)
    ensures
        mutation_step(s, MutationSpec::Clear { field_id }, payload, add) == Ok::<
            Map<Seq<char>, JsonView>,
            ApplyErrorView,
        >(s.remove(field_id@)),
        !s.remove(field_id@).contains_key(field_id@),
{
}

/// Applying an event whose type has no mutations changes nothing.
pub proof fn lemma_no_mutations_no_change<F: Fn(u64, u64) -> Option<u64>>(
    s: Map<Seq<char>, JsonView>,
    et: EventType,
    ev: Event,
    add: F,
)
    requires
        et.mutations@.len() == 0,
        ev.event_type_id@ == et.event_type_id@,
        ev.event_type_version == et.event_type_version,
    ensures
        apply_outcome(s, et, ev, add) == Ok::<Map<Seq<char>, JsonView>, ApplyErrorView>(s),
{
}

/// An integer increment that succeeds stores the sum of the field's integer
/// (zero when absent) and the input integer.
pub proof fn lemma_integer_increment_sums<F: Fn(u64, u64) -> Option<u64>>(
    s: Map<Seq<char>, JsonView>,
    fid: Seq<char>,
    ik: Seq<char>,
    input: JsonNumber,
    add: F,
)
    requires
        increment_step(s, fid, FieldType::Integer, ik, JsonView::Number(input), add) is Ok,
    ensures
        ({
            let t = increment_step(s, fid, FieldType::Integer, ik, JsonView::Number(input), add)->Ok_0;
            let base: int = if s.contains_key(fid) {
                integer_of(s[fid]->Number_0)->0
            } else {
                0
            };
            &&& integer_of(input) is Some
            &&& t.contains_key(fid)
            &&& t[fid] is Number
            &&& integer_of(t[fid]->Number_0) == Some(base + integer_of(input)->0)
        }),
{
}

} // verus!
