//! The state behind the HAM desktop client: the catalog of categories and
//! assets, the open asset's timeline, and the event form built from an event
//! type's schema, with the controller that keeps them in step with a server.
use vstd::prelude::*;
use crate::json::{JsonNumber, JsonObject, JsonValue, JsonView, json_view};
use crate::text::{ascii_lower, eq_lit, i64_text, int_text, parse_i64, parse_i64_spec, to_ascii_lower, trim_str, trimmed_text};

verus! {

/// A category of assets.
#[derive(Clone, Debug, PartialEq, Eq)]
pub struct Category {
    pub id: i64,
    pub name: String,
    pub parent_category_id: Option<i64>,
}

impl Category {
    /// A category with the given id, name and parent.
    pub fn new(id: i64, name: &str, parent_category_id: Option<i64>) -> (c: Category)
        ensures
            c.id == id,
            c.name@ == name@,
            c.parent_category_id == parent_category_id,
    {
        Category { id, name: name.to_string(), parent_category_id }
    }
}

/// An asset as the catalog lists it.
#[derive(Clone, Debug, PartialEq, Eq)]
pub struct Asset {
    pub id: i64,
    pub category_id: i64,
    pub asset_tag: String,
    pub display_name: Option<String>,
    pub deleted_at: Option<String>,
}

impl Asset {
    /// An asset with the given fields.
    pub fn new(
        id: i64,
        category_id: i64,
        asset_tag: &str,
        display_name: Option<String>,
        deleted_at: Option<String>,
    ) -> (a: Asset)
        ensures
            a.id == id,
            a.category_id == category_id,
            a.asset_tag@ == asset_tag@,
            a.display_name == display_name,
            a.deleted_at == deleted_at,
    {
        Asset { id, category_id, asset_tag: asset_tag.to_string(), display_name, deleted_at }
    }
}

/// One event of an asset's timeline.
#[derive(Clone, Debug, PartialEq)]
pub struct AssetEvent {
    pub event_id: i64,
    pub event_type_id: String,
    pub event_type_version: i64,
    pub payload: JsonValue,
    pub timestamp: String,
}

impl AssetEvent {
    /// A timeline event with the given fields.
    pub fn new(
        event_id: i64,
        event_type_id: &str,
        event_type_version: i64,
        payload: JsonValue,
        timestamp: &str,
    ) -> (e: AssetEvent)
        ensures
            e.event_id == event_id,
            e.event_type_id@ == event_type_id@,
            e.event_type_version == event_type_version,
            json_view(e.payload) == json_view(payload),
            e.timestamp@ == timestamp@,
    {
        AssetEvent {
            event_id,
            event_type_id: event_type_id.to_string(),
            event_type_version,
            payload,
            timestamp: timestamp.to_string(),
        }
    }
}

/// One page of a timeline, with the cursor of the next page if there is one.
#[derive(Clone, Debug, PartialEq)]
pub struct TimelinePage {
    pub items: Vec<AssetEvent>,
    pub next_cursor: Option<String>,
}

/// A choice of an enum input: its key and how it is shown.
#[derive(Clone, Debug, PartialEq, Eq)]
pub struct EnumOption {
    pub option_key: String,
    pub display_name: String,
}

impl EnumOption {
    /// An enum choice with the given key and display name.
    pub fn new(option_key: &str, display_name: &str) -> (o: EnumOption)
        ensures
            o.option_key@ == option_key@,
            o.display_name@ == display_name@,
    {
        EnumOption { option_key: option_key.to_string(), display_name: display_name.to_string() }
    }
}

/// A choice of an external-entity input: the entity's id and name.
#[derive(Clone, Debug, PartialEq, Eq)]
pub struct ExternalEntityOption {
    pub id: i64,
    pub display_name: String,
}

impl ExternalEntityOption {
    /// An external-entity choice with the given id and display name.
    pub fn new(id: i64, display_name: &str) -> (o: ExternalEntityOption)
        ensures
            o.id == id,
            o.display_name@ == display_name@,
    {
        ExternalEntityOption { id, display_name: display_name.to_string() }
    }
}

/// What kind of value an event input takes.
#[derive(Clone, Debug, PartialEq)]
pub enum EventInputSpecKind {
    Text,
    Integer,
    Decimal,
    Boolean,
    Enum(Vec<EnumOption>),
    ExternalEntity(Vec<ExternalEntityOption>),
}

/// One input of an event type: its payload key, its label and its kind.
#[derive(Clone, Debug, PartialEq)]
pub struct EventInputSpec {
    pub input_key: String,
    pub label: String,
    pub kind: EventInputSpecKind,
}

impl EventInputSpec {
    /// A free-text input labelled by its key.
    pub fn text(input_key: &str) -> (s: EventInputSpec)
        ensures
            s.input_key@ == input_key@,
            s.label@ == input_key@,
            s.kind == EventInputSpecKind::Text,
    {
        EventInputSpec { input_key: input_key.to_string(), label: input_key.to_string(), kind: EventInputSpecKind::Text }
    }

    /// A choice among `options` (key, display name), labelled by its key.
    pub fn enum_select(input_key: &str, options: Vec<(&str, &str)>) -> (s: EventInputSpec)
        ensures
            s.input_key@ == input_key@,
            s.label@ == input_key@,
            s.kind is Enum,
            s.kind->Enum_0@.len() == options@.len(),
            forall|i: int|
                0 <= i < options@.len() ==> (#[trigger] s.kind->Enum_0@[i]).option_key@ == options@[i].0@
                    && s.kind->Enum_0@[i].display_name@ == options@[i].1@,
    {
        let mut out: Vec<EnumOption> = Vec::new();
        let mut i: usize = 0;
        while i < options.len()
            invariant
                i <= options@.len(),
                out@.len() == i,
                forall|k: int|
                    0 <= k < i ==> (#[trigger] out@[k]).option_key@ == options@[k].0@ && out@[k].display_name@
                        == options@[k].1@,
            decreases options.len() - i,
        {
            let (key, label) = options[i];
            out.push(EnumOption::new(key, label));
            i = i + 1;
        }
        EventInputSpec { input_key: input_key.to_string(), label: input_key.to_string(), kind: EventInputSpecKind::Enum(out) }
    }

    /// A choice among external entities `options` (id, display name),
    /// labelled by its key.
    pub fn external_entity_select(input_key: &str, options: Vec<(i64, &str)>) -> (s: EventInputSpec)
        ensures
            s.input_key@ == input_key@,
            s.label@ == input_key@,
            s.kind is ExternalEntity,
            s.kind->ExternalEntity_0@.len() == options@.len(),
            forall|i: int|
                0 <= i < options@.len() ==> (#[trigger] s.kind->ExternalEntity_0@[i]).id == options@[i].0
                    && s.kind->ExternalEntity_0@[i].display_name@ == options@[i].1@,
    {
        let mut out: Vec<ExternalEntityOption> = Vec::new();
        let mut i: usize = 0;
        while i < options.len()
            invariant
                i <= options@.len(),
                out@.len() == i,
                forall|k: int|
                    0 <= k < i ==> (#[trigger] out@[k]).id == options@[k].0 && out@[k].display_name@
                        == options@[k].1@,
            decreases options.len() - i,
        {
            let (id, label) = options[i];
            out.push(ExternalEntityOption::new(id, label));
            i = i + 1;
        }
        EventInputSpec {
            input_key: input_key.to_string(),
            label: input_key.to_string(),
            kind: EventInputSpecKind::ExternalEntity(out),
        }
    }
}

/// The inputs an event type asks for.
#[derive(Clone, Debug, PartialEq)]
pub struct EventTypeSchema {
    pub event_type_id: String,
    pub inputs: Vec<EventInputSpec>,
}

/// What kind of value a form field holds.
#[derive(Clone, Debug, PartialEq)]
pub enum EventFormFieldKind {
    Text,
    Integer,
    Decimal,
    Boolean,
    Enum(Vec<EnumOption>),
    ExternalEntity(Vec<ExternalEntityOption>),
}

/// A field of the event form, with the text typed into it.
#[derive(Clone, Debug, PartialEq)]
pub struct EventFormField {
    pub input_key: String,
    pub label: String,
    pub kind: EventFormFieldKind,
    pub value: String,
}

/// The event form: which event type it submits, and its fields.
#[derive(Clone, Debug, PartialEq)]
pub struct EventFormState {
    pub event_type_id: String,
    pub fields: Vec<EventFormField>,
}

/// Everything the client shows.
#[derive(Clone, Debug, PartialEq)]
pub struct GuiState {
    pub categories: Vec<Category>,
    pub assets: Vec<Asset>,
    pub selected_asset_tag: Option<String>,
    pub timeline: Vec<AssetEvent>,
    pub event_form: Option<EventFormState>,
    pub last_error: Option<String>,
    pub event_type_draft: String,
    pub idempotency_key_draft: String,
}

impl Default for GuiState {
    fn default() -> (s: GuiState)
        ensures
            s.categories@.len() == 0,
            s.assets@.len() == 0,
            s.selected_asset_tag is None,
            s.timeline@.len() == 0,
            s.event_form is None,
            s.last_error is None,
            s.event_type_draft@.len() == 0,
            s.idempotency_key_draft@.len() == 0,
    {
        GuiState {
            categories: Vec::new(),
            assets: Vec::new(),
            selected_asset_tag: None,
            timeline: Vec::new(),
            event_form: None,
            last_error: None,
            event_type_draft: String::new(),
            idempotency_key_draft: String::new(),
        }
    }
}

/// The server's answer to an applied event.
#[derive(Clone, Debug, PartialEq)]
pub struct AppliedEvent {
    pub event_id: i64,
    pub event_type_id: String,
    pub event_type_version: i64,
    pub payload: JsonValue,
    pub timestamp: String,
}

/// Why a request to the server, or a form, failed.
#[derive(Clone, Debug, PartialEq, Eq)]
pub enum ApiError {
    Http(String),
    Invalid(String),
}

/// The human-readable text of an `ApiError`.
pub open spec fn api_error_text(e: ApiError) -> Seq<char> {
    match e {
        ApiError::Http(m) => "http error: "@ + m@,
        ApiError::Invalid(m) => "invalid response: "@ + m@,
    }
}

impl ApiError {
    /// An `Invalid` error with the given message.
    pub fn invalid(message: &str) -> (e: ApiError)
        ensures
            e is Invalid,
            e->Invalid_0@ == message@,
    {
        ApiError::Invalid(message.to_string())
    }

    /// The human-readable text of the error.
    pub fn to_string(&self) -> (s: String)
        ensures
            s@ == api_error_text(*self),
    {
        match self {
            ApiError::Http(m) => {
                let mut s = String::from_str("http error: ");
                s.append(m.as_str());
                s
            },
            ApiError::Invalid(m) => {
                let mut s = String::from_str("invalid response: ");
                s.append(m.as_str());
                s
            },
        }
    }
}

} // verus!

verus! {

/// How a decimal input reads: not a number, a number too large to be finite,
/// or a finite binary64 value given by its bit pattern.
#[derive(Clone, Copy, Debug, PartialEq, Eq, Structural)]
pub enum DecimalText {
    NotANumber,
    NotFinite,
    Finite(u64),
}

/// Whether `parse` may answer `r` for the text `s`.
pub open spec fn reads_as<P: Fn(&str) -> DecimalText>(parse: P, s: Seq<char>, r: DecimalText) -> bool {
    exists|t: &str| t@ == s && #[trigger] call_ensures(parse, (t,), r)
}

/// What `parse` makes of the text `s`.
pub open spec fn decimal_reading<P: Fn(&str) -> DecimalText>(parse: P, s: Seq<char>) -> DecimalText {
    choose|r: DecimalText| reads_as(parse, s, r)
}

/// Whether `parse` reads any text, and reads equal texts alike.
pub open spec fn is_decimal_reader<P: Fn(&str) -> DecimalText>(parse: P) -> bool {
    &&& forall|t: &str| call_requires(parse, (t,))
    &&& forall|t1: &str, t2: &str, r1: DecimalText, r2: DecimalText|
        t1@ == t2@ && call_ensures(parse, (t1,), r1) && call_ensures(parse, (t2,), r2) ==> r1 == r2
}

/// The boolean a form text spells, in any ASCII case: `true`, `1`, `yes`,
/// or `false`, `0`, `no`.
pub open spec fn bool_reading(s: Seq<char>) -> Option<bool> {
    let l = ascii_lower(s);
    if l == "true"@ || l == "1"@ || l == "yes"@ {
        Some(true)
    } else if l == "false"@ || l == "0"@ || l == "no"@ {
        Some(false)
    } else {
        None
    }
}

/// How a boolean form text reads, in any ASCII case: `true`, `1` and `yes`
/// as true; `false`, `0` and `no` as false; any other text as no boolean.
pub proof fn lemma_bool_reading(s: Seq<char>)
    ensures
        ascii_lower(s) == "true"@ || ascii_lower(s) == "1"@ || ascii_lower(s) == "yes"@ ==> bool_reading(s) == Some(
            true,
        ),
        ascii_lower(s) == "false"@ || ascii_lower(s) == "0"@ || ascii_lower(s) == "no"@ ==> bool_reading(s) == Some(
            false,
        ),
        bool_reading(s) is Some ==> ascii_lower(s) == "true"@ || ascii_lower(s) == "1"@ || ascii_lower(s) == "yes"@
            || ascii_lower(s) == "false"@ || ascii_lower(s) == "0"@ || ascii_lower(s) == "no"@,
{
    reveal_strlit("true");
    reveal_strlit("1");
    reveal_strlit("yes");
    reveal_strlit("false");
    reveal_strlit("0");
    reveal_strlit("no");
    let l = ascii_lower(s);
    if l == "false"@ || l == "0"@ || l == "no"@ {
        assert(l.len() == 1 ==> l[0] == '0');
        assert(l != "true"@ && l != "1"@ && l != "yes"@) by {
            if l == "1"@ {
                assert(l[0] == '1');
            }
        }
    }
}

/// A boolean form field is sent as the boolean its text spells: `false`,
/// `0` or `no` in any ASCII case as `false`, `true`, `1` or `yes` as `true`.
pub proof fn lemma_boolean_field_payload<P: Fn(&str) -> DecimalText>(f: EventFormField, parse: P)
    requires
        f.kind is Boolean,
    ensures
        ascii_lower(f.value@) == "false"@ || ascii_lower(f.value@) == "0"@ || ascii_lower(f.value@) == "no"@
            ==> field_payload(f, parse) == Ok::<JsonView, Seq<char>>(JsonView::Bool(false)),
        ascii_lower(f.value@) == "true"@ || ascii_lower(f.value@) == "1"@ || ascii_lower(f.value@) == "yes"@
            ==> field_payload(f, parse) == Ok::<JsonView, Seq<char>>(JsonView::Bool(true)),
{
    lemma_bool_reading(f.value@);
}

/// The JSON integer for `i`.
pub open spec fn integer_json(i: i64) -> JsonView {
    if i < 0 {
        JsonView::Number(JsonNumber::NegInt(i))
    } else {
        JsonView::Number(JsonNumber::PosInt(i as u64))
    }
}

/// The payload value of form field `f`, or the message saying why its text
/// does not fit its kind.
pub open spec fn field_payload<P: Fn(&str) -> DecimalText>(f: EventFormField, parse: P) -> Result<JsonView, Seq<char>> {
    match f.kind {
        EventFormFieldKind::Text | EventFormFieldKind::Enum(_) => Ok(JsonView::String(f.value@)),
        EventFormFieldKind::Integer | EventFormFieldKind::ExternalEntity(_) => match parse_i64_spec(f.value@) {
            Some(i) => Ok(integer_json(i)),
            None => Err(f.input_key@ + " must be integer"@),
        },
        EventFormFieldKind::Decimal => match decimal_reading(parse, f.value@) {
            DecimalText::NotANumber => Err(f.input_key@ + " must be decimal"@),
            DecimalText::NotFinite => Err(f.input_key@ + " must be finite"@),
            DecimalText::Finite(bits) => Ok(JsonView::Number(JsonNumber::Float(bits))),
        },
        EventFormFieldKind::Boolean => match bool_reading(f.value@) {
            Some(b) => Ok(JsonView::Bool(b)),
            None => Err(f.input_key@ + " must be boolean"@),
        },
    }
}

/// The payload the form fields `fields` make, each field's value under its
/// input key (a later field wins), or the message of the first field whose
/// text does not fit its kind.
pub open spec fn form_payload<P: Fn(&str) -> DecimalText>(fields: Seq<EventFormField>, parse: P) -> Result<
    Map<Seq<char>, JsonView>,
    Seq<char>,
>
    decreases fields.len(),
{
    if fields.len() == 0 {
        Ok(Map::empty())
    } else {
        match form_payload(fields.drop_last(), parse) {
            Err(m) => Err(m),
            Ok(map) => match field_payload(fields.last(), parse) {
                Err(m) => Err(m),
                Ok(v) => Ok(map.insert(fields.last().input_key@, v)),
            },
        }
    }
}

/// Reads a boolean form text (see `bool_reading`); `key` names the field in
/// the error.
pub fn parse_bool(raw: &str, key: &str) -> (r: Result<bool, ApiError>)
    ensures
        match bool_reading(raw@) {
            Some(b) => r == Ok::<bool, ApiError>(b),
            None => r matches Err(ApiError::Invalid(m)) && m@ == key@ + " must be boolean"@,
        },
{
    let l = to_ascii_lower(raw);
    if eq_lit(&l, "true") || eq_lit(&l, "1") || eq_lit(&l, "yes") {
        Ok(true)
    } else if eq_lit(&l, "false") || eq_lit(&l, "0") || eq_lit(&l, "no") {
        Ok(false)
    } else {
        let mut m = key.to_string();
        m.append(" must be boolean");
        Err(ApiError::Invalid(m))
    }
}

/// Reads an integer form text as an `i64`; `key` names the field in the error.
pub fn parse_i64_field(raw: &str, key: &str) -> (r: Result<i64, ApiError>)
    ensures
        match parse_i64_spec(raw@) {
            Some(i) => r == Ok::<i64, ApiError>(i),
            None => r matches Err(ApiError::Invalid(m)) && m@ == key@ + " must be integer"@,
        },
{
    match parse_i64(raw) {
        Some(i) => Ok(i),
        None => {
            let mut m = key.to_string();
            m.append(" must be integer");
            Err(ApiError::Invalid(m))
        },
    }
}

/// The payload of one form field (see `field_payload`).
fn field_value<P: Fn(&str) -> DecimalText>(field: &EventFormField, parse_decimal: &P) -> (r: Result<JsonValue, ApiError>)
    requires
        is_decimal_reader(*parse_decimal),
    ensures
        match field_payload(*field, *parse_decimal) {
            Ok(v) => r matches Ok(j) && json_view(j) == v,
            Err(m) => r matches Err(ApiError::Invalid(e)) && e@ == m,
        },
{
    match &field.kind {
        EventFormFieldKind::Text | EventFormFieldKind::Enum(_) => Ok(JsonValue::String(field.value.clone())),
        EventFormFieldKind::Integer | EventFormFieldKind::ExternalEntity(_) => {
            match parse_i64_field(field.value.as_str(), field.input_key.as_str()) {
                Ok(i) => Ok(JsonValue::Number(JsonNumber::from_i64(i))),
                Err(e) => Err(e),
            }
        },
        EventFormFieldKind::Decimal => {
            let text = field.value.as_str();
            let reading = parse_decimal(text);
            proof {
                assert(call_ensures(*parse_decimal, (text,), reading));
                assert(reads_as(*parse_decimal, field.value@, reading));
                assert(decimal_reading(*parse_decimal, field.value@) == reading);
            }
            match reading {
                DecimalText::Finite(bits) => Ok(JsonValue::Number(JsonNumber::Float(bits))),
                DecimalText::NotANumber => {
                    let mut m = field.input_key.clone();
                    m.append(" must be decimal");
                    Err(ApiError::Invalid(m))
                },
                DecimalText::NotFinite => {
                    let mut m = field.input_key.clone();
                    m.append(" must be finite");
                    Err(ApiError::Invalid(m))
                },
            }
        },
        EventFormFieldKind::Boolean => match parse_bool(field.value.as_str(), field.input_key.as_str()) {
            Ok(b) => Ok(JsonValue::Bool(b)),
            Err(e) => Err(e),
        },
    }
}

/// The payload the form fields make (see `form_payload`); decimal texts are
/// read by `parse_decimal`.
pub fn build_payload<P: Fn(&str) -> DecimalText>(fields: &[EventFormField], parse_decimal: &P) -> (r: Result<JsonObject, ApiError>)
    requires
        is_decimal_reader(*parse_decimal),
    ensures
        match form_payload(fields@, *parse_decimal) {
            Ok(map) => r matches Ok(o) && o.view() == map,
            Err(m) => r matches Err(ApiError::Invalid(e)) && e@ == m,
        },
{
    let mut out = JsonObject::new();
    let mut i: usize = 0;
    while i < fields.len()
        invariant
            i <= fields@.len(),
            is_decimal_reader(*parse_decimal),
            form_payload(fields@.take(i as int), *parse_decimal) == Ok::<Map<Seq<char>, JsonView>, Seq<char>>(
                out.view(),
            ),
        decreases fields.len() - i,
    {
        proof {
            assert(fields@.take(i + 1).drop_last() == fields@.take(i as int));
            assert(fields@.take(i + 1).last() == fields@[i as int]);
        }
        match field_value(&fields[i], parse_decimal) {
            Ok(v) => {
                out.insert(fields[i].input_key.clone(), v);
            },
            Err(e) => {
                proof {
                    lemma_form_payload_error_persists(fields@, *parse_decimal, i + 1);
                }
                return Err(e);
            },
        }
        i = i + 1;
    }
    assert(fields@.take(fields@.len() as int) == fields@);
    Ok(out)
}

/// Once a prefix of the fields fails, the whole form fails the same way.
pub proof fn lemma_form_payload_error_persists<P: Fn(&str) -> DecimalText>(fields: Seq<EventFormField>, parse: P, k: int)
    requires
        0 <= k <= fields.len(),
        form_payload(fields.take(k), parse) is Err,
    ensures
        form_payload(fields, parse) == form_payload(fields.take(k), parse),
    decreases fields.len() - k,
{
    if k < fields.len() {
        assert(fields.take(k + 1).drop_last() == fields.take(k));
        lemma_form_payload_error_persists(fields, parse, k + 1);
    } else {
        assert(fields.take(k) == fields);
    }
}

} // verus!

verus! {

/// The text of an optional cursor.
pub open spec fn cursor_text(c: Option<&str>) -> Option<Seq<char>> {
    match c {
        Some(t) => Some(t@),
        None => None,
    }
}

/// The text of an optional owned cursor.
pub open spec fn owned_cursor_text(c: Option<String>) -> Option<Seq<char>> {
    match c {
        Some(t) => Some(t@),
        None => None,
    }
}

/// What the client asks of the HAM server, as the client's implementor
/// provides it. The library does not say which answer the server gives;
/// each `*_answer` relation is the implementor's statement of the answers a
/// request may get, and each method's result is such an answer to the request
/// made with the arguments it was handed. A client that gives no relation of
/// its own allows any answer.
pub trait ApiClient {
    /// Whether `r` may answer the request for the categories.
    closed spec fn categories_answer(&self, r: Result<Vec<Category>, ApiError>) -> bool {
        true
    }

    /// Whether `r` may answer the request for the assets.
    closed spec fn assets_answer(&self, r: Result<Vec<Asset>, ApiError>) -> bool {
        true
    }

    /// Whether `r` may answer the request for the page of the timeline of
    /// `asset_tag` at `cursor` (the first page without one).
    closed spec fn timeline_page_answer(
        &self,
        asset_tag: Seq<char>,
        cursor: Option<Seq<char>>,
        r: Result<TimelinePage, ApiError>,
    ) -> bool {
        true
    }

    /// Whether `r` may answer the request for the schema of event type
    /// `event_type_id`.
    closed spec fn schema_answer(&self, event_type_id: Seq<char>, r: Result<EventTypeSchema, ApiError>) -> bool {
        true
    }

    /// Whether `r` may answer the request to apply an event of type
    /// `event_type_id` with payload `payload` to asset `asset_tag` under
    /// idempotency key `idempotency_key`.
    closed spec fn apply_answer(
        &self,
        asset_tag: Seq<char>,
        event_type_id: Seq<char>,
        payload: Map<Seq<char>, JsonView>,
        idempotency_key: Seq<char>,
        r: Result<AppliedEvent, ApiError>,
    ) -> bool {
        true
    }

    fn fetch_categories(&self) -> (r: Result<Vec<Category>, ApiError>)
        ensures
            self.categories_answer(r),
    ;

    fn fetch_assets(&self) -> (r: Result<Vec<Asset>, ApiError>)
        ensures
            self.assets_answer(r),
    ;

    fn fetch_timeline_page(&self, asset_tag: &str, cursor: Option<&str>) -> (r: Result<TimelinePage, ApiError>)
        ensures
            self.timeline_page_answer(asset_tag@, cursor_text(cursor), r),
    ;

    fn fetch_event_type_schema(&self, event_type_id: &str) -> (r: Result<EventTypeSchema, ApiError>)
        ensures
            self.schema_answer(event_type_id@, r),
    ;

    fn apply_event(
        &self,
        asset_tag: &str,
        event_type_id: &str,
        payload: JsonObject,
        idempotency_key: &str,
    ) -> (r: Result<AppliedEvent, ApiError>)
        ensures
            self.apply_answer(asset_tag@, event_type_id@, payload.view(), idempotency_key@, r),
    ;
}

/// The form kind of an input kind.
pub open spec fn form_kind_of(kind: EventInputSpecKind) -> EventFormFieldKind {
    match kind {
        EventInputSpecKind::Text => EventFormFieldKind::Text,
        EventInputSpecKind::Integer => EventFormFieldKind::Integer,
        EventInputSpecKind::Decimal => EventFormFieldKind::Decimal,
        EventInputSpecKind::Boolean => EventFormFieldKind::Boolean,
        EventInputSpecKind::Enum(v) => EventFormFieldKind::Enum(v),
        EventInputSpecKind::ExternalEntity(v) => EventFormFieldKind::ExternalEntity(v),
    }
}

/// The form kind of an input kind, with the same choices.
pub fn map_form_kind(kind: EventInputSpecKind) -> (k: EventFormFieldKind)
    ensures
        k == form_kind_of(kind),
{
    match kind {
        EventInputSpecKind::Text => EventFormFieldKind::Text,
        EventInputSpecKind::Integer => EventFormFieldKind::Integer,
        EventInputSpecKind::Decimal => EventFormFieldKind::Decimal,
        EventInputSpecKind::Boolean => EventFormFieldKind::Boolean,
        EventInputSpecKind::Enum(v) => EventFormFieldKind::Enum(v),
        EventInputSpecKind::ExternalEntity(v) => EventFormFieldKind::ExternalEntity(v),
    }
}

/// Whether `form` is the blank form for `schema`: one empty field per input,
/// in order, with the input's key, label and kind.
pub open spec fn blank_form_of(form: EventFormState, schema: EventTypeSchema) -> bool {
    &&& form.event_type_id == schema.event_type_id
    &&& form.fields@.len() == schema.inputs@.len()
    &&& forall|i: int|
        0 <= i < form.fields@.len() ==> {
            let f = #[trigger] form.fields@[i];
            let input = schema.inputs@[i];
            &&& f.input_key == input.input_key
            &&& f.label == input.label
            &&& f.kind == form_kind_of(input.kind)
            &&& f.value@.len() == 0
        }
}

/// The blank form for `schema`.
pub fn form_from_schema(schema: EventTypeSchema) -> (form: EventFormState)
    ensures
        blank_form_of(form, schema),
{
    let ghost original = schema;
    let EventTypeSchema { event_type_id, inputs } = schema;
    let mut inputs = inputs;
    let mut fields: Vec<EventFormField> = Vec::new();
    let n = inputs.len();
    let mut i: usize = 0;
    let mut rev: Vec<EventInputSpec> = Vec::new();
    while inputs.len() > 0
        invariant
            inputs@.len() + rev@.len() == n,
            n == original.inputs@.len(),
            inputs@ == original.inputs@.take(inputs@.len() as int),
            forall|k: int| 0 <= k < rev@.len() ==> #[trigger] rev@[k] == original.inputs@[n - 1 - k],
        decreases inputs.len(),
    {
        let x = inputs.pop().unwrap();
        proof {
            assert(original.inputs@.take(inputs@.len() as int) == original.inputs@.take(inputs@.len() + 1 as int).drop_last());
        }
        rev.push(x);
    }
    while rev.len() > 0
        invariant
            rev@.len() + fields@.len() == n,
            n == original.inputs@.len(),
            forall|k: int| 0 <= k < rev@.len() ==> #[trigger] rev@[k] == original.inputs@[n - 1 - k],
            forall|k: int|
                0 <= k < fields@.len() ==> {
                    let f = #[trigger] fields@[k];
                    let input = original.inputs@[k];
                    &&& f.input_key == input.input_key
                    &&& f.label == input.label
                    &&& f.kind == form_kind_of(input.kind)
                    &&& f.value@.len() == 0
                },
        decreases rev.len(),
    {
        let input = rev.pop().unwrap();
        let EventInputSpec { input_key, label, kind } = input;
        fields.push(EventFormField { input_key, label, kind: map_form_kind(kind), value: String::new() });
    }
    EventFormState { event_type_id, fields }
}

/// The category ids of `assets`, in order.
pub open spec fn asset_category_ids(assets: Seq<Asset>) -> Seq<i64> {
    assets.map_values(|a: Asset| a.category_id)
}

/// The ids of `cats`, in order.
pub open spec fn category_id_seq(cats: Seq<Category>) -> Seq<i64> {
    cats.map_values(|c: Category| c.id)
}

/// Whether `cats` are the categories the assets' category ids make when the
/// server knows none: one per distinct id, by increasing id, named
/// `Category <id>`, without parent.
pub open spec fn derived_categories(cats: Seq<Category>, assets: Seq<Asset>) -> bool {
    &&& forall|i: int, j: int| 0 <= i < j < cats.len() ==> (#[trigger] cats[i]).id < (#[trigger] cats[j]).id
    &&& forall|i: int|
        0 <= i < cats.len() ==> (#[trigger] cats[i]).name@ == "Category "@ + int_text(cats[i].id as int)
            && cats[i].parent_category_id is None && asset_category_ids(assets).contains(cats[i].id)
    &&& forall|k: int| 0 <= k < assets.len() ==> category_id_seq(cats).contains(#[trigger] assets[k].category_id)
}

/// Whether `v` increases strictly.
pub open spec fn strictly_increasing(v: Seq<i64>) -> bool {
    forall|i: int, j: int| 0 <= i < j < v.len() ==> v[i] < v[j]
}

/// Adds `x` to the increasing ids `ids`, unless present.
#[verifier::spinoff_prover]
#[verifier::rlimit(30)]
fn insert_sorted(ids: &mut Vec<i64>, x: i64)
    requires
        strictly_increasing(old(ids)@),
    ensures
        strictly_increasing(final(ids)@),
        forall|v: i64| final(ids)@.contains(v) <==> (old(ids)@.contains(v) || v == x),
{
    let mut p: usize = 0;
    while p < ids.len() && ids[p] < x
        invariant
            p <= ids@.len(),
            ids@ == old(ids)@,
            forall|k: int| 0 <= k < p ==> ids@[k] < x,
        decreases ids.len() - p,
    {
        p = p + 1;
    }
    if p < ids.len() && ids[p] == x {
        return;
    }
    let ghost before = ids@;
    ids.insert(p, x);
    proof {
        assert(ids@ == before.subrange(0, p as int).push(x) + before.subrange(p as int, before.len() as int));
        assert(before == old(ids)@);
        assert forall|v: i64| ids@.contains(v) <==> (old(ids)@.contains(v) || v == x) by {
            if ids@.contains(v) {
                let k = choose|k: int| 0 <= k < ids@.len() && ids@[k] == v;
                if k < p {
                    assert(before[k] == v);
                } else if k > p {
                    assert(before[k - 1] == v);
                }
            }
            if before.contains(v) {
                let k = choose|k: int| 0 <= k < before.len() && before[k] == v;
                if k < p {
                    assert(ids@[k] == v);
                } else {
                    assert(ids@[k + 1] == v);
                }
            }
            if v == x {
                assert(ids@[p as int] == x);
            }
        }
    }
}

/// The categories the assets' category ids make when the server knows none
/// (see `derived_categories`).
pub fn derive_categories_from_assets(assets: &[Asset]) -> (cats: Vec<Category>)
    ensures
        derived_categories(cats@, assets@),
{
    let mut ids: Vec<i64> = Vec::new();
    let mut i: usize = 0;
    while i < assets.len()
        invariant
            i <= assets@.len(),
            strictly_increasing(ids@),
            forall|v: i64| ids@.contains(v) <==> asset_category_ids(assets@.take(i as int)).contains(v),
        decreases assets.len() - i,
    {
        insert_sorted(&mut ids, assets[i].category_id);
        proof {
            let before = asset_category_ids(assets@.take(i as int));
            let after = asset_category_ids(assets@.take(i + 1));
            assert(after == before.push(assets@[i as int].category_id));
            assert forall|v: i64| after.contains(v) <==> (before.contains(v) || v == assets@[i as int].category_id) by {
                if after.contains(v) {
                    let k = choose|k: int| 0 <= k < after.len() && after[k] == v;
                    if k < before.len() {
                        assert(before[k] == v);
                    }
                }
                if before.contains(v) {
                    let k = choose|k: int| 0 <= k < before.len() && before[k] == v;
                    assert(after[k] == v);
                }
                if v == assets@[i as int].category_id {
                    assert(after[before.len() as int] == v);
                }
            }
        }
        i = i + 1;
    }
    assert(assets@.take(assets@.len() as int) == assets@);
    let mut cats: Vec<Category> = Vec::new();
    let mut j: usize = 0;
    while j < ids.len()
        invariant
            j <= ids@.len(),
            cats@.len() == j,
            strictly_increasing(ids@),
            forall|v: i64| ids@.contains(v) <==> asset_category_ids(assets@).contains(v),
            forall|k: int|
                0 <= k < j ==> (#[trigger] cats@[k]).id == ids@[k] && cats@[k].name@ == "Category "@ + int_text(
                    ids@[k] as int,
                ) && cats@[k].parent_category_id is None,
        decreases ids.len() - j,
    {
        let id = ids[j];
        let mut name = String::from_str("Category ");
        let digits = i64_text(id);
        name.append(digits.as_str());
        cats.push(Category { id, name, parent_category_id: None });
        j = j + 1;
    }
    proof {
        assert(category_id_seq(cats@) == ids@);
        assert forall|k: int| 0 <= k < cats@.len() implies asset_category_ids(assets@).contains(
            (#[trigger] cats@[k]).id,
        ) by {
            assert(ids@.contains(ids@[k]));
        }
        assert forall|k: int| 0 <= k < assets@.len() implies category_id_seq(cats@).contains(
            #[trigger] assets@[k].category_id,
        ) by {
            assert(asset_category_ids(assets@)[k] == assets@[k].category_id);
            assert(asset_category_ids(assets@).contains(assets@[k].category_id));
        }
    }
    cats
}

} // verus!

verus! {

/// Whether `b` differs from `a` at most in the open asset and its timeline.
pub open spec fn same_but_detail(a: GuiState, b: GuiState) -> bool {
    &&& a.categories == b.categories
    &&& a.assets == b.assets
    &&& a.event_form == b.event_form
    &&& a.last_error == b.last_error
    &&& a.event_type_draft == b.event_type_draft
    &&& a.idempotency_key_draft == b.idempotency_key_draft
}

/// The events of the pages, page after page.
pub open spec fn pages_items(pages: Seq<TimelinePage>) -> Seq<AssetEvent>
    decreases pages.len(),
{
    if pages.len() == 0 {
        Seq::empty()
    } else {
        pages_items(pages.drop_last()) + pages.last().items@
    }
}

/// Whether `pages` walk a whole timeline: every page but the last hands out
/// the cursor of a next page, and the last hands out none.
pub open spec fn whole_walk(pages: Seq<TimelinePage>) -> bool {
    &&& pages.len() > 0
    &&& forall|i: int| 0 <= i < pages.len() - 1 ==> (#[trigger] pages[i]).next_cursor is Some
    &&& pages.last().next_cursor is None
}

/// The cursor a walk through a timeline asks with for its page `i`: none for
/// the first page, then the cursor the page before handed out.
pub open spec fn cursor_before(pages: Seq<TimelinePage>, i: int) -> Option<Seq<char>> {
    if i <= 0 {
        None
    } else {
        match pages[i - 1].next_cursor {
            Some(c) => Some(c@),
            None => None,
        }
    }
}

/// Whether each of `pages` answers, for `api`, the request for the timeline
/// of `asset_tag` at the cursor the walk asks with for it.
pub open spec fn answered_pages<A: ApiClient>(api: A, asset_tag: Seq<char>, pages: Seq<TimelinePage>) -> bool {
    forall|i: int|
        0 <= i < pages.len() ==> api.timeline_page_answer(asset_tag, cursor_before(pages, i), Ok(#[trigger] pages[i]))
}

/// Whether every one of `pages` hands out the cursor of a next page.
pub open spec fn all_continue(pages: Seq<TimelinePage>) -> bool {
    forall|i: int| 0 <= i < pages.len() ==> (#[trigger] pages[i]).next_cursor is Some
}

/// Whether `events` are the timeline of `asset_tag` as `api` answered it: the
/// events of the pages answered in turn, from the first page, each asked for
/// with the cursor the page before handed out, up to a page that hands out
/// none.
pub open spec fn fetched_timeline<A: ApiClient>(api: A, asset_tag: Seq<char>, events: Seq<AssetEvent>) -> bool {
    exists|pages: Seq<TimelinePage>|
        #![trigger pages_items(pages), answered_pages(api, asset_tag, pages)]
        whole_walk(pages) && answered_pages(api, asset_tag, pages) && pages_items(pages) == events
}

/// Whether `e` is how fetching the timeline of `asset_tag` from `api` can
/// fail: the error a page request was answered with, after the pages before
/// it were answered in turn, or the walk's refusal of a timeline once it has
/// been answered `u64::MAX + 1` pages that each hand out a next cursor.
pub open spec fn timeline_fetch_error<A: ApiClient>(api: A, asset_tag: Seq<char>, e: ApiError) -> bool {
    ||| exists|pages: Seq<TimelinePage>|
        #![trigger answered_pages(api, asset_tag, pages)]
        answered_pages(api, asset_tag, pages) && all_continue(pages) && api.timeline_page_answer(
            asset_tag,
            cursor_before(pages, pages.len() as int),
            Err(e),
        )
    ||| e matches ApiError::Invalid(m) && m@ == "timeline has too many pages"@ && exists|pages: Seq<TimelinePage>|
        #![trigger answered_pages(api, asset_tag, pages)]
        answered_pages(api, asset_tag, pages) && all_continue(pages) && pages.len() == u64::MAX + 1
}

/// Whether `b` differs from `a` at most in the error it shows.
pub open spec fn same_but_error(a: GuiState, b: GuiState) -> bool {
    &&& a.categories == b.categories
    &&& a.assets == b.assets
    &&& a.selected_asset_tag == b.selected_asset_tag
    &&& a.timeline == b.timeline
    &&& a.event_form == b.event_form
    &&& a.event_type_draft == b.event_type_draft
    &&& a.idempotency_key_draft == b.idempotency_key_draft
}

/// Whether `s` shows the error text `m`.
pub open spec fn shows_error(s: GuiState, m: Seq<char>) -> bool {
    s.last_error matches Some(e) && e@ == m
}

/// Whether `b` differs from `a` at most in its catalog.
pub open spec fn same_but_catalog(a: GuiState, b: GuiState) -> bool {
    &&& a.selected_asset_tag == b.selected_asset_tag
    &&& a.timeline == b.timeline
    &&& a.event_form == b.event_form
    &&& a.last_error == b.last_error
    &&& a.event_type_draft == b.event_type_draft
    &&& a.idempotency_key_draft == b.idempotency_key_draft
}

/// Whether `b` differs from `a` at most in its event form.
pub open spec fn same_but_form(a: GuiState, b: GuiState) -> bool {
    &&& a.categories == b.categories
    &&& a.assets == b.assets
    &&& a.selected_asset_tag == b.selected_asset_tag
    &&& a.timeline == b.timeline
    &&& a.last_error == b.last_error
    &&& a.event_type_draft == b.event_type_draft
    &&& a.idempotency_key_draft == b.idempotency_key_draft
}

/// Whether `b` is `a` with the catalog the server answered: its categories,
/// or, when it knows none, those the assets make; and its assets.
pub open spec fn catalog_from(a: GuiState, b: GuiState, categories: Seq<Category>, assets: Seq<Asset>) -> bool {
    &&& same_but_catalog(a, b)
    &&& b.assets@ == assets
    &&& if categories.len() == 0 {
        derived_categories(b.categories@, assets)
    } else {
        b.categories@ == categories
    }
}

/// Puts the catalog the server answered into `state` (see `catalog_from`).
pub fn apply_catalog(state: &mut GuiState, categories: Vec<Category>, assets: Vec<Asset>)
    ensures
        catalog_from(*old(state), *final(state), categories@, assets@),
{
    if categories.len() == 0 {
        state.categories = derive_categories_from_assets(assets.as_slice());
    } else {
        state.categories = categories;
    }
    state.assets = assets;
}

/// Whether `f` is `old` with the first field keyed `input_key` set to `value`;
/// `None` when there is no form or no such field.
pub open spec fn form_with_value(old: EventFormState, input_key: Seq<char>, value: Seq<char>, new: EventFormState, i: int) -> bool {
    &&& 0 <= i < old.fields@.len()
    &&& old.fields@[i].input_key@ == input_key
    &&& forall|j: int| 0 <= j < i ==> (#[trigger] old.fields@[j]).input_key@ != input_key
    &&& new.event_type_id == old.event_type_id
    &&& new.fields@.len() == old.fields@.len()
    &&& forall|j: int| 0 <= j < old.fields@.len() && j != i ==> #[trigger] new.fields@[j] == old.fields@[j]
    &&& new.fields@[i].input_key == old.fields@[i].input_key
    &&& new.fields@[i].label == old.fields@[i].label
    &&& new.fields@[i].kind == old.fields@[i].kind
    &&& new.fields@[i].value@ == value
}

/// Whether `r` is an `Invalid` error with message `m`.
pub open spec fn is_invalid_with(r: Result<(), ApiError>, m: Seq<char>) -> bool {
    match r {
        Err(ApiError::Invalid(x)) => x@ == m,
        _ => false,
    }
}

/// Whether the open asset of `s` is `tag`.
pub open spec fn selected_is(s: GuiState, tag: Seq<char>) -> bool {
    match s.selected_asset_tag {
        Some(t) => t@ == tag,
        None => false,
    }
}

/// Whether `s` holds the blank form for schema `sch`.
pub open spec fn form_blank_for(s: GuiState, sch: EventTypeSchema) -> bool {
    match s.event_form {
        Some(f) => blank_form_of(f, sch),
        None => false,
    }
}

/// Whether `s` holds a blank form for some schema.
pub open spec fn has_blank_form(s: GuiState) -> bool {
    match s.event_form {
        Some(f) => exists|sch: EventTypeSchema| blank_form_of(f, sch),
        None => false,
    }
}

/// Whether the form of `s` is `old_form` with field `input_key` set to `value`.
pub open spec fn form_updated(old_form: EventFormState, input_key: Seq<char>, value: Seq<char>, s: GuiState) -> bool {
    match s.event_form {
        Some(g) => exists|i: int| form_with_value(old_form, input_key, value, g, i),
        None => false,
    }
}

/// Whether some field of `form` is keyed `input_key`.
pub open spec fn has_field(form: EventFormState, input_key: Seq<char>) -> bool {
    exists|i: int| 0 <= i < form.fields@.len() && (#[trigger] form.fields@[i]).input_key@ == input_key
}

/// What stops an event from being submitted from `s`, before the server is
/// asked: no open asset, no form, or a field whose text does not fit.
pub open spec fn apply_precheck<P: Fn(&str) -> DecimalText>(s: GuiState, parse: P) -> Result<(), Seq<char>> {
    if s.selected_asset_tag is None {
        Err("no selected asset"@)
    } else {
        match s.event_form {
            None => Err("event form is not initialized"@),
            Some(f) => match form_payload(f.fields@, parse) {
                Err(m) => Err(m),
                Ok(_) => Ok(()),
            },
        }
    }
}

/// What loading the catalog from `api` may lead to: on success the catalog
/// the requests for the categories and the assets were answered with; on
/// failure nothing changes and the error is the one the failing request was
/// answered with.
pub open spec fn catalog_outcome<A: ApiClient>(api: A, old: GuiState, new: GuiState, r: Result<(), ApiError>) -> bool {
    match r {
        Ok(_) => exists|c: Vec<Category>, a: Vec<Asset>|
            #![trigger api.categories_answer(Ok(c)), api.assets_answer(Ok(a))]
            api.categories_answer(Ok(c)) && api.assets_answer(Ok(a)) && catalog_from(old, new, c@, a@),
        Err(e) => new == old && (api.categories_answer(Err(e)) || exists|c: Vec<Category>|
            #![trigger api.categories_answer(Ok(c))]
            api.categories_answer(Ok(c)) && api.assets_answer(Err(e))),
    }
}

/// What opening asset `tag` may lead to: on success the asset is open with
/// the timeline fetched for it, and nothing else changes; on failure nothing
/// changes and the error is the one the timeline fetch ended with.
pub open spec fn detail_outcome<A: ApiClient>(api: A, old: GuiState, tag: Seq<char>, new: GuiState, r: Result<(), ApiError>) -> bool {
    match r {
        Ok(_) => same_but_detail(old, new) && selected_is(new, tag) && fetched_timeline(api, tag, new.timeline@),
        Err(e) => new == old && timeline_fetch_error(api, tag, e),
    }
}

/// What opening a form for event type `id` may lead to: on success the form
/// is the blank form of the schema the request was answered with, and
/// nothing else changes; on failure nothing changes and the error is the one
/// the request was answered with.
pub open spec fn form_outcome<A: ApiClient>(api: A, old: GuiState, id: Seq<char>, new: GuiState, r: Result<(), ApiError>) -> bool {
    match r {
        Ok(_) => same_but_form(old, new) && exists|sch: EventTypeSchema|
            #![trigger api.schema_answer(id, Ok(sch))]
            api.schema_answer(id, Ok(sch)) && form_blank_for(new, sch),
        Err(e) => new == old && api.schema_answer(id, Err(e)),
    }
}

/// What applying the event of `old`'s form under idempotency key `key` may
/// lead to, with the answers `api` may give: refused with the precheck's
/// message, changing nothing, when the precheck fails (see
/// `apply_precheck`); otherwise the request to apply the event of the form's
/// type with the form's payload to the open asset under `key` is made, and
/// then its timeline is fetched anew. On success that request was answered
/// with an applied event and the timeline is the one fetched; on failure
/// nothing changes, and the error is the one the apply request or the
/// timeline fetch ended with.
pub open spec fn applied_outcome<A: ApiClient, P: Fn(&str) -> DecimalText>(
    api: A,
    old: GuiState,
    key: Seq<char>,
    parse: P,
    new: GuiState,
    r: Result<(), ApiError>,
) -> bool {
    match apply_precheck(old, parse) {
        Err(m) => is_invalid_with(r, m) && new == old,
        Ok(_) => {
            let tag = old.selected_asset_tag->Some_0@;
            let form = old.event_form->Some_0;
            let payload = form_payload(form.fields@, parse)->Ok_0;
            let applied = exists|a: AppliedEvent|
                #[trigger] api.apply_answer(tag, form.event_type_id@, payload, key, Ok(a));
            match r {
                Ok(_) => applied && same_but_detail(old, new) && new.selected_asset_tag == old.selected_asset_tag
                    && fetched_timeline(api, tag, new.timeline@),
                Err(e) => new == old && (api.apply_answer(tag, form.event_type_id@, payload, key, Err(e)) || (applied
                    && timeline_fetch_error(api, tag, e))),
            }
        },
    }
}

/// What `Apply` shows after the outcome `r` left the state `mid`: that
/// state on success; on failure the state before, showing the error's text.
pub open spec fn shown_outcome(old: GuiState, mid: GuiState, r: Result<(), ApiError>, new: GuiState) -> bool {
    match r {
        Ok(_) => new == mid,
        Err(e) => same_but_error(old, new) && shows_error(new, api_error_text(e)),
    }
}

/// The events of `pages`, page after page.
pub fn timeline_from_pages(pages: Vec<TimelinePage>) -> (v: Vec<AssetEvent>)
    ensures
        v@ == pages_items(pages@),
{
    let ghost all = pages@;
    assert(all.len() <= usize::MAX) by {
        assert(pages.len() == all.len());
    }
    let mut rest = pages;
    let mut out: Vec<AssetEvent> = Vec::new();
    let mut i: usize = 0;
    assert(all.take(0) =~= Seq::<TimelinePage>::empty());
    assert(rest@ =~= all.skip(0));
    while rest.len() > 0
        invariant
            i <= all.len(),
            all.len() <= usize::MAX,
            rest@ == all.skip(i as int),
            out@ == pages_items(all.take(i as int)),
        decreases rest.len(),
    {
        let ghost rest_before = rest@;
        assert(rest_before.len() == all.len() - i);
        let page = rest.remove(0);
        proof {
            assert(page == all[i as int]);
            assert(rest@ =~= all.skip(i + 1));
            assert(all.take(i + 1).drop_last() =~= all.take(i as int));
            assert(all.take(i + 1).last() == all[i as int]);
        }
        let TimelinePage { items, next_cursor: _ } = page;
        let mut items = items;
        out.append(&mut items);
        i = i + 1;
    }
    assert(all.take(i as int) =~= all);
    out
}

/// Drives the client: loads what the server has into the state, and submits
/// events built from the form.
pub struct GuiController<A: ApiClient> {
    api: A,
    state: GuiState,
}

impl<A: ApiClient> GuiController<A> {
    /// The state shown.
    pub closed spec fn state_spec(&self) -> GuiState {
        self.state
    }

    /// The server connection.
    pub closed spec fn api_spec(&self) -> A {
        self.api
    }

    /// A controller over `api` starting from `state`.
    pub fn new(api: A, state: GuiState) -> (c: GuiController<A>)
        ensures
            c.state_spec() == state,
            c.api_spec() == api,
    {
        GuiController { api, state }
    }

    /// The state shown.
    pub fn state(&self) -> (s: &GuiState)
        ensures
            *s == self.state_spec(),
    {
        &self.state
    }

    /// The state shown, to change.
    pub fn state_mut(&mut self) -> (s: &mut GuiState)
        ensures
            *s == old(self).state_spec(),
            final(self).state_spec() == *final(s),
            final(self).api_spec() == old(self).api_spec(),
    {
        &mut self.state
    }

    /// Loads the categories and assets; when the server knows no category,
    /// the assets' categories stand in. On success the catalog is the one
    /// the two requests were answered with; on failure nothing changes and
    /// the error is the one the failing request was answered with.
    pub fn load_catalog(&mut self) -> (r: Result<(), ApiError>)
        ensures
            final(self).api_spec() == old(self).api_spec(),
            catalog_outcome(old(self).api_spec(), old(self).state_spec(), final(self).state_spec(), r),
    {
        let categories = match self.api.fetch_categories() {
            Ok(c) => c,
            Err(e) => {
                return Err(e);
            },
        };
        let ghost cv = categories;
        let assets = match self.api.fetch_assets() {
            Ok(a) => a,
            Err(e) => {
                assert(self.api.categories_answer(Ok(cv)));
                return Err(e);
            },
        };
        let ghost av = assets;
        let ghost c = categories@;
        let ghost a = assets@;
        apply_catalog(&mut self.state, categories, assets);
        assert(catalog_from(old(self).state_spec(), self.state_spec(), cv@, av@));
        assert(self.api.categories_answer(Ok(cv)) && self.api.assets_answer(Ok(av)));
        Ok(())
    }

    /// Every event of `asset_tag`'s timeline, following the pages' cursors
    /// from the first page on: the events of the pages as the requests were
    /// answered in turn (see `fetched_timeline`), or the error a request was
    /// answered with.
    fn fetch_full_timeline(&self, asset_tag: &str) -> (r: Result<Vec<AssetEvent>, ApiError>)
        ensures
            match r {
                Ok(v) => fetched_timeline(self.api_spec(), asset_tag@, v@),
                Err(e) => timeline_fetch_error(self.api_spec(), asset_tag@, e),
            },
    {
        let mut fetched: Vec<TimelinePage> = Vec::new();
        let mut cursor: Option<String> = None;
        let mut count: u64 = 0;
        loop
            invariant
                answered_pages(self.api, asset_tag@, fetched@),
                all_continue(fetched@),
                owned_cursor_text(cursor) == cursor_before(fetched@, fetched@.len() as int),
                fetched@.len() == count,
            decreases u64::MAX - count,
        {
            let requested: Option<&str> = match &cursor {
                Some(c) => Some(c.as_str()),
                None => None,
            };
            let page = match self.api.fetch_timeline_page(asset_tag, requested) {
                Ok(p) => p,
                Err(e) => {
                    return Err(e);
                },
            };
            let next = page.next_cursor.clone();
            let ghost before = fetched@;
            fetched.push(page);
            proof {
                assert(fetched@.drop_last() == before);
                assert forall|i: int| 0 <= i < fetched@.len() implies self.api.timeline_page_answer(
                    asset_tag@,
                    cursor_before(fetched@, i),
                    Ok(#[trigger] fetched@[i]),
                ) by {
                    if i < before.len() {
                        assert(fetched@[i] == before[i]);
                        assert(cursor_before(fetched@, i) == cursor_before(before, i));
                    }
                }
            }
            match next {
                Some(n) => {
                    cursor = Some(n);
                    proof {
                        assert forall|i: int| 0 <= i < fetched@.len() implies (#[trigger] fetched@[i]).next_cursor is Some by {
                            if i < before.len() {
                                assert(fetched@[i] == before[i]);
                            }
                        }
                    }
                },
                None => {
                    let ghost walk = fetched@;
                    let events = timeline_from_pages(fetched);
                    proof {
                        assert(whole_walk(walk));
                        assert(answered_pages(self.api, asset_tag@, walk));
                        assert(pages_items(walk) == events@);
                        assert(fetched_timeline(self.api, asset_tag@, events@));
                    }
                    return Ok(events);
                },
            }
            if count == u64::MAX {
                let e = ApiError::invalid("timeline has too many pages");
                proof {
                    assert(answered_pages(self.api, asset_tag@, fetched@));
                    assert(fetched@.len() == u64::MAX + 1);
                }
                return Err(e);
            }
            count = count + 1;
        }
    }

    /// Opens asset `asset_tag` with its whole timeline, fetched from the
    /// first page on (see `fetched_timeline`). On failure nothing changes
    /// and the error is the one the timeline fetch ended with.
    pub fn open_asset_detail(&mut self, asset_tag: &str) -> (r: Result<(), ApiError>)
        ensures
            final(self).api_spec() == old(self).api_spec(),
            detail_outcome(old(self).api_spec(), old(self).state_spec(), asset_tag@, final(self).state_spec(), r),
    {
        let timeline = match self.fetch_full_timeline(asset_tag) {
            Ok(t) => t,
            Err(e) => {
                return Err(e);
            },
        };
        self.state.selected_asset_tag = Some(asset_tag.to_string());
        self.state.timeline = timeline;
        Ok(())
    }

    /// Opens a blank form for event type `event_type_id`, built from the
    /// schema the request for that type was answered with. On failure
    /// nothing changes and the error is the one the request was answered
    /// with.
    pub fn start_event_from_type(&mut self, event_type_id: &str) -> (r: Result<(), ApiError>)
        ensures
            final(self).api_spec() == old(self).api_spec(),
            form_outcome(old(self).api_spec(), old(self).state_spec(), event_type_id@, final(self).state_spec(), r),
    {
        let schema = match self.api.fetch_event_type_schema(event_type_id) {
            Ok(s) => s,
            Err(e) => {
                return Err(e);
            },
        };
        let ghost s = schema;
        let form = form_from_schema(schema);
        self.state.event_form = Some(form);
        assert(blank_form_of(self.state.event_form->Some_0, s));
        assert(self.api.schema_answer(event_type_id@, Ok(s)));
        Ok(())
    }

    /// Sets the text of the first form field keyed `input_key` to `value`.
    pub fn set_form_value(&mut self, input_key: &str, value: &str) -> (r: Result<(), ApiError>)
        ensures
            final(self).api_spec() == old(self).api_spec(),
            match old(self).state_spec().event_form {
                None => is_invalid_with(r, "event form is not initialized"@) && final(self).state_spec() == old(
                    self,
                ).state_spec(),
                Some(form) => if has_field(form, input_key@) {
                    r is Ok && same_but_form(old(self).state_spec(), final(self).state_spec()) && form_updated(
                        form,
                        input_key@,
                        value@,
                        final(self).state_spec(),
                    )
                } else {
                    is_invalid_with(r, "event form input key not found"@) && final(self).state_spec() == old(
                        self,
                    ).state_spec()
                },
            },
    {
        let mut taken = self.state.event_form.take();
        let mut form = match taken {
            None => {
                return Err(ApiError::invalid("event form is not initialized"));
            },
            Some(f) => f,
        };
        let ghost old_form = form;
        let mut i: usize = 0;
        while i < form.fields.len()
            invariant
                i <= form.fields@.len(),
                form == old_form,
                forall|j: int| 0 <= j < i ==> (#[trigger] form.fields@[j]).input_key@ != input_key@,
            ensures
                i <= form.fields@.len(),
                form == old_form,
                forall|j: int| 0 <= j < i ==> (#[trigger] form.fields@[j]).input_key@ != input_key@,
                i < form.fields@.len() ==> form.fields@[i as int].input_key@ == input_key@,
            decreases form.fields.len() - i,
        {
            if crate::json::str_eq(form.fields[i].input_key.as_str(), input_key) {
                break;
            }
            i = i + 1;
        }
        if i == form.fields.len() {
            self.state.event_form = Some(form);
            return Err(ApiError::invalid("event form input key not found"));
        }
        form.fields[i].value = value.to_string();
        proof {
            assert(form_with_value(old_form, input_key@, value@, form, i as int));
            assert(old_form.fields@[i as int].input_key@ == input_key@);
            assert(has_field(old_form, input_key@));
        }
        self.state.event_form = Some(form);
        assert(form_with_value(old_form, input_key@, value@, self.state.event_form->Some_0, i as int));
        Ok(())
    }

    /// Submits the form as an event on the open asset, then reloads its
    /// timeline (see `applied_outcome`). Fails, changing nothing, when no
    /// asset is open, no form is open, a field's text does not fit its kind,
    /// or a request is refused; decimal texts are read by `parse_decimal`.
    pub fn apply_event<P: Fn(&str) -> DecimalText>(&mut self, idempotency_key: &str, parse_decimal: P) -> (r: Result<
        (),
        ApiError,
    >)
        requires
            is_decimal_reader(parse_decimal),
        ensures
            final(self).api_spec() == old(self).api_spec(),
            applied_outcome(
                old(self).api_spec(),
                old(self).state_spec(),
                idempotency_key@,
                parse_decimal,
                final(self).state_spec(),
                r,
            ),
    {
        let asset_tag = match &self.state.selected_asset_tag {
            Some(t) => t.clone(),
            None => {
                return Err(ApiError::invalid("no selected asset"));
            },
        };
        let payload = match &self.state.event_form {
            None => {
                return Err(ApiError::invalid("event form is not initialized"));
            },
            Some(form) => match build_payload(form.fields.as_slice(), &parse_decimal) {
                Ok(p) => p,
                Err(e) => {
                    return Err(e);
                },
            },
        };
        let event_type_id = match &self.state.event_form {
            Some(form) => form.event_type_id.clone(),
            None => {
                return Err(ApiError::invalid("event form is not initialized"));
            },
        };
        let ghost sent = payload.view();
        let applied = self.api.apply_event(asset_tag.as_str(), event_type_id.as_str(), payload, idempotency_key);
        let ghost answer = applied;
        match applied {
            Ok(_) => {},
            Err(e) => {
                return Err(e);
            },
        }
        let timeline = match self.fetch_full_timeline(asset_tag.as_str()) {
            Ok(t) => t,
            Err(e) => {
                assert(self.api.apply_answer(asset_tag@, event_type_id@, sent, idempotency_key@, answer));
                return Err(e);
            },
        };
        self.state.timeline = timeline;
        assert(self.api.apply_answer(asset_tag@, event_type_id@, sent, idempotency_key@, answer));
        Ok(())
    }

    /// What `Apply` does: with an idempotency key that is blank once trimmed
    /// it only shows that a key is required; otherwise it applies the event
    /// under the trimmed key (see `apply_event`) and, when that fails, shows
    /// the error's text.
    pub fn submit_event<P: Fn(&str) -> DecimalText>(&mut self, parse_decimal: P)
        requires
            is_decimal_reader(parse_decimal),
        ensures
            final(self).api_spec() == old(self).api_spec(),
            trimmed_text(old(self).state_spec().idempotency_key_draft@).len() == 0 ==> same_but_error(
                old(self).state_spec(),
                final(self).state_spec(),
            ) && shows_error(final(self).state_spec(), "idempotency key required"@),
            trimmed_text(old(self).state_spec().idempotency_key_draft@).len() > 0 ==> exists|
                mid: GuiState,
                r: Result<(), ApiError>,
            |
                #![trigger applied_outcome(
                    old(self).api_spec(),
                    old(self).state_spec(),
                    trimmed_text(old(self).state_spec().idempotency_key_draft@),
                    parse_decimal,
                    mid,
                    r,
                )]
                applied_outcome(
                    old(self).api_spec(),
                    old(self).state_spec(),
                    trimmed_text(old(self).state_spec().idempotency_key_draft@),
                    parse_decimal,
                    mid,
                    r,
                ) && shown_outcome(old(self).state_spec(), mid, r, final(self).state_spec()),
    {
        let draft = self.state.idempotency_key_draft.clone();
        let key = trim_str(draft.as_str());
        if crate::text::chars_of(key).len() == 0 {
            self.state.last_error = Some(String::from_str("idempotency key required"));
            return;
        }
        let result = self.apply_event(key, parse_decimal);
        let ghost mid = self.state;
        match result {
            Ok(()) => {},
            Err(e) => {
                self.state.last_error = Some(e.to_string());
            },
        }
        assert(shown_outcome(old(self).state_spec(), mid, result, self.state));
    }

    /// What `Reload` does: loads the catalog (see `load_catalog`) and, when
    /// that fails, shows the error's text.
    pub fn reload(&mut self)
        ensures
            final(self).api_spec() == old(self).api_spec(),
            exists|mid: GuiState, r: Result<(), ApiError>|
                #![trigger catalog_outcome(old(self).api_spec(), old(self).state_spec(), mid, r)]
                catalog_outcome(old(self).api_spec(), old(self).state_spec(), mid, r) && shown_outcome(
                    old(self).state_spec(),
                    mid,
                    r,
                    final(self).state_spec(),
                ),
    {
        let result = self.load_catalog();
        let ghost mid = self.state;
        match result {
            Ok(()) => {},
            Err(e) => {
                self.state.last_error = Some(e.to_string());
            },
        }
        assert(shown_outcome(old(self).state_spec(), mid, result, self.state));
    }

    /// What `New Event Form` does: with an event type that is blank once
    /// trimmed nothing happens; otherwise it opens the form of the trimmed
    /// type (see `start_event_from_type`) and, when that fails, shows the
    /// error's text.
    pub fn start_form_from_draft(&mut self)
        ensures
            final(self).api_spec() == old(self).api_spec(),
            trimmed_text(old(self).state_spec().event_type_draft@).len() == 0 ==> final(self).state_spec() == old(
                self,
            ).state_spec(),
            trimmed_text(old(self).state_spec().event_type_draft@).len() > 0 ==> exists|
                mid: GuiState,
                r: Result<(), ApiError>,
            |
                #![trigger form_outcome(
                    old(self).api_spec(),
                    old(self).state_spec(),
                    trimmed_text(old(self).state_spec().event_type_draft@),
                    mid,
                    r,
                )]
                form_outcome(
                    old(self).api_spec(),
                    old(self).state_spec(),
                    trimmed_text(old(self).state_spec().event_type_draft@),
                    mid,
                    r,
                ) && shown_outcome(old(self).state_spec(), mid, r, final(self).state_spec()),
    {
        let draft = self.state.event_type_draft.clone();
        let id = trim_str(draft.as_str());
        if crate::text::chars_of(id).len() == 0 {
            return;
        }
        let result = self.start_event_from_type(id);
        let ghost mid = self.state;
        match result {
            Ok(()) => {},
            Err(e) => {
                self.state.last_error = Some(e.to_string());
            },
        }
        assert(shown_outcome(old(self).state_spec(), mid, result, self.state));
    }

    /// What choosing asset `asset_tag` in the catalog does: opens it (see
    /// `open_asset_detail`) and, when that fails, shows the error's text.
    pub fn choose_asset(&mut self, asset_tag: &str)
        ensures
            final(self).api_spec() == old(self).api_spec(),
            exists|mid: GuiState, r: Result<(), ApiError>|
                #![trigger detail_outcome(old(self).api_spec(), old(self).state_spec(), asset_tag@, mid, r)]
                detail_outcome(old(self).api_spec(), old(self).state_spec(), asset_tag@, mid, r) && shown_outcome(
                    old(self).state_spec(),
                    mid,
                    r,
                    final(self).state_spec(),
                ),
    {
        let result = self.open_asset_detail(asset_tag);
        let ghost mid = self.state;
        match result {
            Ok(()) => {},
            Err(e) => {
                self.state.last_error = Some(e.to_string());
            },
        }
        assert(shown_outcome(old(self).state_spec(), mid, result, self.state));
    }
}

} // verus!

verus! {

/// The texts of string slices.
pub open spec fn str_texts(v: Seq<&str>) -> Seq<Seq<char>> {
    Seq::new(v.len(), |i: int| v[i]@)
}

/// The texts of pairs of string slices.
pub open spec fn pair_texts(v: Seq<(&str, &str)>) -> Seq<(Seq<char>, Seq<char>)> {
    Seq::new(v.len(), |i: int| (v[i].0@, v[i].1@))
}

/// A built URL by its texts: the URL's text, or why there is none (`Some`
/// text of the error parsing the base, `None` for a base that cannot take
/// path segments).
pub open spec fn url_outcome_view(r: Result<String, Option<String>>) -> Result<Seq<char>, Option<Seq<char>>> {
    match r {
        Ok(s) => Ok(s@),
        Err(Some(m)) => Err(Some(m@)),
        Err(None) => Err(None),
    }
}

/// The URL the `url` crate builds from base `base` by appending the path
/// segments `segments` (see `url_with_path`).
pub uninterp spec fn url_with_path_text(base: Seq<char>, segments: Seq<Seq<char>>) -> Result<
    Seq<char>,
    Option<Seq<char>>,
>;

/// The URL the `url` crate builds from base `base` by appending the path
/// segments `segments` and then the query pairs `pairs` (see
/// `url_with_query`).
pub uninterp spec fn url_with_query_text(
    base: Seq<char>,
    segments: Seq<Seq<char>>,
    pairs: Seq<(Seq<char>, Seq<char>)>,
) -> Result<Seq<char>, Option<Seq<char>>>;

/// The size of the path segments `ts` for the URL limit: their characters,
/// and one for each segment's separator.
pub open spec fn segments_size(ts: Seq<Seq<char>>) -> int
    decreases ts.len(),
{
    if ts.len() == 0 {
        0
    } else {
        segments_size(ts.drop_last()) + ts.last().len() + 1
    }
}

/// The size of the query pairs `ps` for the URL limit: their characters,
/// and two for each pair's separators.
pub open spec fn pairs_size(ps: Seq<(Seq<char>, Seq<char>)>) -> int
    decreases ps.len(),
{
    if ps.len() == 0 {
        0
    } else {
        pairs_size(ps.drop_last()) + ps.last().0.len() + ps.last().1.len() + 2
    }
}

/// The size of what a URL is built from: the base's characters, the
/// segments and the query pairs.
pub open spec fn url_input_size(base: Seq<char>, segments: Seq<Seq<char>>, pairs: Seq<(Seq<char>, Seq<char>)>) -> int {
    base.len() + segments_size(segments) + pairs_size(pairs)
}

/// How large the inputs of a built URL may be. The `url` crate stops the
/// program (it unwraps a conversion to `u32`) once a URL it changes grows
/// past `u32::MAX` bytes; each character of the inputs, and each segment and
/// pair, makes at most a few hundred bytes of the URL (percent-encoding
/// writes at most twelve bytes for a character, and the host's punycode at
/// most a few hundred), so inputs within this size stay well below that.
pub open spec fn url_input_limit() -> int {
    4000000
}

/// `url::Url::parse` of `base`, then `Url::path_segments_mut` and
/// `PathSegmentsMut::push` of each segment in turn, then the URL's text.
/// Claimed: the outcome is a function of the texts of `base` and the
/// segments alone (named `url_with_path_text`); the text of the parse error
/// when the base does not parse, nothing when it cannot take path segments.
/// The inputs are bounded (see `url_input_limit`): on URLs past `u32::MAX`
/// bytes the crate panics.
#[verifier::external_body]
fn url_with_path(base: &str, segments: &[&str]) -> (r: Result<String, Option<String>>)
    requires
        url_input_size(base@, str_texts(segments@), Seq::empty()) <= url_input_limit(),
    ensures
        url_outcome_view(r) == url_with_path_text(base@, str_texts(segments@)),
{
    let mut url = match url::Url::parse(base) { Ok(u) => u, Err(e) => return Err(Some(e.to_string())) };
    let mut path = match url.path_segments_mut() { Ok(p) => p, Err(()) => return Err(None) };
    for s in segments {
        path.push(s);
    }
    drop(path);
    Ok(url.into())
}

/// As `url_with_path`, then `Url::query_pairs_mut` and
/// `Serializer::append_pair` of each pair in turn before the URL's text.
/// Claimed: the outcome is a function of the texts of `base`, the segments
/// and the pairs alone (named `url_with_query_text`). The inputs are
/// bounded as for `url_with_path`.
#[verifier::external_body]
fn url_with_query(base: &str, segments: &[&str], pairs: &[(&str, &str)]) -> (r: Result<String, Option<String>>)
    requires
        url_input_size(base@, str_texts(segments@), pair_texts(pairs@)) <= url_input_limit(),
    ensures
        url_outcome_view(r) == url_with_query_text(base@, str_texts(segments@), pair_texts(pairs@)),
{
    let mut url = match url::Url::parse(base) { Ok(u) => u, Err(e) => return Err(Some(e.to_string())) };
    let mut path = match url.path_segments_mut() { Ok(p) => p, Err(()) => return Err(None) };
    for s in segments {
        path.push(s);
    }
    drop(path);
    let mut query = url.query_pairs_mut();
    for (k, v) in pairs {
        query.append_pair(k, v);
    }
    drop(query);
    Ok(url.into())
}

/// Whether `r` is the API answer for the URL outcome `o`: the URL, or an
/// `Invalid` error for a base that does not parse or cannot take a path.
pub open spec fn api_url_is(r: Result<String, ApiError>, o: Result<Seq<char>, Option<Seq<char>>>) -> bool {
    match o {
        Ok(t) => r matches Ok(s) && s@ == t,
        Err(Some(m)) => r matches Err(ApiError::Invalid(x)) && x@ == "invalid base url: "@ + m,
        Err(None) => r matches Err(ApiError::Invalid(x)) && x@ == "base url cannot be a base-only URL"@,
    }
}

/// The API answer for a URL outcome (see `api_url_is`).
pub fn api_url(outcome: Result<String, Option<String>>) -> (r: Result<String, ApiError>)
    ensures
        api_url_is(r, url_outcome_view(outcome)),
{
    match outcome {
        Ok(s) => Ok(s),
        Err(Some(m)) => {
            let mut x = String::from_str("invalid base url: ");
            x.append(m.as_str());
            Err(ApiError::Invalid(x))
        },
        Err(None) => Err(ApiError::invalid("base url cannot be a base-only URL")),
    }
}

/// The size of the segments `assets`, a tag and `events`.
proof fn lemma_three_segments_size(ts: Seq<Seq<char>>)
    requires
        ts.len() == 3,
        ts[0] == "assets"@,
        ts[2] == "events"@,
    ensures
        segments_size(ts) == ts[1].len() + 15,
{
    reveal_strlit("assets");
    reveal_strlit("events");
    let t2 = ts.drop_last();
    let t1 = t2.drop_last();
    assert(t1.drop_last() =~= Seq::<Seq<char>>::empty());
    assert(segments_size(t1.drop_last()) == 0);
    assert(t1.last() == ts[0]);
    assert(segments_size(t1) == 7);
    assert(t2.last() == ts[1]);
    assert(segments_size(t2) == ts[1].len() + 8);
    assert(ts.last() == ts[2]);
}

/// The size of two segments.
proof fn lemma_two_segments_size(ts: Seq<Seq<char>>)
    requires
        ts.len() == 2,
    ensures
        segments_size(ts) == ts[0].len() + ts[1].len() + 2,
{
    let t1 = ts.drop_last();
    assert(t1.drop_last() =~= Seq::<Seq<char>>::empty());
    assert(segments_size(t1.drop_last()) == 0);
    assert(t1.last() == ts[0]);
    assert(segments_size(t1) == ts[0].len() + 1);
    assert(ts.last() == ts[1]);
}

/// The size of one or two query pairs.
proof fn lemma_pairs_size(ps: Seq<(Seq<char>, Seq<char>)>)
    requires
        1 <= ps.len() <= 2,
    ensures
        ps.len() == 1 ==> pairs_size(ps) == ps[0].0.len() + ps[0].1.len() + 2,
        ps.len() == 2 ==> pairs_size(ps) == ps[0].0.len() + ps[0].1.len() + ps[1].0.len() + ps[1].1.len() + 4,
{
    if ps.len() == 1 {
        assert(ps.drop_last() =~= Seq::<(Seq<char>, Seq<char>)>::empty());
        assert(pairs_size(ps.drop_last()) == 0);
        assert(ps.last() == ps[0]);
    } else {
        let p1 = ps.drop_last();
        assert(p1.drop_last() =~= Seq::<(Seq<char>, Seq<char>)>::empty());
        assert(pairs_size(p1.drop_last()) == 0);
        assert(p1.last() == ps[0]);
        assert(pairs_size(p1) == ps[0].0.len() + ps[0].1.len() + 2);
        assert(ps.last() == ps[1]);
    }
}

/// The URL of a page of an asset's timeline: `assets/<tag>/events` below
/// the base, with at most 100 events per page and the cursor when given; for
/// inputs within the URL limit (see `url_input_limit`).
pub fn timeline_url(base_url: &str, asset_tag: &str, cursor: Option<&str>) -> (r: Result<String, ApiError>)
    requires
        base_url@.len() + asset_tag@.len() + match cursor {
            Some(c) => c@.len(),
            None => 0,
        } + 64 <= url_input_limit(),
    ensures
        api_url_is(
            r,
            url_with_query_text(
                base_url@,
                seq!["assets"@, asset_tag@, "events"@],
                match cursor {
                    Some(c) => seq![("limit"@, "100"@), ("cursor"@, c@)],
                    None => seq![("limit"@, "100"@)],
                },
            ),
        ),
{
    let segments: Vec<&str> = vec!["assets", asset_tag, "events"];
    let pairs: Vec<(&str, &str)> = match cursor {
        Some(c) => vec![("limit", "100"), ("cursor", c)],
        None => vec![("limit", "100")],
    };
    proof {
        assert(str_texts(segments@) =~= seq!["assets"@, asset_tag@, "events"@]);
        assert(pair_texts(pairs@) =~= match cursor {
            Some(c) => seq![("limit"@, "100"@), ("cursor"@, c@)],
            None => seq![("limit"@, "100"@)],
        });
        lemma_three_segments_size(str_texts(segments@));
        reveal_strlit("limit");
        reveal_strlit("100");
        reveal_strlit("cursor");
        lemma_pairs_size(pair_texts(pairs@));
    }
    api_url(url_with_query(base_url, segments.as_slice(), pairs.as_slice()))
}

/// The URL of an event type: `event-types/<id>` below the base; for inputs
/// within the URL limit (see `url_input_limit`).
pub fn event_type_url(base_url: &str, event_type_id: &str) -> (r: Result<String, ApiError>)
    requires
        base_url@.len() + event_type_id@.len() + 64 <= url_input_limit(),
    ensures
        api_url_is(r, url_with_path_text(base_url@, seq!["event-types"@, event_type_id@])),
{
    let segments: Vec<&str> = vec!["event-types", event_type_id];
    proof {
        assert(str_texts(segments@) =~= seq!["event-types"@, event_type_id@]);
        reveal_strlit("event-types");
        lemma_two_segments_size(str_texts(segments@));
        assert(pairs_size(Seq::<(Seq<char>, Seq<char>)>::empty()) == 0);
    }
    api_url(url_with_path(base_url, segments.as_slice()))
}

/// The URL events of an asset are applied at: `assets/<tag>/events` below
/// the base; for inputs within the URL limit (see `url_input_limit`).
pub fn apply_event_url(base_url: &str, asset_tag: &str) -> (r: Result<String, ApiError>)
    requires
        base_url@.len() + asset_tag@.len() + 64 <= url_input_limit(),
    ensures
        api_url_is(r, url_with_path_text(base_url@, seq!["assets"@, asset_tag@, "events"@])),
{
    let segments: Vec<&str> = vec!["assets", asset_tag, "events"];
    proof {
        assert(str_texts(segments@) =~= seq!["assets"@, asset_tag@, "events"@]);
        lemma_three_segments_size(str_texts(segments@));
        assert(pairs_size(Seq::<(Seq<char>, Seq<char>)>::empty()) == 0);
    }
    api_url(url_with_path(base_url, segments.as_slice()))
}

} // verus!
