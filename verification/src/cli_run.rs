//! What the scripted HAM client sends: the request each command makes, the
//! requests of the scripted core flow one after another with the ids the
//! server answered, and the report lines it prints.
use vstd::prelude::*;
use crate::cli::{AssetCommand, CategoryCommand, CliCommand, CliError};
use crate::json::{JsonNumber, JsonObject, JsonValue, JsonView, json_view, lemma_object_value_view};
use crate::text::{i64_text, int_text, join_with, lemma_text_le_order, push_char, text_le, text_le_exec, trim_str, trimmed_text, chars_of, string_of};
use crate::shared::lemma_join_push;
use crate::json::{lemma_entries_map_dom, unique_keys};

verus! {

broadcast use lemma_object_value_view;

/// An HTTP method the client uses.
#[derive(Clone, Copy, Debug, PartialEq, Eq, Structural)]
pub enum HttpMethod {
    Get,
    Post,
    Patch,
    Delete,
}

/// A request to the HAM server: the step it serves, method, path (below the
/// base URL), JSON body if any, and extra headers.
#[derive(Clone, Debug)]
pub struct HttpRequest {
    pub action: &'static str,
    pub method: HttpMethod,
    pub path: String,
    pub body: Option<JsonValue>,
    pub headers: Vec<(String, String)>,
}

/// Whether `r` is the request for step `action` with method `method`, path
/// `path`, body `body` and no extra header.
pub open spec fn plain_request(r: HttpRequest, action: Seq<char>, method: HttpMethod, path: Seq<char>, body: Option<JsonView>) -> bool {
    &&& r.action@ == action
    &&& r.method == method
    &&& r.path@ == path
    &&& match (r.body, body) {
        (Some(b), Some(v)) => json_view(b) == v,
        (None, None) => true,
        _ => false,
    }
    &&& r.headers@.len() == 0
}

/// The JSON integer for `i`.
pub open spec fn int_json(i: i64) -> JsonView {
    if i < 0 {
        JsonView::Number(JsonNumber::NegInt(i))
    } else {
        JsonView::Number(JsonNumber::PosInt(i as u64))
    }
}

/// `s` without its trailing slashes.
pub open spec fn strip_trailing_slashes(s: Seq<char>) -> Seq<char>
    decreases s.len(),
{
    if s.len() > 0 && s.last() == '/' {
        strip_trailing_slashes(s.drop_last())
    } else {
        s
    }
}

/// The URL of `path` on the server at `base_url` (trailing slashes of the
/// base dropped).
pub fn request_url(base_url: &str, path: &str) -> (u: String)
    ensures
        u@ == strip_trailing_slashes(base_url@) + path@,
{
    let v = chars_of(base_url);
    let mut n = v.len();
    assert(v@.take(n as int) == v@);
    while n > 0 && v[n - 1] == '/'
        invariant
            n <= v@.len(),
            strip_trailing_slashes(base_url@) == strip_trailing_slashes(v@.take(n as int)),
            v@ == base_url@,
        decreases n,
    {
        assert(v@.take(n as int).drop_last() == v@.take(n - 1));
        n = n - 1;
    }
    let mut prefix: Vec<char> = Vec::new();
    let mut i: usize = 0;
    while i < n
        invariant
            i <= n <= v@.len(),
            prefix@ == v@.take(i as int),
        decreases n - i,
    {
        prefix.push(v[i]);
        i = i + 1;
        assert(prefix@ == v@.take(i as int));
    }
    let mut u = string_of(&prefix);
    u.append(path);
    u
}

/// The JSON value of a string.
fn text_value(s: String) -> (v: JsonValue)
    ensures
        json_view(v) == JsonView::String(s@),
{
    JsonValue::String(s)
}

/// The JSON value of an integer.
fn int_value(i: i64) -> (v: JsonValue)
    ensures
        json_view(v) == int_json(i),
{
    JsonValue::Number(JsonNumber::from_i64(i))
}

/// `"/" + collection + "/" + id` for collection paths without trailing slash.
fn item_path(collection: &str, id: i64) -> (p: String)
    ensures
        p@ == collection@ + "/"@ + int_text(id as int),
{
    let mut p = collection.to_string();
    p.append("/");
    let digits = i64_text(id);
    p.append(digits.as_str());
    p
}

/// The name under which a command's report is printed.
pub open spec fn command_name_text(c: CliCommand) -> Seq<char> {
    match c {
        CliCommand::Flow { .. } => "flow scripted-core"@,
        CliCommand::Category { category } => match category {
            CategoryCommand::Create(_) => "category create"@,
            CategoryCommand::List => "category list"@,
            CategoryCommand::Delete(_) => "category delete"@,
        },
        CliCommand::Asset { asset } => match asset {
            AssetCommand::Create(_) => "asset create"@,
            AssetCommand::Get(_) => "asset get"@,
            AssetCommand::List(_) => "asset list"@,
            AssetCommand::Update(_) => "asset update"@,
            AssetCommand::Delete(_) => "asset delete"@,
        },
    }
}

/// Whether `c` lists assets.
pub open spec fn lists_assets(c: CliCommand) -> bool {
    c matches CliCommand::Asset { asset: AssetCommand::List(_) }
}

/// The exit status of a run of command `c`: 0 when it succeeded; when it
/// failed, 2 for an asset listing and 1 for any other command.
pub fn exit_code(c: &CliCommand, succeeded: bool) -> (r: i32)
    ensures
        r == (if succeeded {
            0i32
        } else if lists_assets(*c) {
            2i32
        } else {
            1i32
        }),
{
    if succeeded {
        0
    } else {
        match c {
            CliCommand::Asset { asset: AssetCommand::List(_) } => 2,
            _ => 1,
        }
    }
}

/// The name under which a command's report is printed.
pub fn command_name(c: &CliCommand) -> (s: &'static str)
    ensures
        s@ == command_name_text(*c),
{
    match c {
        CliCommand::Flow { .. } => "flow scripted-core",
        CliCommand::Category { category } => match category {
            CategoryCommand::Create(_) => "category create",
            CategoryCommand::List => "category list",
            CategoryCommand::Delete(_) => "category delete",
        },
        CliCommand::Asset { asset } => match asset {
            AssetCommand::Create(_) => "asset create",
            AssetCommand::Get(_) => "asset get",
            AssetCommand::List(_) => "asset list",
            AssetCommand::Update(_) => "asset update",
            AssetCommand::Delete(_) => "asset delete",
        },
    }
}

/// Whether `r` is the validation error of step `step` with message `message`.
pub open spec fn validation_error(r: CliError, step: Seq<char>, message: Seq<char>) -> bool {
    r matches CliError::Validation { step: s, message: m } && s@ == step && m@ == message
}

/// The request a single command makes, or why it makes none (see the
/// contract of `command_request`).
pub open spec fn command_request_ok(c: CliCommand, r: HttpRequest) -> bool {
    match c {
        CliCommand::Flow { .. } => false,
        CliCommand::Category { category } => match category {
            CategoryCommand::Create(args) => {
                let name = trimmed_text(args.name@);
                let body = match args.parent_id {
                    Some(p) => Map::empty().insert("name"@, JsonView::String(name)).insert(
                        "parent_category_id"@,
                        int_json(p),
                    ),
                    None => Map::empty().insert("name"@, JsonView::String(name)),
                };
                name.len() > 0 && plain_request(r, "category_create"@, HttpMethod::Post, "/categories"@, Some(JsonView::Object(body)))
            },
            CategoryCommand::List => plain_request(r, "category_list"@, HttpMethod::Get, "/categories"@, None),
            CategoryCommand::Delete(args) => plain_request(
                r,
                "category_delete"@,
                HttpMethod::Delete,
                "/categories"@ + "/"@ + int_text(args.id as int),
                None,
            ),
        },
        CliCommand::Asset { asset } => match asset {
            AssetCommand::Create(args) => {
                let base = Map::empty().insert("category_id"@, int_json(args.category_id));
                let body = match args.asset_tag {
                    Some(t) => base.insert("asset_tag"@, JsonView::String(t@)),
                    None => base,
                };
                plain_request(r, "asset_create"@, HttpMethod::Post, "/assets"@, Some(JsonView::Object(body)))
            },
            AssetCommand::Get(args) => plain_request(
                r,
                "asset_get"@,
                HttpMethod::Get,
                "/assets/"@ + int_text(args.id as int) + (if args.include_deleted {
                    "?include_deleted=true"@
                } else {
                    Seq::empty()
                }),
                None,
            ),
            AssetCommand::List(args) => plain_request(
                r,
                "asset_list"@,
                HttpMethod::Get,
                "/assets"@ + (if args.include_deleted {
                    "?include_deleted=true"@
                } else {
                    Seq::empty()
                }),
                None,
            ),
            AssetCommand::Update(args) => {
                let body = match args.display_name {
                    Some(d) => Map::empty().insert("display_name"@, JsonView::String(d@)),
                    None => Map::empty().insert("clear_display_name"@, JsonView::Bool(true)),
                };
                !(args.display_name is Some && args.clear_display_name) && (args.display_name is Some
                    || args.clear_display_name) && plain_request(
                    r,
                    "asset_update"@,
                    HttpMethod::Patch,
                    "/assets/"@ + int_text(args.id as int),
                    Some(JsonView::Object(body)),
                )
            },
            AssetCommand::Delete(args) => plain_request(
                r,
                "asset_delete"@,
                HttpMethod::Delete,
                "/assets"@ + "/"@ + int_text(args.id as int),
                None,
            ),
        },
    }
}

/// The validation error a single command is refused with before any
/// request, if any.
pub open spec fn command_refusal(c: CliCommand) -> Option<(Seq<char>, Seq<char>)> {
    match c {
        CliCommand::Category { category: CategoryCommand::Create(args) } => if trimmed_text(args.name@).len() == 0 {
            Some(("category_create"@, "name must not be blank"@))
        } else {
            None
        },
        CliCommand::Asset { asset: AssetCommand::Update(args) } => if args.display_name is Some
            && args.clear_display_name {
            Some(("asset_update"@, "--display-name and --clear-display-name cannot be used together"@))
        } else if args.display_name is None && !args.clear_display_name {
            Some(
                (
                    "asset_update"@,
                    "at least one update field is required (--display-name or --clear-display-name)"@,
                ),
            )
        } else {
            None
        },
        _ => None,
    }
}

/// The request a single command makes: `Ok(None)` for the scripted flow,
/// which makes many (see `ScriptedFlow`), and a validation error for a
/// command refused before any request.
pub fn command_request(c: &CliCommand) -> (r: Result<Option<HttpRequest>, CliError>)
    ensures
        match command_refusal(*c) {
            Some((step, message)) => r matches Err(e) && validation_error(e, step, message),
            None => match r {
                Ok(Some(req)) => command_request_ok(*c, req),
                Ok(None) => (*c) is Flow,
                Err(_) => false,
            },
        },
{
    match c {
        CliCommand::Flow { .. } => Ok(None),
        CliCommand::Category { category } => match category {
            CategoryCommand::Create(args) => {
                let name = trim_str(args.name.as_str());
                if name.unicode_len() == 0 {
                    return Err(CliError::Validation { step: "category_create", message: String::from_str("name must not be blank") });
                }
                let mut body = JsonObject::new();
                body.insert(String::from_str("name"), text_value(name.to_string()));
                match args.parent_id {
                    Some(p) => {
                        body.insert(String::from_str("parent_category_id"), int_value(p));
                    },
                    None => {},
                }
                Ok(
                    Some(
                        HttpRequest {
                            action: "category_create",
                            method: HttpMethod::Post,
                            path: String::from_str("/categories"),
                            body: Some(JsonValue::Object(body)),
                            headers: Vec::new(),
                        },
                    ),
                )
            },
            CategoryCommand::List => Ok(
                Some(
                    HttpRequest {
                        action: "category_list",
                        method: HttpMethod::Get,
                        path: String::from_str("/categories"),
                        body: None,
                        headers: Vec::new(),
                    },
                ),
            ),
            CategoryCommand::Delete(args) => Ok(
                Some(
                    HttpRequest {
                        action: "category_delete",
                        method: HttpMethod::Delete,
                        path: item_path("/categories", args.id),
                        body: None,
                        headers: Vec::new(),
                    },
                ),
            ),
        },
        CliCommand::Asset { asset } => match asset {
            AssetCommand::Create(args) => {
                let mut body = JsonObject::new();
                body.insert(String::from_str("category_id"), int_value(args.category_id));
                match &args.asset_tag {
                    Some(t) => {
                        body.insert(String::from_str("asset_tag"), text_value(t.clone()));
                    },
                    None => {},
                }
                Ok(
                    Some(
                        HttpRequest {
                            action: "asset_create",
                            method: HttpMethod::Post,
                            path: String::from_str("/assets"),
                            body: Some(JsonValue::Object(body)),
                            headers: Vec::new(),
                        },
                    ),
                )
            },
            AssetCommand::Get(args) => {
                let mut path = String::from_str("/assets/");
                let digits = i64_text(args.id);
                path.append(digits.as_str());
                if args.include_deleted {
                    path.append("?include_deleted=true");
                } else {
                    proof {
                        assert(path@ + Seq::<char>::empty() == path@);
                    }
                }
                Ok(
                    Some(
                        HttpRequest { action: "asset_get", method: HttpMethod::Get, path, body: None, headers: Vec::new() },
                    ),
                )
            },
            AssetCommand::List(args) => {
                let mut path = String::from_str("/assets");
                if args.include_deleted {
                    path.append("?include_deleted=true");
                } else {
                    proof {
                        assert(path@ + Seq::<char>::empty() == path@);
                    }
                }
                Ok(
                    Some(
                        HttpRequest { action: "asset_list", method: HttpMethod::Get, path, body: None, headers: Vec::new() },
                    ),
                )
            },
            AssetCommand::Update(args) => {
                if args.display_name.is_some() && args.clear_display_name {
                    return Err(
                        CliError::Validation {
                            step: "asset_update",
                            message: String::from_str("--display-name and --clear-display-name cannot be used together"),
                        },
                    );
                }
                let mut body = JsonObject::new();
                match &args.display_name {
                    Some(d) => {
                        body.insert(String::from_str("display_name"), text_value(d.clone()));
                    },
                    None => {
                        if args.clear_display_name {
                            body.insert(String::from_str("clear_display_name"), JsonValue::Bool(true));
                        } else {
                            return Err(
                                CliError::Validation {
                                    step: "asset_update",
                                    message: String::from_str(
                                        "at least one update field is required (--display-name or --clear-display-name)",
                                    ),
                                },
                            );
                        }
                    },
                }
                let mut path = String::from_str("/assets/");
                let digits = i64_text(args.id);
                path.append(digits.as_str());
                Ok(
                    Some(
                        HttpRequest {
                            action: "asset_update",
                            method: HttpMethod::Patch,
                            path,
                            body: Some(JsonValue::Object(body)),
                            headers: Vec::new(),
                        },
                    ),
                )
            },
            AssetCommand::Delete(args) => Ok(
                Some(
                    HttpRequest {
                        action: "asset_delete",
                        method: HttpMethod::Delete,
                        path: item_path("/assets", args.id),
                        body: None,
                        headers: Vec::new(),
                    },
                ),
            ),
        },
    }
}

} // verus!

verus! {

/// One answered request of the scripted flow.
#[derive(Clone, Debug)]
pub struct StepResult {
    pub action: &'static str,
    pub status_code: u16,
    pub response: JsonValue,
}

/// A request of the scripted flow, as content.
pub struct FlowRequestView {
    pub action: Seq<char>,
    pub method: HttpMethod,
    pub path: Seq<char>,
    pub body: Option<JsonView>,
    pub idempotency_key: Option<Seq<char>>,
}

/// Whether `r` is the request `v`.
pub open spec fn request_is(r: HttpRequest, v: FlowRequestView) -> bool {
    &&& r.action@ == v.action
    &&& r.method == v.method
    &&& r.path@ == v.path
    &&& match (r.body, v.body) {
        (Some(b), Some(x)) => json_view(b) == x,
        (None, None) => true,
        _ => false,
    }
    &&& match v.idempotency_key {
        Some(k) => r.headers@.len() == 1 && r.headers@[0].0@ == "Idempotency-Key"@ && r.headers@[0].1@ == k,
        None => r.headers@.len() == 0,
    }
}

/// A POST of `body` to `path` for step `action`.
pub open spec fn post_view(action: Seq<char>, path: Seq<char>, body: Map<Seq<char>, JsonView>) -> FlowRequestView {
    FlowRequestView {
        action,
        method: HttpMethod::Post,
        path,
        body: Some(JsonView::Object(body)),
        idempotency_key: None,
    }
}

/// A JSON string.
pub open spec fn jstr(s: Seq<char>) -> JsonView {
    JsonView::String(s)
}

/// The request number `k` of the scripted core flow, given the ids and the
/// asset tag the earlier answers gave.
pub open spec fn flow_request(k: int, f: ScriptedFlow) -> FlowRequestView {
    let e = Map::<Seq<char>, JsonView>::empty();
    if k == 0 {
        post_view("create_category"@, "/categories"@, e.insert("name"@, jstr("Network"@)))
    } else if k == 1 {
        post_view(
            "create_tag_definition_text"@,
            "/tag-definitions"@,
            e.insert("tag_key"@, jstr("owner"@)).insert("display_name"@, jstr("Owner"@)).insert(
                "value_type"@,
                jstr("text"@),
            ),
        )
    } else if k == 2 {
        post_view(
            "create_tag_definition_enum"@,
            "/tag-definitions"@,
            e.insert("tag_key"@, jstr("status"@)).insert("display_name"@, jstr("Status"@)).insert(
                "value_type"@,
                jstr("enum"@),
            ),
        )
    } else if k == 3 {
        post_view(
            "create_enum_option"@,
            "/tag-enum-options"@,
            e.insert("tag_definition_id"@, int_json(f.enum_tag_definition_id)).insert(
                "option_key"@,
                jstr("active"@),
            ).insert("display_name"@, jstr("Active"@)).insert("sort_order"@, int_json(0)),
        )
    } else if k == 4 {
        post_view(
            "create_external_entity_type"@,
            "/external-entity-types"@,
            e.insert("type_key"@, jstr("vendor"@)).insert("display_name"@, jstr("Vendor"@)),
        )
    } else if k == 5 {
        post_view(
            "create_external_entity"@,
            "/external-entities"@,
            e.insert("external_entity_type_id"@, int_json(f.external_entity_type_id)).insert(
                "external_key"@,
                jstr("v-1"@),
            ).insert("display_name"@, jstr("Acme"@)),
        )
    } else if k == 6 {
        post_view(
            "create_tag_definition_external_entity"@,
            "/tag-definitions"@,
            e.insert("tag_key"@, jstr("vendor_ref"@)).insert("display_name"@, jstr("Vendor"@)).insert(
                "value_type"@,
                jstr("external_entity"@),
            ).insert("external_entity_type_id"@, int_json(f.external_entity_type_id)),
        )
    } else if k == 7 {
        let mutation = e.insert("operation"@, jstr("set"@)).insert(
            "tag_definition_id"@,
            int_json(f.owner_tag_definition_id),
        ).insert("input_key"@, jstr("owner"@));
        post_view(
            "create_event_type"@,
            "/event-types"@,
            e.insert("event_type_id"@, jstr("asset.set-owner"@)).insert("display_name"@, jstr("Set Owner"@)).insert(
                "mutations"@,
                JsonView::Array(seq![JsonView::Object(mutation)]),
            ),
        )
    } else if k == 8 {
        post_view(
            "create_asset"@,
            "/assets"@,
            e.insert("category_id"@, int_json(f.category_id)).insert("asset_tag"@, jstr("AST-FLOW-001"@)),
        )
    } else if k == 9 {
        FlowRequestView {
            action: "apply_event"@,
            method: HttpMethod::Post,
            path: "/assets/"@ + f.asset_tag@ + "/events"@,
            body: Some(
                JsonView::Object(
                    e.insert("event_type_id"@, jstr("asset.set-owner"@)).insert(
                        "payload"@,
                        JsonView::Object(e.insert("owner"@, jstr("team-a"@))),
                    ),
                ),
            ),
            idempotency_key: Some("ham-flow-001"@),
        }
    } else if k == 10 {
        FlowRequestView {
            action: "fetch_timeline"@,
            method: HttpMethod::Get,
            path: "/assets/"@ + f.asset_tag@ + "/events?limit=10"@,
            body: None,
            idempotency_key: None,
        }
    } else {
        let filter = e.insert("field"@, jstr("asset_tag"@)).insert("op"@, jstr("eq"@)).insert(
            "value"@,
            jstr(f.asset_tag@),
        );
        post_view(
            "run_search"@,
            "/assets/search"@,
            e.insert("filters"@, JsonView::Array(seq![JsonView::Object(filter)])),
        )
    }
}

/// The integer field `field` of an answer, if it is an object holding one.
pub open spec fn response_i64(v: JsonView, field: Seq<char>) -> Option<i64> {
    match v {
        JsonView::Object(m) => if m.contains_key(field) {
            match m[field] {
                JsonView::Number(n) => n.spec_as_i64(),
                _ => None,
            }
        } else {
            None
        },
        _ => None,
    }
}

/// The text field `field` of an answer, if it is an object holding one.
pub open spec fn response_text(v: JsonView, field: Seq<char>) -> Option<Seq<char>> {
    match v {
        JsonView::Object(m) => if m.contains_key(field) {
            match m[field] {
                JsonView::String(s) => Some(s),
                _ => None,
            }
        } else {
            None
        },
        _ => None,
    }
}

/// The scripted core flow under way: the answers so far, and the ids and
/// asset tag taken from them for the requests still to come.
#[derive(Clone, Debug)]
pub struct ScriptedFlow {
    pub steps: Vec<StepResult>,
    pub owner_tag_definition_id: i64,
    pub enum_tag_definition_id: i64,
    pub external_entity_type_id: i64,
    pub category_id: i64,
    pub asset_tag: String,
}

/// The number of requests of the scripted core flow.
pub open spec fn flow_length() -> int {
    12
}

} // verus!

verus! {

/// The step whose answer lacks the id the flow needs once answer number `k`
/// is `response`, if any.
pub open spec fn flow_missing(k: int, f: ScriptedFlow, response: JsonView) -> Option<Seq<char>> {
    if k == 1 && response_i64(response, "id"@) is None {
        Some("create_tag_definition_text"@)
    } else if k == 2 && response_i64(response, "id"@) is None {
        Some("create_tag_definition_enum"@)
    } else if k == 4 && response_i64(response, "id"@) is None {
        Some("create_external_entity_type"@)
    } else if k == 6 && f.steps@.len() > 0 && response_i64(json_view(f.steps@[0].response), "id"@) is None {
        Some("create_category"@)
    } else {
        None
    }
}

/// Whether `g` is `f` after answer number `k` was `response` with status
/// `status`: the answer recorded, and the id or tag it carries kept.
pub open spec fn flow_recorded(k: int, f: ScriptedFlow, status: u16, response: JsonView, g: ScriptedFlow) -> bool {
    &&& g.steps@.len() == k + 1
    &&& g.steps@.take(k) == f.steps@
    &&& g.steps@[k].action@ == flow_request(k, f).action
    &&& g.steps@[k].status_code == status
    &&& json_view(g.steps@[k].response) == response
    &&& g.owner_tag_definition_id == (if k == 1 {
        response_i64(response, "id"@)->0
    } else {
        f.owner_tag_definition_id
    })
    &&& g.enum_tag_definition_id == (if k == 2 {
        response_i64(response, "id"@)->0
    } else {
        f.enum_tag_definition_id
    })
    &&& g.external_entity_type_id == (if k == 4 {
        response_i64(response, "id"@)->0
    } else {
        f.external_entity_type_id
    })
    &&& g.category_id == (if k == 6 {
        response_i64(json_view(f.steps@[0].response), "id"@)->0
    } else {
        f.category_id
    })
    &&& g.asset_tag@ == (if k == 8 {
        match response_text(response, "asset_tag"@) {
            Some(t) => t,
            None => "AST-FLOW-001"@,
        }
    } else {
        f.asset_tag@
    })
}

/// The JSON array of one value.
fn single_array(v: JsonValue) -> (r: JsonValue)
    ensures
        json_view(r) == JsonView::Array(seq![json_view(v)]),
{
    let r = JsonValue::Array(vec![v]);
    assert(json_view(r)->Array_0 =~= seq![json_view(v)]);
    r
}

/// The integer field `field` of an answer, if it is an object holding one.
fn answer_i64(response: &JsonValue, field: &str) -> (r: Option<i64>)
    ensures
        r == response_i64(json_view(*response), field@),
{
    match response {
        JsonValue::Object(m) => match m.get(field) {
            Some(v) => v.as_i64(),
            None => None,
        },
        _ => None,
    }
}

/// The text field `field` of an answer, if it is an object holding one.
fn answer_text(response: &JsonValue, field: &str) -> (r: Option<String>)
    ensures
        match response_text(json_view(*response), field@) {
            Some(t) => r matches Some(s) && s@ == t,
            None => r is None,
        },
{
    match response {
        JsonValue::Object(m) => match m.get(field) {
            Some(v) => match v.as_str() {
                Some(s) => Some(s.clone()),
                None => None,
            },
            None => None,
        },
        _ => None,
    }
}

impl ScriptedFlow {
    /// The flow before its first request: no step answered, no id learnt
    /// yet (each 0), and no asset tag.
    pub fn new() -> (f: ScriptedFlow)
        ensures
            f.steps@.len() == 0,
            f.owner_tag_definition_id == 0,
            f.enum_tag_definition_id == 0,
            f.external_entity_type_id == 0,
            f.category_id == 0,
            f.asset_tag@.len() == 0,
    {
        ScriptedFlow {
            steps: Vec::new(),
            owner_tag_definition_id: 0,
            enum_tag_definition_id: 0,
            external_entity_type_id: 0,
            category_id: 0,
            asset_tag: String::new(),
        }
    }

    /// The next request of the flow (see `flow_request`), none once all
    /// were answered.
    pub fn next_request(&self) -> (r: Option<HttpRequest>)
        ensures
            match r {
                Some(req) => self.steps@.len() < flow_length() && request_is(req, flow_request(self.steps@.len() as int, *self)),
                None => self.steps@.len() >= flow_length(),
            },
    {
        let k = self.steps.len();
        let mut body = JsonObject::new();
        let mut key: Option<String> = None;
        let (action, method, path): (&'static str, HttpMethod, String) = if k == 0 {
            body.insert(String::from_str("name"), text_value(String::from_str("Network")));
            ("create_category", HttpMethod::Post, String::from_str("/categories"))
        } else if k == 1 {
            body.insert(String::from_str("tag_key"), text_value(String::from_str("owner")));
            body.insert(String::from_str("display_name"), text_value(String::from_str("Owner")));
            body.insert(String::from_str("value_type"), text_value(String::from_str("text")));
            ("create_tag_definition_text", HttpMethod::Post, String::from_str("/tag-definitions"))
        } else if k == 2 {
            body.insert(String::from_str("tag_key"), text_value(String::from_str("status")));
            body.insert(String::from_str("display_name"), text_value(String::from_str("Status")));
            body.insert(String::from_str("value_type"), text_value(String::from_str("enum")));
            ("create_tag_definition_enum", HttpMethod::Post, String::from_str("/tag-definitions"))
        } else if k == 3 {
            body.insert(String::from_str("tag_definition_id"), int_value(self.enum_tag_definition_id));
            body.insert(String::from_str("option_key"), text_value(String::from_str("active")));
            body.insert(String::from_str("display_name"), text_value(String::from_str("Active")));
            body.insert(String::from_str("sort_order"), int_value(0));
            ("create_enum_option", HttpMethod::Post, String::from_str("/tag-enum-options"))
        } else if k == 4 {
            body.insert(String::from_str("type_key"), text_value(String::from_str("vendor")));
            body.insert(String::from_str("display_name"), text_value(String::from_str("Vendor")));
            ("create_external_entity_type", HttpMethod::Post, String::from_str("/external-entity-types"))
        } else if k == 5 {
            body.insert(String::from_str("external_entity_type_id"), int_value(self.external_entity_type_id));
            body.insert(String::from_str("external_key"), text_value(String::from_str("v-1")));
            body.insert(String::from_str("display_name"), text_value(String::from_str("Acme")));
            ("create_external_entity", HttpMethod::Post, String::from_str("/external-entities"))
        } else if k == 6 {
            body.insert(String::from_str("tag_key"), text_value(String::from_str("vendor_ref")));
            body.insert(String::from_str("display_name"), text_value(String::from_str("Vendor")));
            body.insert(String::from_str("value_type"), text_value(String::from_str("external_entity")));
            body.insert(String::from_str("external_entity_type_id"), int_value(self.external_entity_type_id));
            ("create_tag_definition_external_entity", HttpMethod::Post, String::from_str("/tag-definitions"))
        } else if k == 7 {
            let mut mutation = JsonObject::new();
            mutation.insert(String::from_str("operation"), text_value(String::from_str("set")));
            mutation.insert(String::from_str("tag_definition_id"), int_value(self.owner_tag_definition_id));
            mutation.insert(String::from_str("input_key"), text_value(String::from_str("owner")));
            body.insert(String::from_str("event_type_id"), text_value(String::from_str("asset.set-owner")));
            body.insert(String::from_str("display_name"), text_value(String::from_str("Set Owner")));
            body.insert(String::from_str("mutations"), single_array(JsonValue::Object(mutation)));
            ("create_event_type", HttpMethod::Post, String::from_str("/event-types"))
        } else if k == 8 {
            body.insert(String::from_str("category_id"), int_value(self.category_id));
            body.insert(String::from_str("asset_tag"), text_value(String::from_str("AST-FLOW-001")));
            ("create_asset", HttpMethod::Post, String::from_str("/assets"))
        } else if k == 9 {
            let mut payload = JsonObject::new();
            payload.insert(String::from_str("owner"), text_value(String::from_str("team-a")));
            body.insert(String::from_str("event_type_id"), text_value(String::from_str("asset.set-owner")));
            body.insert(String::from_str("payload"), JsonValue::Object(payload));
            key = Some(String::from_str("ham-flow-001"));
            let mut p = String::from_str("/assets/");
            p.append(self.asset_tag.as_str());
            p.append("/events");
            ("apply_event", HttpMethod::Post, p)
        } else if k == 10 {
            let mut p = String::from_str("/assets/");
            p.append(self.asset_tag.as_str());
            p.append("/events?limit=10");
            ("fetch_timeline", HttpMethod::Get, p)
        } else if k == 11 {
            let mut filter = JsonObject::new();
            filter.insert(String::from_str("field"), text_value(String::from_str("asset_tag")));
            filter.insert(String::from_str("op"), text_value(String::from_str("eq")));
            filter.insert(String::from_str("value"), text_value(self.asset_tag.clone()));
            body.insert(String::from_str("filters"), single_array(JsonValue::Object(filter)));
            ("run_search", HttpMethod::Post, String::from_str("/assets/search"))
        } else {
            return None;
        };
        let mut headers: Vec<(String, String)> = Vec::new();
        match key {
            Some(v) => headers.push((String::from_str("Idempotency-Key"), v)),
            None => {},
        }
        let body = if k == 10 {
            None
        } else {
            Some(JsonValue::Object(body))
        };
        Some(HttpRequest { action, method, path, body, headers })
    }

    /// Records the answer `response` (status `status`) to the current
    /// request, keeping the id or tag later requests need; fails, leaving
    /// the flow as it was, when the answer lacks such an id (see
    /// `flow_missing`).
    pub fn record(&mut self, status: u16, response: JsonValue) -> (r: Result<(), CliError>)
        requires
            old(self).steps@.len() < flow_length(),
        ensures
            match flow_missing(old(self).steps@.len() as int, *old(self), json_view(response)) {
                Some(step) => r matches Err(CliError::MissingField { step: s, field: f }) && s@ == step && f@ == "id"@
                    && *final(self) == *old(self),
                None => r is Ok && flow_recorded(
                    old(self).steps@.len() as int,
                    *old(self),
                    status,
                    json_view(response),
                    *final(self),
                ),
            },
    {
        let k = self.steps.len();
        let ghost before = *self;
        let request = self.next_request();
        let action: &'static str = match request {
            Some(req) => req.action,
            None => "",
        };
        if k == 1 || k == 2 || k == 4 {
            let step: &'static str = if k == 1 {
                "create_tag_definition_text"
            } else if k == 2 {
                "create_tag_definition_enum"
            } else {
                "create_external_entity_type"
            };
            match answer_i64(&response, "id") {
                None => {
                    return Err(CliError::MissingField { step, field: "id" });
                },
                Some(id) => {
                    if k == 1 {
                        self.owner_tag_definition_id = id;
                    } else if k == 2 {
                        self.enum_tag_definition_id = id;
                    } else {
                        self.external_entity_type_id = id;
                    }
                },
            }
        } else if k == 6 {
            match answer_i64(&self.steps[0].response, "id") {
                None => {
                    return Err(CliError::MissingField { step: "create_category", field: "id" });
                },
                Some(id) => {
                    self.category_id = id;
                },
            }
        } else if k == 8 {
            self.asset_tag = match answer_text(&response, "asset_tag") {
                Some(t) => t,
                None => String::from_str("AST-FLOW-001"),
            };
        }
        self.steps.push(StepResult { action, status_code: status, response });
        assert(self.steps@.take(k as int) == before.steps@);
        Ok(())
    }

    /// The answers recorded, in order.
    pub fn into_steps(self) -> (v: Vec<StepResult>)
        ensures
            v@ == self.steps@,
    {
        self.steps
    }
}

} // verus!

verus! {

/// The texts of character vectors.
pub open spec fn texts_of(v: Seq<Vec<char>>) -> Seq<Seq<char>> {
    v.map_values(|c: Vec<char>| c@)
}

/// Whether `t` is in lexicographic order without repeats.
pub open spec fn strictly_sorted(t: Seq<Seq<char>>) -> bool {
    forall|i: int, j: int| 0 <= i < j < t.len() ==> text_le(#[trigger] t[i], #[trigger] t[j]) && t[i] != t[j]
}

/// Adds `x`, not yet among the sorted texts `keys`, in its place.
fn insert_sorted_text(keys: &mut Vec<Vec<char>>, x: Vec<char>)
    requires
        strictly_sorted(texts_of(old(keys)@)),
        !texts_of(old(keys)@).contains(x@),
    ensures
        strictly_sorted(texts_of(final(keys)@)),
        forall|t: Seq<char>| texts_of(final(keys)@).contains(t) <==> (texts_of(old(keys)@).contains(t) || t == x@),
{
    let ghost old_t = texts_of(keys@);
    let mut p: usize = 0;
    while p < keys.len() && !text_le_exec(&x, &keys[p])
        invariant
            p <= keys@.len(),
            keys@ == old(keys)@,
            old_t == texts_of(keys@),
            forall|k: int| 0 <= k < p ==> !text_le(x@, #[trigger] old_t[k]),
        decreases keys.len() - p,
    {
        p = p + 1;
    }
    keys.insert(p, x);
    proof {
        let t = texts_of(keys@);
        assert(t == old_t.subrange(0, p as int).push(x@) + old_t.subrange(p as int, old_t.len() as int));
        assert(t.len() == old_t.len() + 1);
        assert forall|k: int| 0 <= k < t.len() implies #[trigger] t[k] == (if k < p {
            old_t[k]
        } else if k == p {
            x@
        } else {
            old_t[k - 1]
        }) by {}
        assert forall|i: int, j: int| 0 <= i < j < t.len() implies text_le(#[trigger] t[i], #[trigger] t[j]) && t[i]
            != t[j] by {
            if j == p {
                lemma_text_le_order(old_t[i], x@, x@);
                assert(!text_le(x@, old_t[i]));
                assert(old_t.contains(old_t[i]));
            } else if i == p {
                assert(old_t.contains(old_t[j - 1]));
                if p < old_t.len() {
                    assert(text_le(x@, old_t[p as int]));
                    if j - 1 > p {
                        lemma_text_le_order(x@, old_t[p as int], old_t[j - 1]);
                    }
                }
            } else if j < p {
            } else if i < p {
                assert(old_t.contains(old_t[i]));
            } else {
            }
        }
        assert forall|s: Seq<char>| t.contains(s) <==> (old_t.contains(s) || s == x@) by {
            if t.contains(s) {
                let k = choose|k: int| 0 <= k < t.len() && t[k] == s;
                if k < p {
                    assert(old_t[k] == s);
                } else if k > p {
                    assert(old_t[k - 1] == s);
                }
            }
            if old_t.contains(s) {
                let k = choose|k: int| 0 <= k < old_t.len() && old_t[k] == s;
                if k < p {
                    assert(t[k] == s);
                } else {
                    assert(t[k + 1] == s);
                }
            }
            if s == x@ {
                assert(t[p as int] == s);
            }
        }
    }
}

/// Whether `keys` lists the keys of `m` once each, in lexicographic order.
pub open spec fn sorted_keys_of(keys: Seq<Seq<char>>, m: Map<Seq<char>, JsonView>) -> bool {
    &&& strictly_sorted(keys)
    &&& forall|k: Seq<char>| m.contains_key(k) <==> keys.contains(k)
}

/// The keys of an object answer, sorted and joined with commas; nothing for
/// other answers.
pub fn top_level_keys(value: &JsonValue) -> (s: String)
    ensures
        match json_view(*value) {
            JsonView::Object(m) => exists|keys: Seq<Seq<char>>| sorted_keys_of(keys, m) && s@ == join_with(keys, ','),
            _ => s@.len() == 0,
        },
{
    let o = match value {
        JsonValue::Object(o) => o,
        _ => {
            return String::new();
        },
    };
    let n = o.len();
    let ghost es = o.entry_seq();
    let mut keys: Vec<Vec<char>> = Vec::new();
    let mut i: usize = 0;
    while i < n
        invariant
            i <= n,
            n == es.len(),
            es == o.entry_seq(),
            unique_keys(es),
            strictly_sorted(texts_of(keys@)),
            forall|t: Seq<char>| texts_of(keys@).contains(t) <==> exists|j: int| 0 <= j < i && (#[trigger] es[j]).0@ == t,
        decreases n - i,
    {
        let (k, _) = o.entry(i);
        let x = chars_of(k.as_str());
        proof {
            if texts_of(keys@).contains(x@) {
                let j = choose|j: int| 0 <= j < i && (#[trigger] es[j]).0@ == x@;
                assert(es[j].0@ != es[i as int].0@);
            }
        }
        insert_sorted_text(&mut keys, x);
        proof {
            assert forall|t: Seq<char>| texts_of(keys@).contains(t) <==> exists|j: int| 0 <= j < i + 1 && (#[trigger] es[j]).0@ == t by {
                if t == x@ {
                    assert(es[i as int].0@ == t);
                }
                if exists|j: int| 0 <= j < i + 1 && (#[trigger] es[j]).0@ == t {
                    let j = choose|j: int| 0 <= j < i + 1 && (#[trigger] es[j]).0@ == t;
                    if j < i {
                        assert(exists|j2: int| 0 <= j2 < i && (#[trigger] es[j2]).0@ == t);
                    }
                }
            }
        }
        i = i + 1;
    }
    let ghost t = texts_of(keys@);
    proof {
        assert forall|k: Seq<char>| o.view().contains_key(k) <==> t.contains(k) by {
            lemma_entries_map_dom(es, k);
        }
        assert(json_view(*value) == JsonView::Object(o.view()));
    }
    let mut s = String::new();
    let mut j: usize = 0;
    while j < keys.len()
        invariant
            j <= keys@.len(),
            t == texts_of(keys@),
            s@ == join_with(t.take(j as int), ','),
        decreases keys.len() - j,
    {
        proof {
            lemma_join_push(t.take(j as int), t[j as int], ',');
            assert(t.take(j + 1) == t.take(j as int).push(t[j as int]));
        }
        if j > 0 {
            push_char(&mut s, ',');
        }
        let part = string_of(&keys[j]);
        s.append(part.as_str());
        j = j + 1;
    }
    assert(t.take(t.len() as int) == t);
    assert(sorted_keys_of(t, o.view()));
    s
}

} // verus!
