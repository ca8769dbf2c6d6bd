use ham::cli::{
    AssetCommand, AssetGetArgs, AssetUpdateArgs, CategoryCommand, CategoryCreateArgs, CliCommand,
    CliError, FlowCommand,
};
use ham::cli_run::{
    command_name, command_request, exit_code, request_url, top_level_keys, HttpMethod, ScriptedFlow,
};
use ham::json::{JsonNumber, JsonObject, JsonValue};

fn text(s: &str) -> JsonValue {
    JsonValue::String(s.to_string())
}

fn integer(i: i64) -> JsonValue {
    JsonValue::Number(JsonNumber::from_i64(i))
}

fn object(entries: &[(&str, JsonValue)]) -> JsonValue {
    let mut map = JsonObject::new();
    for (k, v) in entries {
        map.insert((*k).to_string(), v.clone());
    }
    JsonValue::Object(map)
}

#[test]
fn category_create_trims_name_and_sends_parent() {
    let command = CliCommand::Category {
        category: CategoryCommand::Create(CategoryCreateArgs {
            name: "  Servers ".to_string(),
            parent_id: Some(10),
        }),
    };
    let request = command_request(&command).unwrap().unwrap();
    assert_eq!(request.action, "category_create");
    assert_eq!(request.method, HttpMethod::Post);
    assert_eq!(request.path, "/categories");
    assert_eq!(
        request.body,
        Some(object(&[("name", text("Servers")), ("parent_category_id", integer(10))]))
    );
    assert!(request.headers.is_empty());
    assert_eq!(command_name(&command), "category create");
}

#[test]
fn category_create_refuses_blank_name() {
    let command = CliCommand::Category {
        category: CategoryCommand::Create(CategoryCreateArgs {
            name: "   ".to_string(),
            parent_id: None,
        }),
    };
    match command_request(&command) {
        Err(CliError::Validation { step, message }) => {
            assert_eq!(step, "category_create");
            assert_eq!(message, "name must not be blank");
        }
        other => panic!("unexpected {other:?}"),
    }
}

#[test]
fn asset_requests_use_ids_in_paths() {
    let get = CliCommand::Asset {
        asset: AssetCommand::Get(AssetGetArgs {
            id: 7,
            include_deleted: true,
        }),
    };
    let request = command_request(&get).unwrap().unwrap();
    assert_eq!(request.path, "/assets/7?include_deleted=true");
    assert_eq!(request.method, HttpMethod::Get);
    assert_eq!(request.body, None);

    let delete = CliCommand::Category {
        category: CategoryCommand::Delete(ham::cli::CategoryDeleteArgs { id: 42 }),
    };
    let request = command_request(&delete).unwrap().unwrap();
    assert_eq!(request.path, "/categories/42");
    assert_eq!(request.method, HttpMethod::Delete);
}

#[test]
fn asset_update_needs_exactly_one_change() {
    let both = CliCommand::Asset {
        asset: AssetCommand::Update(AssetUpdateArgs {
            id: 1,
            display_name: Some("Core".to_string()),
            clear_display_name: true,
        }),
    };
    match command_request(&both) {
        Err(CliError::Validation { message, .. }) => assert_eq!(
            message,
            "--display-name and --clear-display-name cannot be used together"
        ),
        other => panic!("unexpected {other:?}"),
    }
    let neither = CliCommand::Asset {
        asset: AssetCommand::Update(AssetUpdateArgs {
            id: 1,
            display_name: None,
            clear_display_name: false,
        }),
    };
    match command_request(&neither) {
        Err(CliError::Validation { message, .. }) => assert_eq!(
            message,
            "at least one update field is required (--display-name or --clear-display-name)"
        ),
        other => panic!("unexpected {other:?}"),
    }
    let clear = CliCommand::Asset {
        asset: AssetCommand::Update(AssetUpdateArgs {
            id: 3,
            display_name: None,
            clear_display_name: true,
        }),
    };
    let request = command_request(&clear).unwrap().unwrap();
    assert_eq!(request.method, HttpMethod::Patch);
    assert_eq!(request.path, "/assets/3");
    assert_eq!(
        request.body,
        Some(object(&[("clear_display_name", JsonValue::Bool(true))]))
    );
}

#[test]
fn flow_command_makes_no_single_request() {
    let flow = CliCommand::Flow {
        flow: FlowCommand::ScriptedCore,
    };
    assert!(command_request(&flow).unwrap().is_none());
}

#[test]
fn request_url_drops_trailing_slashes_of_base() {
    assert_eq!(
        request_url("http://example.test:8080//", "/assets"),
        "http://example.test:8080/assets"
    );
    assert_eq!(request_url("http://h", "/x"), "http://h/x");
}

#[test]
fn scripted_flow_carries_ids_between_requests() {
    let mut flow = ScriptedFlow::new();
    let answers = vec![
        object(&[("id", integer(12))]),
        object(&[("id", integer(10))]),
        object(&[("id", integer(11))]),
        object(&[("id", integer(1))]),
        object(&[("id", integer(5))]),
        object(&[("id", integer(6))]),
        object(&[("id", integer(7))]),
        object(&[("event_type_id", text("asset.set-owner"))]),
        object(&[("asset_tag", text("AST-9"))]),
        object(&[("event_id", integer(1))]),
        object(&[("items", JsonValue::Array(vec![]))]),
        object(&[("items", JsonValue::Array(vec![]))]),
    ];
    let mut actions = Vec::new();
    for answer in answers {
        let request = flow.next_request().unwrap();
        actions.push(request.action);
        if request.action == "create_enum_option" {
            assert_eq!(
                request.body,
                Some(object(&[
                    ("tag_definition_id", integer(11)),
                    ("option_key", text("active")),
                    ("display_name", text("Active")),
                    ("sort_order", integer(0)),
                ]))
            );
        }
        if request.action == "create_asset" {
            assert_eq!(
                request.body,
                Some(object(&[
                    ("category_id", integer(12)),
                    ("asset_tag", text("AST-FLOW-001")),
                ]))
            );
        }
        if request.action == "apply_event" {
            assert_eq!(request.path, "/assets/AST-9/events");
            assert_eq!(
                request.headers,
                vec![("Idempotency-Key".to_string(), "ham-flow-001".to_string())]
            );
        }
        if request.action == "fetch_timeline" {
            assert_eq!(request.path, "/assets/AST-9/events?limit=10");
            assert_eq!(request.method, HttpMethod::Get);
        }
        flow.record(200, answer).unwrap();
    }
    assert!(flow.next_request().is_none());
    assert_eq!(
        actions,
        vec![
            "create_category",
            "create_tag_definition_text",
            "create_tag_definition_enum",
            "create_enum_option",
            "create_external_entity_type",
            "create_external_entity",
            "create_tag_definition_external_entity",
            "create_event_type",
            "create_asset",
            "apply_event",
            "fetch_timeline",
            "run_search",
        ]
    );
    let steps = flow.into_steps();
    assert_eq!(steps.len(), 12);
    assert_eq!(steps[8].response, object(&[("asset_tag", text("AST-9"))]));
}

#[test]
fn scripted_flow_reports_missing_ids() {
    let mut flow = ScriptedFlow::new();
    flow.record(201, object(&[("name", text("Network"))])).unwrap();
    let err = flow.record(201, JsonValue::Null).unwrap_err();
    match err {
        CliError::MissingField { step, field } => {
            assert_eq!(step, "create_tag_definition_text");
            assert_eq!(field, "id");
        }
        other => panic!("unexpected {other:?}"),
    }
}

#[test]
fn top_level_keys_are_sorted() {
    let value = object(&[("b", integer(1)), ("a", integer(2)), ("c", JsonValue::Null)]);
    assert_eq!(top_level_keys(&value), "a,b,c");
    assert_eq!(top_level_keys(&integer(3)), "");
    assert_eq!(top_level_keys(&object(&[])), "");
}

#[test]
fn run_command_unsupported_returns_controlled_error_exit_code() {
    let command = CliCommand::Asset { asset: AssetCommand::List(ham::cli::AssetListArgs { include_deleted: false }) };
    assert_eq!(exit_code(&command, false), 2);
}

#[test]
fn exit_codes_by_outcome() {
    let flow = CliCommand::Flow { flow: FlowCommand::ScriptedCore };
    assert_eq!(exit_code(&flow, true), 0);
    assert_eq!(exit_code(&flow, false), 1);
    let list = CliCommand::Category { category: CategoryCommand::List };
    assert_eq!(exit_code(&list, true), 0);
    assert_eq!(exit_code(&list, false), 1);
    let update = CliCommand::Asset {
        asset: AssetCommand::Update(AssetUpdateArgs {
            id: 9,
            display_name: Some("Core Router".to_string()),
            clear_display_name: true,
        }),
    };
    assert_eq!(exit_code(&update, false), 1);
}
