use ham::cli::{
    asset_command_label, error_output, format_unsupported_command_human, human_command_error_line,
    human_flow_error_line, should_print_help, unsupported_command_output, AssetCommand,
    AssetCreateArgs, AssetDeleteArgs, AssetGetArgs, AssetListArgs, AssetUpdateArgs,
    CategoryCommand, CategoryCreateArgs, CategoryDeleteArgs, CliArgs, CliCommand, CliError,
    ErrorKind, FlowCommand, GuiCli, OutputMode, ServerCli,
};

#[test]
fn main_parse_supports_help_flag() {
    let err = CliArgs::try_parse_from(&["cli", "--help"]).unwrap_err();
    assert_eq!(err.kind(), ErrorKind::DisplayHelp);
    let err = GuiCli::try_parse_from(&["gui", "-h"]).unwrap_err();
    assert_eq!(err.kind(), ErrorKind::DisplayHelp);
    let err = ServerCli::try_parse_from(&["server", "--help"]).unwrap_err();
    assert_eq!(err.kind(), ErrorKind::DisplayHelp);
}

#[test]
fn main_parse_accepts_no_flags() {
    assert!(GuiCli::try_parse_from(&["gui"]).is_ok());
    assert!(ServerCli::try_parse_from(&["server"]).is_ok());
}

#[test]
fn parse_accepts_no_flags() {
    let parsed = ServerCli::try_parse_from(&["server"]);
    assert!(parsed.is_ok());
    let parsed = GuiCli::try_parse_from(&["gui"]);
    assert!(parsed.is_ok());
}

#[test]
fn main_parse_rejects_unknown_flags() {
    let err = GuiCli::try_parse_from(&["gui", "--windowed"]).unwrap_err();
    assert_eq!(err.kind(), ErrorKind::UnknownArgument);
    let err = ServerCli::try_parse_from(&["server", "--port", "3000"]).unwrap_err();
    assert_eq!(err.kind(), ErrorKind::UnknownArgument);
}

#[test]
fn parse_rejects_missing_subcommand() {
    let err = CliArgs::try_parse_from(&["cli", "--output", "human"]).unwrap_err();
    assert_eq!(err.kind(), ErrorKind::MissingSubcommand);
}

#[test]
fn parse_scripted_core_flow_and_options() {
    let parsed = CliArgs::try_parse_from(&[
        "cli",
        "--output",
        "human",
        "--base-url",
        "http://example.test:8080",
        "flow",
        "scripted-core",
    ])
    .unwrap();

    assert!(matches!(parsed.output, OutputMode::Human));
    assert_eq!(parsed.base_url, "http://example.test:8080");
    assert!(matches!(
        parsed.command,
        CliCommand::Flow {
            flow: FlowCommand::ScriptedCore
        }
    ));
}

#[test]
fn parse_category_create_with_parent_id() {
    let parsed = CliArgs::try_parse_from(&[
        "cli",
        "category",
        "create",
        "--name",
        "Servers",
        "--parent-id",
        "10",
    ])
    .unwrap();

    assert!(matches!(
        parsed.command,
        CliCommand::Category {
            category: CategoryCommand::Create(CategoryCreateArgs {
                name,
                parent_id: Some(10)
            })
        } if name == "Servers"
    ));
}

#[test]
fn parse_category_create_rejects_non_numeric_parent_id() {
    let err = CliArgs::try_parse_from(&[
        "cli",
        "category",
        "create",
        "--name",
        "Servers",
        "--parent-id",
        "not-a-number",
    ])
    .unwrap_err();

    let rendered = err.to_string();
    assert!(rendered.contains("--parent-id"));
    assert!(rendered.contains("not-a-number"));
}

#[test]
fn parse_category_list() {
    let parsed = CliArgs::try_parse_from(&["cli", "category", "list"]).unwrap();

    assert!(matches!(
        parsed.command,
        CliCommand::Category {
            category: CategoryCommand::List
        }
    ));
}

#[test]
fn parse_category_delete() {
    let parsed = CliArgs::try_parse_from(&["cli", "category", "delete", "--id", "42"]).unwrap();

    assert!(matches!(
        parsed.command,
        CliCommand::Category {
            category: CategoryCommand::Delete(CategoryDeleteArgs { id: 42 })
        }
    ));
}

#[test]
fn parse_category_delete_rejects_positional_id() {
    let err = CliArgs::try_parse_from(&["cli", "category", "delete", "42"]).unwrap_err();

    let rendered = err.to_string();
    assert!(rendered.contains("42"));
    assert!(rendered.contains("--id"));
}

#[test]
fn parse_asset_create() {
    let parsed = CliArgs::try_parse_from(&[
        "cli",
        "asset",
        "create",
        "--category-id",
        "3",
        "--asset-tag",
        "AST-100",
    ])
    .unwrap();

    assert!(matches!(
        parsed.command,
        CliCommand::Asset {
            asset: AssetCommand::Create(AssetCreateArgs {
                category_id: 3,
                asset_tag: Some(asset_tag)
            })
        } if asset_tag == "AST-100"
    ));
}

#[test]
fn parse_asset_create_without_optional_asset_tag() {
    let parsed =
        CliArgs::try_parse_from(&["cli", "asset", "create", "--category-id", "3"]).unwrap();

    assert!(matches!(
        parsed.command,
        CliCommand::Asset {
            asset: AssetCommand::Create(AssetCreateArgs {
                category_id: 3,
                asset_tag: None
            })
        }
    ));
}

#[test]
fn parse_asset_create_rejects_display_name() {
    let err = CliArgs::try_parse_from(&[
        "cli",
        "asset",
        "create",
        "--category-id",
        "3",
        "--display-name",
        "Core Router",
    ])
    .unwrap_err();

    let rendered = err.to_string();
    assert!(rendered.contains("--display-name"));
}

#[test]
fn parse_asset_get_with_include_deleted() {
    let parsed =
        CliArgs::try_parse_from(&["cli", "asset", "get", "--id", "9", "--include-deleted"])
            .unwrap();

    assert!(matches!(
        parsed.command,
        CliCommand::Asset {
            asset: AssetCommand::Get(AssetGetArgs {
                id: 9,
                include_deleted: true
            })
        }
    ));
}

#[test]
fn parse_asset_get_rejects_positional_id() {
    let err = CliArgs::try_parse_from(&["cli", "asset", "get", "9"]).unwrap_err();

    let rendered = err.to_string();
    assert!(rendered.contains("9"));
    assert!(rendered.contains("--id"));
}

#[test]
fn parse_asset_list_with_include_deleted() {
    let parsed =
        CliArgs::try_parse_from(&["cli", "asset", "list", "--include-deleted"]).unwrap();

    assert!(matches!(
        parsed.command,
        CliCommand::Asset {
            asset: AssetCommand::List(AssetListArgs {
                include_deleted: true
            })
        }
    ));
}

#[test]
fn parse_asset_update_display_name() {
    let parsed = CliArgs::try_parse_from(&[
        "cli",
        "asset",
        "update",
        "--id",
        "9",
        "--display-name",
        "Core Router",
    ])
    .unwrap();

    assert!(matches!(
        parsed.command,
        CliCommand::Asset {
            asset: AssetCommand::Update(AssetUpdateArgs {
                id: 9,
                display_name: Some(name),
                clear_display_name: false
            })
        } if name == "Core Router"
    ));
}

#[test]
fn parse_asset_update_clear_display_name() {
    let parsed = CliArgs::try_parse_from(&[
        "cli",
        "asset",
        "update",
        "--id",
        "9",
        "--clear-display-name",
    ])
    .unwrap();

    assert!(matches!(
        parsed.command,
        CliCommand::Asset {
            asset: AssetCommand::Update(AssetUpdateArgs {
                id: 9,
                display_name: None,
                clear_display_name: true
            })
        }
    ));
}

#[test]
fn parse_asset_update_rejects_positional_id() {
    let err = CliArgs::try_parse_from(&[
        "cli",
        "asset",
        "update",
        "9",
        "--display-name",
        "Core Router",
    ])
    .unwrap_err();

    let rendered = err.to_string();
    assert!(rendered.contains("9"));
    assert!(rendered.contains("--id"));
}

#[test]
fn parse_asset_delete() {
    let parsed = CliArgs::try_parse_from(&["cli", "asset", "delete", "--id", "9"]).unwrap();

    assert!(matches!(
        parsed.command,
        CliCommand::Asset {
            asset: AssetCommand::Delete(AssetDeleteArgs { id: 9 })
        }
    ));
}

#[test]
fn parse_asset_delete_rejects_positional_id() {
    let err = CliArgs::try_parse_from(&["cli", "asset", "delete", "9"]).unwrap_err();

    let rendered = err.to_string();
    assert!(rendered.contains("9"));
    assert!(rendered.contains("--id"));
}

#[test]
fn render_error_human_for_non_flow_is_stable() {
    let rendered = format_unsupported_command_human("asset.delete");
    assert_eq!(
        rendered,
        "ERROR code=NOT_IMPLEMENTED command=asset.delete message=command is parsed but not implemented yet; use `flow scripted-core`"
    );
}

#[test]
fn detects_long_help_flag() {
    let args = vec!["--help".to_string()];
    assert!(should_print_help(&args));
}

#[test]
fn detects_short_help_flag() {
    let args = vec!["-h".to_string()];
    assert!(should_print_help(&args));
}

#[test]
fn ignores_non_help_flags() {
    let args = vec!["--port".to_string(), "3000".to_string()];
    assert!(!should_print_help(&args));
}

#[test]
fn bare_command_line_shows_help() {
    let err = CliArgs::try_parse_from(&["cli"]).unwrap_err();
    assert_eq!(err.kind(), ErrorKind::DisplayHelpOnMissingArgumentOrSubcommand);
    let err = CliArgs::try_parse_from(&["cli", "category"]).unwrap_err();
    assert_eq!(err.kind(), ErrorKind::DisplayHelpOnMissingArgumentOrSubcommand);
}

#[test]
fn defaults_apply_when_options_are_absent() {
    let parsed = CliArgs::try_parse_from(&["cli", "category", "list"]).unwrap();
    assert_eq!(parsed.output, OutputMode::Json);
    assert_eq!(parsed.base_url, "http://127.0.0.1:3000");
    assert!(parsed.db_path.is_none());
}

#[test]
fn equals_form_and_repeated_options() {
    let parsed =
        CliArgs::try_parse_from(&["cli", "--output=human", "asset", "get", "--id=7"]).unwrap();
    assert_eq!(parsed.output, OutputMode::Human);
    assert!(matches!(
        parsed.command,
        CliCommand::Asset {
            asset: AssetCommand::Get(AssetGetArgs { id: 7, include_deleted: false })
        }
    ));

    let err = CliArgs::try_parse_from(&["cli", "asset", "get", "--id", "1", "--id", "2"]).unwrap_err();
    assert_eq!(err.kind(), ErrorKind::ArgumentConflict);
    assert!(err.to_string().contains("cannot be used multiple times"));

    let err = CliArgs::try_parse_from(&["cli", "asset", "list", "--include-deleted=yes"]).unwrap_err();
    assert_eq!(err.kind(), ErrorKind::TooManyValues);
}

#[test]
fn parse_errors_have_the_expected_kinds() {
    let err = CliArgs::try_parse_from(&["cli", "asset", "delete"]).unwrap_err();
    assert_eq!(err.kind(), ErrorKind::MissingRequiredArgument);
    assert!(err.to_string().contains("--id <ID>"));

    let err = CliArgs::try_parse_from(&["cli", "asset", "explode"]).unwrap_err();
    assert_eq!(err.kind(), ErrorKind::InvalidSubcommand);

    let err = CliArgs::try_parse_from(&["cli", "--output", "xml", "flow", "scripted-core"]).unwrap_err();
    assert_eq!(err.kind(), ErrorKind::InvalidValue);
    assert!(err.to_string().contains("possible values: json, human"));

    let err = CliArgs::try_parse_from(&["cli", "category", "create", "--name"]).unwrap_err();
    assert_eq!(err.kind(), ErrorKind::MissingValue);

    let err = CliArgs::try_parse_from(&["cli", "category", "list", "--output", "json"]).unwrap_err();
    assert_eq!(err.kind(), ErrorKind::UnknownArgument);

    let err = CliArgs::try_parse_from(&["cli", "asset", "get", "--id", "99999999999999999999"]).unwrap_err();
    assert_eq!(err.kind(), ErrorKind::InvalidValue);
    assert!(err.to_string().contains("number too large to fit in target type"));

    let err = CliArgs::try_parse_from(&["cli", "help"]).unwrap_err();
    assert_eq!(err.kind(), ErrorKind::DisplayHelp);
}

#[test]
fn labels_and_error_lines() {
    let cmd = AssetCommand::Update(AssetUpdateArgs {
        id: 1,
        display_name: None,
        clear_display_name: true,
    });
    assert_eq!(asset_command_label(&cmd), "asset.update");

    let out = unsupported_command_output("category.list");
    assert!(!out.ok);
    assert_eq!(out.error.code, "NOT_IMPLEMENTED");
    assert_eq!(out.error.command, "category.list");

    let err = CliError::Http {
        step: "create_category",
        status_code: Some(400),
        message: "bad".to_string(),
    };
    let block = error_output(&err).unwrap();
    assert_eq!(
        human_flow_error_line(&block),
        "ERROR code=HTTP_ERROR step=create_category status=Some(400) message=bad"
    );
    let missing = CliError::MissingField { step: "create_asset", field: "id" };
    let block = error_output(&missing).unwrap();
    assert_eq!(block.message, "missing required field `id`");
    assert_eq!(
        human_command_error_line("asset create", &block),
        "ERROR command=asset create code=INVALID_RESPONSE step=create_asset status=None message=missing required field `id`"
    );
    assert!(error_output(&CliError::UnsupportedCommand { command: "asset.list" }).is_none());
}

fn unsupported_json(command: &'static str) -> serde_json::Value {
    let out = unsupported_command_output(command);
    let mut error = serde_json::Map::new();
    error.insert("code".to_string(), serde_json::Value::String(out.error.code.to_string()));
    error.insert("command".to_string(), serde_json::Value::String(out.error.command.to_string()));
    error.insert("message".to_string(), serde_json::Value::String(out.error.message.to_string()));
    let mut body = serde_json::Map::new();
    body.insert("ok".to_string(), serde_json::Value::Bool(out.ok));
    body.insert("error".to_string(), serde_json::Value::Object(error));
    serde_json::Value::Object(body)
}

#[test]
fn render_error_json_for_non_flow_is_stable() {
    let rendered = serde_json::to_string_pretty(&unsupported_json("category.list")).unwrap();
    let parsed = serde_json::from_str::<serde_json::Value>(&rendered).unwrap();

    let mut error = serde_json::Map::new();
    error.insert("code".to_string(), serde_json::Value::String("NOT_IMPLEMENTED".to_string()));
    error.insert("command".to_string(), serde_json::Value::String("category.list".to_string()));
    error.insert(
        "message".to_string(),
        serde_json::Value::String("command is parsed but not implemented yet; use `flow scripted-core`".to_string()),
    );
    let mut expected = serde_json::Map::new();
    expected.insert("ok".to_string(), serde_json::Value::Bool(false));
    expected.insert("error".to_string(), serde_json::Value::Object(error));
    assert_eq!(parsed, serde_json::Value::Object(expected));
}
