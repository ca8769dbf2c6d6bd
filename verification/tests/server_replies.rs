use ham::search::AssetSearchError;
use ham::server::HttpReply;
use ham::server_db::AssetCreateError;
use ham::server_replies::{
    asset_create_failure_reply, asset_update_precheck, asset_update_step, create_failure_reply, search_failure_reply,
    AssetUpdateStep, CreatedKind,
};

fn answer(status: u16, code: &str, message: &str) -> HttpReply {
    HttpReply { status, reason_code: Some(code.to_string()), message: Some(message.to_string()) }
}

#[test]
fn create_conflicts_are_named_after_what_was_created() {
    assert_eq!(
        create_failure_reply(CreatedKind::Category, true, "UNIQUE constraint failed".to_string()),
        answer(409, "CATEGORY_CREATE_CONFLICT", "category create constraint violation")
    );
    assert_eq!(
        create_failure_reply(CreatedKind::TagEnumOption, true, String::new()),
        answer(409, "TAG_ENUM_OPTION_CREATE_CONFLICT", "tag enum option create constraint violation")
    );
    assert_eq!(
        create_failure_reply(CreatedKind::ExternalEntityType, true, String::new()),
        answer(409, "EXTERNAL_ENTITY_TYPE_CREATE_CONFLICT", "external entity type create constraint violation")
    );
    assert_eq!(
        create_failure_reply(CreatedKind::TagDefinition, false, "disk I/O error".to_string()),
        answer(500, "INTERNAL_ERROR", "disk I/O error")
    );
}

#[test]
fn asset_creation_failures() {
    assert_eq!(
        asset_create_failure_reply(&AssetCreateError::DuplicateAssetTag("HAM-0001".to_string())),
        answer(409, "DUPLICATE_ASSET_TAG", "asset tag `HAM-0001` already exists")
    );
    assert_eq!(
        asset_create_failure_reply(&AssetCreateError::Sql("locked".to_string())),
        answer(500, "INTERNAL_ERROR", "database error: locked")
    );
}

#[test]
fn search_failures() {
    assert_eq!(
        search_failure_reply(&AssetSearchError::InvalidRequest("invalid cursor".to_string())),
        answer(400, "INVALID_SEARCH_REQUEST", "invalid cursor")
    );
    assert_eq!(search_failure_reply(&AssetSearchError::Sql("gone".to_string())), answer(500, "INTERNAL_ERROR", "gone"));
}

#[test]
fn asset_updates_refuse_tag_values_and_deleted_assets() {
    assert_eq!(
        asset_update_precheck(true),
        Some(answer(409, "ASSET_TAG_VALUES_UPDATE_FORBIDDEN", "tag values must be updated via event apply"))
    );
    assert_eq!(asset_update_precheck(false), None);
    assert_eq!(
        asset_update_step(None, false, None),
        AssetUpdateStep::Refuse(HttpReply { status: 404, reason_code: None, message: None })
    );
    assert_eq!(
        asset_update_step(Some(Some("2024-01-01 00:00:00".to_string())), true, None),
        AssetUpdateStep::Refuse(answer(410, "ASSET_SOFT_DELETED", "asset is soft-deleted"))
    );
    assert_eq!(asset_update_step(Some(None), true, Some("x".to_string())), AssetUpdateStep::ClearDisplayName);
    assert_eq!(
        asset_update_step(Some(None), false, Some("Drill".to_string())),
        AssetUpdateStep::SetDisplayName("Drill".to_string())
    );
    assert_eq!(asset_update_step(Some(None), false, None), AssetUpdateStep::KeepDisplayName);
}
