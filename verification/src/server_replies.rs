//! The answers of the server's create, update and search handlers, decided
//! from what the store answered.
use vstd::prelude::*;
use crate::search::AssetSearchError;
use crate::server::{internal_error, reply, reply_bare, reply_is, HttpReply};
use crate::server_db::{asset_create_error_text, AssetCreateError};

verus! {

/// What a create request makes.
#[derive(Debug, Clone, Copy, PartialEq, Eq, Structural)]
pub enum CreatedKind {
    Category,
    TagDefinition,
    TagEnumOption,
    ExternalEntityType,
    ExternalEntity,
}

/// The reason code of a create request whose insert breaks a constraint.
pub open spec fn conflict_code(kind: CreatedKind) -> Seq<char> {
    match kind {
        CreatedKind::Category => "CATEGORY_CREATE_CONFLICT"@,
        CreatedKind::TagDefinition => "TAG_DEFINITION_CREATE_CONFLICT"@,
        CreatedKind::TagEnumOption => "TAG_ENUM_OPTION_CREATE_CONFLICT"@,
        CreatedKind::ExternalEntityType => "EXTERNAL_ENTITY_TYPE_CREATE_CONFLICT"@,
        CreatedKind::ExternalEntity => "EXTERNAL_ENTITY_CREATE_CONFLICT"@,
    }
}

/// The message of a create request whose insert breaks a constraint.
pub open spec fn conflict_message(kind: CreatedKind) -> Seq<char> {
    match kind {
        CreatedKind::Category => "category create constraint violation"@,
        CreatedKind::TagDefinition => "tag definition create constraint violation"@,
        CreatedKind::TagEnumOption => "tag enum option create constraint violation"@,
        CreatedKind::ExternalEntityType => "external entity type create constraint violation"@,
        CreatedKind::ExternalEntity => "external entity create constraint violation"@,
    }
}

/// The answer to a create request whose insert failed: 409 with the kind's
/// conflict code where the store refused a constraint, 500 with the store's
/// message otherwise.
pub fn create_failure_reply(kind: CreatedKind, constraint_violation: bool, message: String) -> (r: HttpReply)
    ensures
        constraint_violation ==> reply_is(r, 409, conflict_code(kind), conflict_message(kind)),
        !constraint_violation ==> reply_is(r, 500, "INTERNAL_ERROR"@, message@),
{
    if !constraint_violation {
        return internal_error(message);
    }
    match kind {
        CreatedKind::Category => reply(409, "CATEGORY_CREATE_CONFLICT", String::from_str("category create constraint violation")),
        CreatedKind::TagDefinition => reply(
            409,
            "TAG_DEFINITION_CREATE_CONFLICT",
            String::from_str("tag definition create constraint violation"),
        ),
        CreatedKind::TagEnumOption => reply(
            409,
            "TAG_ENUM_OPTION_CREATE_CONFLICT",
            String::from_str("tag enum option create constraint violation"),
        ),
        CreatedKind::ExternalEntityType => reply(
            409,
            "EXTERNAL_ENTITY_TYPE_CREATE_CONFLICT",
            String::from_str("external entity type create constraint violation"),
        ),
        CreatedKind::ExternalEntity => reply(
            409,
            "EXTERNAL_ENTITY_CREATE_CONFLICT",
            String::from_str("external entity create constraint violation"),
        ),
    }
}

/// The answer to an asset creation that failed: 409 `DUPLICATE_ASSET_TAG`
/// for a tag already taken, 500 with the error's text otherwise.
pub fn asset_create_failure_reply(e: &AssetCreateError) -> (r: HttpReply)
    ensures
        match *e {
            AssetCreateError::DuplicateAssetTag(t) => reply_is(
                r,
                409,
                "DUPLICATE_ASSET_TAG"@,
                "asset tag `"@ + t@ + "` already exists"@,
            ),
            AssetCreateError::Sql(_) => reply_is(r, 500, "INTERNAL_ERROR"@, asset_create_error_text(*e)),
        },
{
    match e {
        AssetCreateError::DuplicateAssetTag(t) => {
            let mut m = String::from_str("asset tag `");
            m.append(t.as_str());
            m.append("` already exists");
            reply(409, "DUPLICATE_ASSET_TAG", m)
        },
        AssetCreateError::Sql(_) => internal_error(e.to_string()),
    }
}

/// The answer to a search that failed: 400 `INVALID_SEARCH_REQUEST` with the
/// reason for a refused request, 500 for a failure of the store.
pub fn search_failure_reply(e: &AssetSearchError) -> (r: HttpReply)
    ensures
        match *e {
            AssetSearchError::InvalidRequest(m) => reply_is(r, 400, "INVALID_SEARCH_REQUEST"@, m@),
            AssetSearchError::Sql(m) => reply_is(r, 500, "INTERNAL_ERROR"@, m@),
        },
{
    match e {
        AssetSearchError::InvalidRequest(m) => reply(400, "INVALID_SEARCH_REQUEST", m.clone()),
        AssetSearchError::Sql(m) => internal_error(m.clone()),
    }
}

/// The answer to an asset update that carries tag values, before anything is
/// read: 409, tag values change only through events.
pub fn asset_update_precheck(tag_values_given: bool) -> (r: Option<HttpReply>)
    ensures
        tag_values_given ==> (r matches Some(x) && reply_is(
            x,
            409,
            "ASSET_TAG_VALUES_UPDATE_FORBIDDEN"@,
            "tag values must be updated via event apply"@,
        )),
        !tag_values_given ==> r is None,
{
    if tag_values_given {
        Some(reply(409, "ASSET_TAG_VALUES_UPDATE_FORBIDDEN", String::from_str("tag values must be updated via event apply")))
    } else {
        None
    }
}

/// What an asset update does to the stored asset.
#[derive(Debug, Clone, PartialEq, Eq)]
pub enum AssetUpdateStep {
    Refuse(HttpReply),
    ClearDisplayName,
    SetDisplayName(String),
    KeepDisplayName,
}

/// What an update does, given the asset's stored deletion time (`None` where
/// no asset has the id): 404 for a missing asset, 410 for a soft-deleted
/// one; otherwise the display name is cleared when asked, else set when
/// given, else kept (the answer is then 204).
pub fn asset_update_step(
    stored_deleted_at: Option<Option<String>>,
    clear_display_name: bool,
    display_name: Option<String>,
) -> (r: AssetUpdateStep)
    ensures
        match stored_deleted_at {
            None => r matches AssetUpdateStep::Refuse(x) && reply_bare(x, 404),
            Some(Some(_)) => r matches AssetUpdateStep::Refuse(x) && reply_is(
                x,
                410,
                "ASSET_SOFT_DELETED"@,
                "asset is soft-deleted"@,
            ),
            Some(None) => if clear_display_name {
                r is ClearDisplayName
            } else {
                match display_name {
                    Some(n) => r matches AssetUpdateStep::SetDisplayName(m) && m == n,
                    None => r is KeepDisplayName,
                }
            },
        },
{
    match stored_deleted_at {
        None => AssetUpdateStep::Refuse(HttpReply { status: 404, reason_code: None, message: None }),
        Some(Some(_)) => AssetUpdateStep::Refuse(reply(410, "ASSET_SOFT_DELETED", String::from_str("asset is soft-deleted"))),
        Some(None) => if clear_display_name {
            AssetUpdateStep::ClearDisplayName
        } else {
            match display_name {
                Some(n) => AssetUpdateStep::SetDisplayName(n),
                None => AssetUpdateStep::KeepDisplayName,
            }
        },
    }
}

} // verus!
