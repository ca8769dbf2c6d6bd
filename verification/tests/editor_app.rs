use ham::ham_app::{init, Action, AssetColumn, HamApp, HamPage, Message, Settings};
use ham::shared::{Asset, AssetId, Category, CategoryId, CreateAssetParams, FieldId};

fn asset(id: i64, category: i64) -> Asset {
    Asset { id: AssetId(id), category_id: CategoryId(category), display_name: format!("asset {id}"), fields: vec![] }
}

fn category(id: i64) -> Category {
    Category { id: CategoryId(id), display_name: format!("category {id}"), parent_id: None, field_ids: vec![] }
}

fn loaded_fields(a: &Action) -> Option<String> {
    match a {
        Action::LoadAssets(p) => Some(p.field_ids.as_str().to_string()),
        _ => None,
    }
}

fn started() -> HamApp {
    let (mut app, _) = init(Settings::default());
    app.update(Message::CategoriesLoaded(vec![category(1), category(2)]));
    app.update(Message::AssetsLoaded(vec![asset(10, 1), asset(11, 1), asset(12, 2)]));
    app
}

#[test]
fn editor_starts_by_loading_everything() {
    let (app, actions) = init(Settings::default());
    assert_eq!(actions.len(), 3);
    assert_eq!(loaded_fields(&actions[0]), Some(String::new()));
    assert!(matches!(actions[1], Action::LoadCategories));
    assert!(matches!(actions[2], Action::LoadFields));
    assert_eq!(app.page, HamPage::Assets);
    assert_eq!(app.global.settings.asset_columns, vec![AssetColumn::Tag, AssetColumn::Category, AssetColumn::DisplayName]);
}

#[test]
fn loaded_lists_are_indexed_per_category() {
    let app = started();
    assert_eq!(app.global.index.category_asset_count(CategoryId(1)), Some(2));
    assert_eq!(app.global.index.category_asset_count(CategoryId(2)), Some(1));
    assert_eq!(app.global.index.category_asset_count(CategoryId(3)), None);
}

#[test]
fn created_asset_is_shown_on_the_new_asset_page() {
    let mut app = started();
    assert!(matches!(app.update(Message::ChangePage(HamPage::EditAsset(None))), Action::Nothing));
    assert!(app.global.asset_edit_mode);
    app.update(Message::AssetCreated(asset(13, 2)));
    assert_eq!(app.page, HamPage::EditAsset(Some(AssetId(13))));
    assert!(!app.global.asset_edit_mode);
    assert_eq!(app.global.index.category_asset_count(CategoryId(2)), Some(2));
}

#[test]
fn updated_asset_replaces_the_old_one() {
    let mut app = started();
    app.update(Message::SetAssetEditMode(true));
    app.update(Message::AssetUpdated(AssetId(11), asset(11, 2)));
    assert_eq!(app.global.assets[1].category_id, CategoryId(2));
    assert!(!app.global.asset_edit_mode);
    assert_eq!(app.global.index.category_asset_count(CategoryId(1)), Some(1));
    app.update(Message::CategoryDeleted(CategoryId(1)));
    assert_eq!(app.global.categories.len(), 1);
    assert_eq!(app.global.index.category_asset_count(CategoryId(1)), None);
}

#[test]
fn field_columns_toggle_sort_and_reload() {
    let mut app = started();
    let a = app.update(Message::ToggleFetchAssetField(FieldId(5), true));
    assert_eq!(loaded_fields(&a), Some("5".to_string()));
    let a = app.update(Message::ToggleFetchAssetField(FieldId(2), true));
    assert_eq!(loaded_fields(&a), Some("2,5".to_string()));
    assert_eq!(
        app.global.settings.asset_columns,
        vec![
            AssetColumn::Tag,
            AssetColumn::Category,
            AssetColumn::DisplayName,
            AssetColumn::Field(FieldId(2)),
            AssetColumn::Field(FieldId(5))
        ]
    );
    let a = app.update(Message::ToggleFetchAssetField(FieldId(2), true));
    assert_eq!(loaded_fields(&a), Some("2,5".to_string()));
    let a = app.update(Message::ToggleFetchAssetField(FieldId(5), false));
    assert_eq!(loaded_fields(&a), Some("2".to_string()));
}

#[test]
fn user_requests_go_to_the_server() {
    let mut app = started();
    let params = CreateAssetParams { category_id: CategoryId(1), display_name: "Router".to_string() };
    match app.update(Message::CreateAsset(params)) {
        Action::CreateAsset(p) => assert_eq!(p.display_name, "Router"),
        _ => panic!("expected a create request"),
    }
    assert!(matches!(app.update(Message::DeleteCategory(CategoryId(2))), Action::DeleteCategory(CategoryId(2))));
    app.update(Message::SelectCategory(CategoryId(2)));
    assert_eq!(app.global.categories_selection, Some(CategoryId(2)));
    assert_eq!(HamPage::EditAsset(None).title(), "New Asset");
    assert_eq!(HamPage::EditAsset(Some(AssetId(1))).title(), "Edit Asset");
}
