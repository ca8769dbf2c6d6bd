use ham::ham_app::{init, Message, Settings};
use ham::ham_pages::{
    asset_category_label, asset_count_label, asset_id_label, asset_save_message, category_row,
    chosen_category_label, create_subcategory_message, delete_category_notice,
};
use ham::shared::{Asset, AssetId, Category, CategoryId};

fn asset(id: i64, category: i64) -> Asset {
    Asset { id: AssetId(id), category_id: CategoryId(category), display_name: format!("asset {id}"), fields: vec![] }
}

fn category(id: i64, name: &str, parent: Option<i64>) -> Category {
    Category { id: CategoryId(id), display_name: name.to_string(), parent_id: parent.map(CategoryId), field_ids: vec![] }
}

fn editor() -> ham::ham_app::HamApp {
    let (mut app, _) = init(Settings::default());
    app.update(Message::CategoriesLoaded(vec![
        category(1, "Tools", None),
        category(2, "Drills", Some(1)),
        category(3, "Cordless", Some(2)),
    ]));
    app.update(Message::AssetsLoaded(vec![asset(7, 2), asset(42, 9)]));
    app
}

#[test]
fn lookups_find_the_first_match() {
    let app = editor();
    assert_eq!(app.global.asset(AssetId(42)).map(|a| a.category_id), Some(CategoryId(9)));
    assert!(app.global.asset(AssetId(5)).is_none());
    assert_eq!(app.global.category(CategoryId(2)).map(|c| c.display_name.clone()), Some("Drills".to_string()));
    assert!(app.global.category(CategoryId(8)).is_none());
    assert!(app.global.field(ham::shared::FieldId(1)).is_none());
}

#[test]
fn editor_asset_tags_are_padded_to_four_digits() {
    let app = editor();
    assert_eq!(app.global.format_asset_tag(AssetId(7)), "A0007");
    assert_eq!(app.global.format_asset_tag(AssetId(12345)), "A12345");
    assert_eq!(app.global.format_asset_tag(AssetId(-5)), "A-005");
}

#[test]
fn asset_page_labels() {
    let app = editor();
    let drill = asset(7, 2);
    let lost = asset(42, 9);
    assert_eq!(asset_id_label(Some(&drill)), "7");
    assert_eq!(asset_id_label(None), "New asset");
    assert_eq!(asset_category_label(&app.global, Some(&drill)), "Drills");
    assert_eq!(asset_category_label(&app.global, Some(&lost)), "<unknown>");
    assert_eq!(asset_category_label(&app.global, None), "<unknown>");
    assert_eq!(chosen_category_label(&app.global, Some(CategoryId(3))), "Cordless");
    assert_eq!(chosen_category_label(&app.global, None), "<none>");
}

#[test]
fn save_updates_or_creates_once_a_category_is_chosen() {
    assert!(asset_save_message(Some(AssetId(7)), None, "x".to_string()).is_none());
    match asset_save_message(Some(AssetId(7)), Some(CategoryId(3)), "Hammer".to_string()) {
        Some(Message::UpdateAsset(id, p)) => {
            assert_eq!(id, AssetId(7));
            assert_eq!(p.category_id, CategoryId(3));
            assert_eq!(p.display_name, "Hammer");
        },
        _ => panic!("update expected"),
    }
    match asset_save_message(None, Some(CategoryId(1)), "Saw".to_string()) {
        Some(Message::CreateAsset(p)) => {
            assert_eq!(p.category_id, CategoryId(1));
            assert_eq!(p.display_name, "Saw");
        },
        _ => panic!("creation expected"),
    }
}

#[test]
fn categories_page_decisions() {
    match create_subcategory_message(CategoryId(2), "Corded".to_string()) {
        Message::CreateCategory(p) => {
            assert_eq!(p.display_name, "Corded");
            assert_eq!(p.parent_id, Some(CategoryId(2)));
            assert!(p.field_ids.is_empty());
        },
        _ => panic!("category creation expected"),
    }
    assert_eq!(delete_category_notice(0), None);
    let (count_label, subcategory_label) = delete_category_notice(3).unwrap();
    assert_eq!(
        count_label,
        "This category has 3 assets. You must move or delete them before you can delete the category."
    );
    assert_eq!(
        subcategory_label,
        "You can't delete a category with subcategories either, but I don't check for that yet."
    );
    assert_eq!(asset_count_label(Some(12)), "(12 assets)");
    assert_eq!(asset_count_label(None), "(0 assets)");
}

#[test]
fn category_rows_list_the_ancestry_root_first() {
    let mut app = editor();
    app.update(Message::SelectCategory(CategoryId(2)));
    let cordless = app.global.categories[2].clone();
    let row = category_row(&app.global, &cordless);
    let shown: Vec<(i64, bool)> = row.iter().map(|(c, s)| (c.id.0, *s)).collect();
    assert_eq!(shown, vec![(1, false), (2, true), (3, false)]);
}
