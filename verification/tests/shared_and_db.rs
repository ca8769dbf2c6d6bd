use ham::shared::{CategoryId, CommaSeparated, FieldId, Index};
use ham::ui_db::{
    Asset, AssetColumn, AssetDb, AssetId, Category, CategoryId as DbCategoryId, Field,
    FieldId as DbFieldId, FieldType, RecordMap, Settings,
};

#[test]
fn comma_separated_ids_round_trip() {
    let ids = vec![FieldId(1), FieldId(-2), FieldId(30)];
    let c = CommaSeparated::from_slice(&ids);
    assert_eq!(c.as_str(), "1,-2,30");
    assert_eq!(c.to_vec(), ids);
    let empty: CommaSeparated<FieldId> = CommaSeparated::from_slice(&[]);
    assert_eq!(empty.as_str(), "");
    assert!(empty.to_vec().is_empty());
}

#[test]
fn index_counts_assets_per_category() {
    let categories = vec![CategoryId(1), CategoryId(2), CategoryId(3)];
    let assets = vec![CategoryId(1), CategoryId(3), CategoryId(1), CategoryId(9)];
    let index = Index::calculate(&categories, &assets);
    assert_eq!(index.category_asset_count(CategoryId(1)), Some(2));
    assert_eq!(index.category_asset_count(CategoryId(2)), Some(0));
    assert_eq!(index.category_asset_count(CategoryId(3)), Some(1));
    assert_eq!(index.category_asset_count(CategoryId(9)), None);
}

fn category(id: i64, name: &str) -> Category {
    Category {
        id: DbCategoryId(id),
        display_name: name.to_string(),
        parent_id: None,
    }
}

#[test]
fn record_map_finds_by_key() {
    let mut map: RecordMap<Category> = RecordMap::default();
    map.push(category(2, "Network"));
    map.push(category(5, "Storage"));
    map.push(category(2, "Duplicate"));
    assert_eq!(map.len(), 3);
    assert_eq!(map.get(DbCategoryId(2)).unwrap().display_name, "Network");
    assert!(map.get(DbCategoryId(9)).is_none());
    assert_eq!(map.get_index(1).unwrap().display_name, "Storage");
    assert!(map.get_index(3).is_none());
    map.get_mut(DbCategoryId(5)).unwrap().display_name = "Disks".to_string();
    assert_eq!(map.get(DbCategoryId(5)).unwrap().display_name, "Disks");
    for c in map.values_mut() {
        c.parent_id = Some(DbCategoryId(1));
    }
    assert!(map.values().iter().all(|c| c.parent_id == Some(DbCategoryId(1))));
    let removed = map.remove(DbCategoryId(2)).unwrap();
    assert_eq!(removed.display_name, "Network");
    assert_eq!(map.len(), 2);
    assert_eq!(map.get(DbCategoryId(2)).unwrap().display_name, "Duplicate");
    assert!(map.remove(DbCategoryId(7)).is_none());
}

fn db() -> AssetDb {
    AssetDb {
        assets: vec![Asset {
            id: AssetId(7),
            category_id: DbCategoryId(1),
            display_name: "Router".to_string(),
            fields: vec![],
        }],
        categories: vec![category(1, "Network"), category(4, "Power")],
        fields: vec![Field {
            id: DbFieldId(3),
            display_name: "Serial".to_string(),
            field_type: FieldType::String,
        }],
        settings: Settings::default(),
    }
}

#[test]
fn asset_db_ids_tags_and_lookups() {
    let mut db = db();
    assert_eq!(db.format_asset_tag(AssetId(7)), "A0007");
    assert_eq!(db.format_asset_tag(AssetId(123456)), "A123456");
    assert_eq!(db.next_asset_id(), AssetId(8));
    assert_eq!(db.next_category_id(), DbCategoryId(5));
    assert_eq!(db.next_field_id(), DbFieldId(4));
    let id = db.create_asset();
    assert_eq!(id, AssetId(8));
    assert_eq!(db.assets.len(), 2);
    assert_eq!(db.assets[1].display_name, "New Asset 8");
    assert_eq!(db.assets[1].category_id, DbCategoryId(1));
    assert_eq!(db.category(DbCategoryId(4)).unwrap().display_name, "Power");
    assert!(db.category(DbCategoryId(2)).is_none());
    db.asset_mut(AssetId(7)).unwrap().display_name = "Core".to_string();
    assert_eq!(db.assets[0].display_name, "Core");
    assert!(db.asset_mut(AssetId(99)).is_none());

    let empty = AssetDb {
        assets: vec![],
        categories: vec![],
        fields: vec![],
        settings: Settings::default(),
    };
    assert_eq!(empty.next_asset_id(), AssetId(1));
}

#[test]
fn asset_column_headers() {
    let db = db();
    assert_eq!(AssetColumn::Tag.header(&db), "Tag");
    assert_eq!(AssetColumn::DisplayName.header(&db), "Display Name");
    assert_eq!(AssetColumn::Field(DbFieldId(3)).header(&db), "Serial");
    assert_eq!(
        AssetColumn::Field(DbFieldId(8)).header(&db),
        "Unknown Field (FieldId(8))"
    );
    assert_eq!(
        AssetColumn::base(),
        vec![AssetColumn::Tag, AssetColumn::Category, AssetColumn::DisplayName]
    );
}

#[test]
fn get_after_push_finds_the_new_record_and_keeps_the_others() {
    let mut map: RecordMap<Category> = RecordMap::default();
    map.push(category(1, "Network"));
    map.push(category(4, "Power"));
    map.push(category(8, "Cables"));
    assert_eq!(map.len(), 3);
    assert_eq!(map.get(DbCategoryId(8)).unwrap().display_name, "Cables");
    assert_eq!(map.get(DbCategoryId(1)).unwrap().display_name, "Network");
    assert_eq!(map.get(DbCategoryId(4)).unwrap().display_name, "Power");
    map.push(category(4, "Later"));
    assert_eq!(map.get(DbCategoryId(4)).unwrap().display_name, "Power");
}
