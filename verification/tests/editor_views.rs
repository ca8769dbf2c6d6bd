use ham::category_ancestry::{find_category, CategoryAncestryIter};
use ham::elm::Task;
use ham::ham_server::{attach_field_hints, sql_placeholders, CategoryFieldHint};
use ham::iced_assets::table_field_ids;
use ham::iced_categories::{CategoriesMessage, State as CategoriesState};
use ham::remote::{take_queued_refresh, QueueRefresh};
use ham::shared::{
    Asset, AssetField, AssetId, Category, CategoryId, DateTimePrecision, EnumId, EnumValueId, FieldId, FieldType,
    FieldValue,
};

fn category(id: i64, name: &str, parent: Option<i64>) -> Category {
    Category { id: CategoryId(id), display_name: name.to_string(), parent_id: parent.map(CategoryId), field_ids: vec![] }
}

fn tree() -> Vec<Category> {
    vec![category(1, "Root", None), category(2, "Network", Some(1)), category(3, "Switches", Some(2))]
}

#[test]
fn ancestry_lists_root_first() {
    let cats = tree();
    let walk = CategoryAncestryIter { categories: &cats, current: find_category(&cats, CategoryId(3)) };
    let names: Vec<&str> = walk.into_vec().iter().map(|c| c.display_name.as_str()).collect();
    assert_eq!(names, vec!["Root", "Network", "Switches"]);
}

#[test]
fn ancestry_display_joins_with_slashes() {
    let cats = tree();
    let walk = CategoryAncestryIter { categories: &cats, current: find_category(&cats, CategoryId(3)) };
    assert_eq!(walk.display(), "Root / Network / Switches");
    let root = CategoryAncestryIter { categories: &cats, current: find_category(&cats, CategoryId(1)) };
    assert_eq!(root.display(), "Root");
    let nothing = CategoryAncestryIter { categories: &cats, current: None };
    assert_eq!(nothing.display(), "");
}

#[test]
fn ancestry_stops_at_a_missing_parent() {
    let cats = vec![category(5, "Orphan", Some(99))];
    let mut walk = CategoryAncestryIter { categories: &cats, current: find_category(&cats, CategoryId(5)) };
    assert_eq!(walk.next().map(|c| c.id), Some(CategoryId(5)));
    assert!(walk.next().is_none());
    assert!(walk.current.is_none());
}

fn field(id: i64, value: FieldValue) -> AssetField {
    AssetField { field_id: FieldId(id), value }
}

fn asset(id: i64, fields: Vec<AssetField>) -> Asset {
    Asset { id: AssetId(id), category_id: CategoryId(1), display_name: format!("asset {id}"), fields }
}

#[test]
fn table_shows_each_field_once_by_id() {
    let assets = vec![
        asset(1, vec![field(7, FieldValue::Int(1)), field(3, FieldValue::Boolean(true))]),
        asset(2, vec![field(3, FieldValue::String("x".to_string())), field(5, FieldValue::Float(1.5f64.to_bits()))]),
        asset(3, vec![]),
    ];
    assert_eq!(table_field_ids(&assets), vec![FieldId(3), FieldId(5), FieldId(7)]);
    assert_eq!(table_field_ids(&[]), Vec::<FieldId>::new());
}

#[test]
fn field_values_know_their_type() {
    assert!(matches!(FieldValue::Int(3).field_type(), FieldType::Int));
    assert!(matches!(
        FieldValue::DateTime { timestamp: 0, precision: DateTimePrecision::Day }.field_type(),
        FieldType::DateTime(DateTimePrecision::Day)
    ));
    assert!(matches!(
        FieldValue::Enum { enum_id: EnumId(4), value: EnumValueId(9) }.field_type(),
        FieldType::Enum(EnumId(4))
    ));
    assert!(matches!(
        FieldValue::Money { amount: "1.00".to_string(), currency: "EUR".to_string() }.field_type(),
        FieldType::Money
    ));
}

#[test]
fn categories_page_selects() {
    let mut state = CategoriesState::default();
    assert!(state.selected_category.is_none());
    state.update(CategoriesMessage::SelectCategory(CategoryId(2)));
    assert_eq!(state.selected_category, Some(CategoryId(2)));
}

#[test]
fn tasks_collect_their_work_in_order() {
    let t = Task::multiple(vec![Task::perform(1), Task::none(), Task::multiple(vec![Task::perform(2), Task::perform(3)])]);
    assert_eq!(t.into_futures(), vec![1, 2, 3]);
    assert!(Task::<u8>::none().into_futures().is_empty());
}

#[test]
fn queued_refresh_is_taken_once() {
    let mut queued = Some(QueueRefresh::Categories);
    assert_eq!(take_queued_refresh(&mut queued), Some(QueueRefresh::Categories));
    assert_eq!(take_queued_refresh(&mut queued), None);
}

fn row(asset: i64, category: i64, name: &str, field: Option<(i64, i64)>) -> ham::ham_server::AssetValueRow {
    ham::ham_server::AssetValueRow {
        asset_id: AssetId(asset),
        category_id: CategoryId(category),
        display_name: name.to_string(),
        field: field.map(|(f, v)| AssetField { field_id: FieldId(f), value: FieldValue::Int(v) }),
    }
}

#[test]
fn listed_rows_become_assets_by_id() {
    let rows = vec![
        row(7, 1, "Switch", Some((2, 10))),
        row(3, 2, "Router", None),
        row(7, 1, "Switch", Some((4, 20))),
        row(5, 1, "Patch panel", Some((2, 30))),
    ];
    let assets = ham::ham_server::group_asset_rows(rows);
    assert_eq!(assets.iter().map(|a| a.id).collect::<Vec<_>>(), vec![AssetId(3), AssetId(5), AssetId(7)]);
    assert!(assets[0].fields.is_empty());
    assert_eq!(assets[2].display_name, "Switch");
    assert_eq!(assets[2].fields.iter().map(|f| f.field_id).collect::<Vec<_>>(), vec![FieldId(2), FieldId(4)]);
    assert!(matches!(assets[1].fields[0].value, FieldValue::Int(30)));
    assert!(ham::ham_server::group_asset_rows(vec![]).is_empty());
}

#[test]
fn category_listing_attaches_hinted_fields_in_order() {
    let mut categories = vec![
        Category { id: CategoryId(1), display_name: "Tools".to_string(), parent_id: None, field_ids: vec![FieldId(99)] },
        Category { id: CategoryId(2), display_name: "Drills".to_string(), parent_id: Some(CategoryId(1)), field_ids: vec![] },
    ];
    let hints = [
        CategoryFieldHint { category_id: CategoryId(2), field_id: FieldId(5) },
        CategoryFieldHint { category_id: CategoryId(1), field_id: FieldId(3) },
        CategoryFieldHint { category_id: CategoryId(2), field_id: FieldId(4) },
    ];
    attach_field_hints(&mut categories, &hints);
    assert_eq!(categories[0].field_ids, vec![FieldId(3)]);
    assert_eq!(categories[1].field_ids, vec![FieldId(5), FieldId(4)]);
    assert_eq!(categories[1].parent_id, Some(CategoryId(1)));
    assert_eq!(categories[0].display_name, "Tools");
}

#[test]
fn asset_listing_placeholders() {
    assert_eq!(sql_placeholders(0), "");
    assert_eq!(sql_placeholders(1), "?");
    assert_eq!(sql_placeholders(3), "?,?,?");
}
