use ham::asset_groups::grouped_assets_by_category;
use ham::gui::Asset;

fn asset(id: i64, category_id: i64, tag: &str) -> Asset {
    Asset::new(id, category_id, tag, None, None)
}

#[test]
fn assets_are_grouped_by_category_in_order() {
    let assets = vec![
        asset(1, 20, "A-1"),
        asset(2, 10, "A-2"),
        asset(3, 20, "A-3"),
        Asset::new(4, 30, "A-4", Some("Drill".to_string()), Some("2024-01-01T00:00:00Z".to_string())),
    ];
    let grouped = grouped_assets_by_category(&assets);
    assert_eq!(grouped.keys().copied().collect::<Vec<i64>>(), vec![10, 20, 30]);
    let ids = |c: i64| grouped[&c].iter().map(|a| a.id).collect::<Vec<i64>>();
    assert_eq!(ids(10), vec![2]);
    assert_eq!(ids(20), vec![1, 3]);
    assert_eq!(grouped[&30][0], assets[3]);
}

#[test]
fn no_assets_give_no_groups() {
    assert!(grouped_assets_by_category(&[]).is_empty());
}
