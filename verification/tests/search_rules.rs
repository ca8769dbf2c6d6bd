use std::cmp::Ordering;

use ham::json::{JsonNumber, JsonValue};
use ham::search::{
    compare_bool, compare_missing, compare_option_bool, compare_option_text, compare_ord,
    cursor_start, match_external_entity_type_filter, normalize_and_validate_sorts,
    parse_external_entity_type_id, required_integer_value, search_window, value_as_i64,
    AssetSearchError, AssetSearchFilter, AssetSearchSort, TagValueRecord,
};

fn filter(field: &str, op: &str, value: Option<JsonValue>) -> AssetSearchFilter {
    AssetSearchFilter {
        field: field.to_string(),
        op: op.to_string(),
        value,
        values: None,
        include_subtree: false,
    }
}

fn sort(field: &str, direction: &str) -> AssetSearchSort {
    AssetSearchSort { field: field.to_string(), direction: direction.to_string() }
}

fn reference(type_id: i64, entity_id: i64) -> TagValueRecord {
    TagValueRecord {
        tag_key: format!("ref_{}", type_id),
        value_json: JsonValue::Null,
        value_type: "external_entity".to_string(),
        external_entity_id: Some(entity_id),
        external_entity_type_id: Some(type_id),
    }
}

fn invalid(message: &str) -> AssetSearchError {
    AssetSearchError::InvalidRequest(message.to_string())
}

#[test]
fn missing_value_passes_only_is_null() {
    assert_eq!(compare_missing("is_null"), Ok(true));
    assert_eq!(compare_missing("is_not_null"), Ok(false));
    assert_eq!(compare_missing("contains"), Ok(false));
    assert_eq!(compare_missing("between"), Ok(false));
    assert_eq!(compare_missing("near"), Err(invalid("unsupported operator `near`")));
}

#[test]
fn text_comparison_is_lexicographic() {
    assert!(compare_ord("AST-100", "AST-200", "lt"));
    assert!(!compare_ord("AST-100", "AST-100", "lt"));
    assert!(compare_ord("AST-100", "AST-100", "lte"));
    assert!(compare_ord("b", "abc", "gt"));
    assert!(compare_ord("10", "10", "gte"));
    assert!(!compare_ord("10", "9", "gt"));
    assert!(!compare_ord("a", "b", "eq"));
}

#[test]
fn optional_texts_order_absent_first() {
    assert_eq!(compare_option_text(None, None), Ordering::Equal);
    assert_eq!(compare_option_text(None, Some("a".to_string())), Ordering::Less);
    assert_eq!(compare_option_text(Some("a".to_string()), None), Ordering::Greater);
    assert_eq!(compare_option_text(Some("Edge".to_string()), Some("Core".to_string())), Ordering::Greater);
    assert_eq!(compare_option_text(Some("ab".to_string()), Some("abc".to_string())), Ordering::Less);
    assert_eq!(compare_option_text(Some("x".to_string()), Some("x".to_string())), Ordering::Equal);
}

#[test]
fn optional_booleans_order_absent_false_true() {
    assert_eq!(compare_option_bool(None, Some(false)), Ordering::Less);
    assert_eq!(compare_option_bool(Some(false), Some(true)), Ordering::Less);
    assert_eq!(compare_option_bool(Some(true), Some(false)), Ordering::Greater);
    assert_eq!(compare_option_bool(Some(true), None), Ordering::Greater);
    assert_eq!(compare_option_bool(Some(true), Some(true)), Ordering::Equal);
}

#[test]
fn external_entity_field_names_a_type() {
    assert_eq!(parse_external_entity_type_id("external_entity(71)"), Some(71));
    assert_eq!(parse_external_entity_type_id("external_entity(-3)"), Some(-3));
    assert_eq!(parse_external_entity_type_id("external_entity()"), None);
    assert_eq!(parse_external_entity_type_id("external_entity(x)"), None);
    assert_eq!(parse_external_entity_type_id("external_entity(7"), None);
    assert_eq!(parse_external_entity_type_id("vendor"), None);
}

#[test]
fn filter_values_read_as_integers() {
    assert_eq!(value_as_i64(&JsonValue::Number(JsonNumber::from_i64(42))), Some(42));
    assert_eq!(value_as_i64(&JsonValue::String("-7".to_string())), Some(-7));
    assert_eq!(value_as_i64(&JsonValue::String("wrong-type".to_string())), None);
    assert_eq!(value_as_i64(&JsonValue::Bool(true)), None);
    assert_eq!(value_as_i64(&JsonValue::Number(JsonNumber::Float(0))), None);
}

#[test]
fn integer_predicate_needs_an_integer_value() {
    let f = filter("category_id", "eq", Some(JsonValue::String("wrong-type".to_string())));
    assert_eq!(required_integer_value(&f, "eq"), Err(invalid("operator `eq` requires integer `value`")));
    let f = filter("category_id", "eq", None);
    assert_eq!(required_integer_value(&f, "eq"), Err(invalid("operator `eq` requires `value`")));
    let f = filter("category_id", "eq", Some(JsonValue::Number(JsonNumber::from_i64(10))));
    assert_eq!(required_integer_value(&f, "eq"), Ok(Some(10)));
}

#[test]
fn boolean_predicates() {
    let f = filter("is_critical", "eq", Some(JsonValue::Bool(true)));
    assert_eq!(compare_bool(Some(true), "eq", &f), Ok(true));
    assert_eq!(compare_bool(Some(false), "eq", &f), Ok(false));
    assert_eq!(compare_bool(None, "eq", &f), Ok(false));
    assert_eq!(compare_bool(None, "is_null", &f), Ok(true));
    assert_eq!(compare_bool(Some(false), "is_not_null", &f), Ok(true));
    assert_eq!(
        compare_bool(Some(true), "contains", &f),
        Err(invalid("boolean filters only support eq/is_null/is_not_null"))
    );
    let g = filter("is_critical", "eq", Some(JsonValue::String("true".to_string())));
    assert_eq!(compare_bool(Some(true), "eq", &g), Err(invalid("boolean eq filter requires boolean `value`")));
    let h = filter("is_critical", "eq", None);
    assert_eq!(compare_bool(Some(true), "eq", &h), Err(invalid("operator `eq` requires `value` for boolean field")));
}

#[test]
fn external_entity_predicates() {
    let values = vec![reference(71, 41), reference(72, 42)];
    let eq = filter("external_entity(71)", "EQ", Some(JsonValue::Number(JsonNumber::from_i64(41))));
    assert_eq!(match_external_entity_type_filter(&values, &eq, 71), Ok(true));
    let eq_other = filter("external_entity(71)", "eq", Some(JsonValue::String("42".to_string())));
    assert_eq!(match_external_entity_type_filter(&values, &eq_other, 71), Ok(false));
    let null = filter("external_entity(73)", "is_null", None);
    assert_eq!(match_external_entity_type_filter(&values, &null, 73), Ok(true));
    let not_null = filter("external_entity(72)", "is_not_null", None);
    assert_eq!(match_external_entity_type_filter(&values, &not_null, 72), Ok(true));
    let bad = filter("external_entity(72)", "lt", None);
    assert_eq!(
        match_external_entity_type_filter(&values, &bad, 72),
        Err(invalid("external_entity(type_id) only supports eq/is_null/is_not_null"))
    );
}

#[test]
fn sorts_default_to_asset_tag() {
    let out = normalize_and_validate_sorts(&[], &[]).unwrap();
    assert_eq!(out.len(), 1);
    assert_eq!(out[0].field, "asset_tag");
    assert_eq!(out[0].direction, "asc");
}

#[test]
fn sorts_end_with_asset_tag_tie_break() {
    let tags = vec!["cost".to_string()];
    let out = normalize_and_validate_sorts(&[sort("cost", "DESC")], &tags).unwrap();
    assert_eq!(out.len(), 2);
    assert_eq!(out[0].field, "cost");
    assert_eq!(out[0].direction, "DESC");
    assert_eq!(out[1].field, "asset_tag");
    assert_eq!(out[1].direction, "asc");
    let tags = vec!["Asset_Tag".to_string()];
    let out = normalize_and_validate_sorts(&[sort("Asset_Tag", "desc"), sort("id", "asc")], &tags).unwrap();
    assert_eq!(out.len(), 2);
    assert_eq!(out[1].field, "id");
}

#[test]
fn sorts_refuse_unknown_fields_and_directions() {
    assert_eq!(
        normalize_and_validate_sorts(&[sort("asset_tag", "upward")], &[]).unwrap_err(),
        invalid("invalid sort direction `upward`")
    );
    assert_eq!(
        normalize_and_validate_sorts(&[sort("id", "asc"), sort("weight", "asc")], &[]).unwrap_err(),
        invalid("invalid sort field `weight`")
    );
}

#[test]
fn cursors_name_positions() {
    assert_eq!(cursor_start("2", 3), Some(2));
    assert_eq!(cursor_start("+3", 3), Some(3));
    assert_eq!(cursor_start("4", 3), None);
    assert_eq!(cursor_start("not-a-number", 3), None);
    assert_eq!(cursor_start("", 3), None);
    assert_eq!(cursor_start("-1", 3), None);
}

#[test]
fn search_window_pages_through_results() {
    assert_eq!(search_window(3, None, Some(2)), Ok((0, 2, Some("2".to_string()))));
    assert_eq!(search_window(3, Some("2"), Some(2)), Ok((2, 3, None)));
    assert_eq!(search_window(120, None, None), Ok((0, 50, Some("50".to_string()))));
    assert_eq!(search_window(3, Some("3"), Some(2)), Ok((3, 3, None)));
    assert_eq!(search_window(3, Some("not-a-number"), None), Err(invalid("invalid cursor")));
    assert_eq!(search_window(3, Some("9"), None), Err(invalid("invalid cursor")));
}
