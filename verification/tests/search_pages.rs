use std::cmp::Ordering;

use ham::json::{JsonNumber, JsonValue};
use ham::search::{
    AssetRecord, AssetSearchError, AssetSearchFilter, AssetSearchFilterGroup, AssetSearchPage, AssetSearchQuery,
    AssetSearchSort, CategoryLink, TagDefinitionMeta, TagValueRecord,
};
use ham::search_filter::{
    category_subtree, compare_numeric_or_null, compare_text_or_null, matches_filter, validate_filter,
    value_as_string, NumberOrder, NumberRules,
};
use ham::search_order::{compare_assets, compare_sort_field, sort_candidates, SearchCandidate};
use ham::search_page::search_assets;

fn read(v: &JsonValue) -> Option<u64> {
    match v {
        JsonValue::Number(JsonNumber::PosInt(u)) => Some((*u as f64).to_bits()),
        JsonValue::Number(JsonNumber::NegInt(i)) => Some((*i as f64).to_bits()),
        JsonValue::Number(JsonNumber::Float(b)) => Some(*b),
        JsonValue::String(s) => s.parse::<f64>().ok().map(f64::to_bits),
        _ => None,
    }
}

fn order(a: u64, b: u64) -> NumberOrder {
    match f64::from_bits(a).partial_cmp(&f64::from_bits(b)) {
        Some(Ordering::Less) => NumberOrder::Less,
        Some(Ordering::Equal) => NumberOrder::Equal,
        Some(Ordering::Greater) => NumberOrder::Greater,
        None => NumberOrder::Unordered,
    }
}

fn text(b: u64) -> String {
    serde_json::Number::from_f64(f64::from_bits(b)).map(|n| n.to_string()).unwrap_or_default()
}

type Rules = NumberRules<fn(&JsonValue) -> Option<u64>, fn(u64, u64) -> NumberOrder, fn(u64) -> String>;

fn rules() -> Rules {
    NumberRules { read: read as fn(&JsonValue) -> Option<u64>, order: order as fn(u64, u64) -> NumberOrder, text: text as fn(u64) -> String }
}

fn num(i: i64) -> JsonValue {
    JsonValue::Number(JsonNumber::from_i64(i))
}

fn txt(s: &str) -> JsonValue {
    JsonValue::String(s.to_string())
}

fn asset(id: i64, category_id: i64, tag: &str, name: Option<&str>) -> AssetRecord {
    AssetRecord {
        id,
        category_id,
        asset_tag: tag.to_string(),
        display_name: name.map(|n| n.to_string()),
        deleted_at: None,
        created_at: "2024-01-01T00:00:00Z".to_string(),
    }
}

fn candidate(a: AssetRecord, values: Vec<TagValueRecord>) -> SearchCandidate {
    SearchCandidate { asset: a, values }
}

fn definition(key: &str, value_type: &str, type_id: Option<i64>) -> TagDefinitionMeta {
    TagDefinitionMeta { tag_key: key.to_string(), value_type: value_type.to_string(), external_entity_type_id: type_id }
}

fn value(key: &str, value_type: &str, json: JsonValue) -> TagValueRecord {
    TagValueRecord {
        tag_key: key.to_string(),
        value_json: json,
        value_type: value_type.to_string(),
        external_entity_id: None,
        external_entity_type_id: None,
    }
}

fn filter(field: &str, op: &str, v: Option<JsonValue>) -> AssetSearchFilter {
    AssetSearchFilter { field: field.to_string(), op: op.to_string(), value: v, values: None, include_subtree: false }
}

fn between(field: &str, low: &str, high: &str) -> AssetSearchFilter {
    AssetSearchFilter {
        field: field.to_string(),
        op: "between".to_string(),
        value: None,
        values: Some(vec![txt(low), txt(high)]),
        include_subtree: false,
    }
}

fn query(filters: Vec<AssetSearchFilter>, sort: Vec<AssetSearchSort>) -> AssetSearchQuery {
    AssetSearchQuery { filters, or_groups: vec![], sort, limit: None, cursor: None, include_total_estimate: false }
}

fn sort(field: &str, direction: &str) -> AssetSearchSort {
    AssetSearchSort { field: field.to_string(), direction: direction.to_string() }
}

fn tags(page: &AssetSearchPage) -> Vec<String> {
    page.items.iter().map(|i| i.asset_tag.clone()).collect()
}

fn refused(r: Result<AssetSearchPage, AssetSearchError>) -> String {
    match r {
        Err(AssetSearchError::InvalidRequest(m)) => m,
        Err(AssetSearchError::Sql(m)) => panic!("unexpected database error {m}"),
        Ok(_) => panic!("search was not refused"),
    }
}

fn three_assets() -> Vec<SearchCandidate> {
    vec![
        candidate(asset(1, 1, "AST-200", Some("Core")), vec![]),
        candidate(asset(2, 1, "AST-100", Some("Edge")), vec![]),
        candidate(asset(3, 1, "AST-300", Some("Spare")), vec![]),
    ]
}

#[test]
fn search_defaults_to_asset_tag_order_and_pages_with_cursor() {
    let mut q = query(vec![], vec![]);
    q.limit = Some(2);
    let first = search_assets(three_assets(), &q, &[], &[], &rules()).unwrap();
    assert_eq!(tags(&first), vec!["AST-100", "AST-200"]);
    let cursor = first.next_cursor.clone().unwrap();
    assert_eq!(cursor, "2");
    assert_eq!(first.total_estimate, None);

    q.cursor = Some(cursor);
    let second = search_assets(three_assets(), &q, &[], &[], &rules()).unwrap();
    assert_eq!(tags(&second), vec!["AST-300"]);
    assert!(second.next_cursor.is_none());
}

#[test]
fn search_combines_filters_groups_and_category_subtree() {
    let cats = vec![
        CategoryLink { id: 1, parent_category_id: None },
        CategoryLink { id: 2, parent_category_id: Some(1) },
        CategoryLink { id: 3, parent_category_id: None },
    ];
    let candidates = vec![
        candidate(asset(10, 2, "AST-NET-001", Some("Edge router")), vec![]),
        candidate(asset(11, 2, "AST-NET-002", Some("Access switch")), vec![]),
        candidate(asset(12, 3, "AST-OTH-001", Some("Edge router")), vec![]),
    ];
    let mut subtree = filter("category_id", "eq", Some(num(1)));
    subtree.include_subtree = true;
    let mut q = query(vec![subtree], vec![sort("asset_tag", "asc")]);
    q.or_groups = vec![
        AssetSearchFilterGroup { filters: vec![filter("asset_tag", "eq", Some(txt("AST-NET-002")))] },
        AssetSearchFilterGroup { filters: vec![filter("text", "contains", Some(txt("router")))] },
    ];
    let page = search_assets(candidates, &q, &[], &cats, &rules()).unwrap();
    assert_eq!(tags(&page), vec!["AST-NET-001", "AST-NET-002"]);
}

fn typed_definitions() -> Vec<TagDefinitionMeta> {
    vec![
        definition("cost", "money", None),
        definition("is_critical", "boolean", None),
        definition("purchase_date", "date", None),
        definition("status", "enum", None),
        definition("owner_entity", "external_entity", Some(10)),
        definition("ip_address", "ipv4", None),
    ]
}

fn typed_candidates() -> Vec<SearchCandidate> {
    let mut owner = value("owner_entity", "external_entity", num(7));
    owner.external_entity_id = Some(7);
    owner.external_entity_type_id = Some(10);
    vec![
        candidate(
            asset(100, 1, "AST-TYP-001", Some("Firewall")),
            vec![
                value("cost", "money", txt("100.50")),
                value("is_critical", "boolean", JsonValue::Bool(true)),
                value("purchase_date", "date", txt("2024-01-10")),
                value("status", "enum", txt("active")),
                owner,
                value("ip_address", "ipv4", txt("10.0.0.1")),
            ],
        ),
        candidate(
            asset(101, 1, "AST-TYP-002", Some("Switch")),
            vec![
                value("cost", "money", txt("50.00")),
                value("is_critical", "boolean", JsonValue::Bool(false)),
                value("status", "enum", txt("retired")),
                value("ip_address", "ipv4", txt("10.0.0.2")),
            ],
        ),
    ]
}

#[test]
fn search_compares_each_tag_by_its_type() {
    let mut q = query(
        vec![
            filter("cost", "gt", Some(num(60))),
            filter("is_critical", "eq", Some(JsonValue::Bool(true))),
            between("purchase_date", "2024-01-01", "2024-12-31"),
            filter("status", "eq", Some(txt("active"))),
            filter("external_entity(10)", "eq", Some(num(7))),
            filter("ip_address", "eq", Some(txt("10.0.0.1"))),
        ],
        vec![],
    );
    q.include_total_estimate = true;
    let page = search_assets(typed_candidates(), &q, &typed_definitions(), &[], &rules()).unwrap();
    assert_eq!(tags(&page), vec!["AST-TYP-001"]);
    assert_eq!(page.total_estimate, Some(1));
}

#[test]
fn search_finds_assets_without_a_tag_by_is_null() {
    let q = query(vec![filter("purchase_date", "is_null", None)], vec![sort("asset_tag", "asc")]);
    let page = search_assets(typed_candidates(), &q, &typed_definitions(), &[], &rules()).unwrap();
    assert_eq!(tags(&page), vec!["AST-TYP-002"]);
}

#[test]
fn search_sorts_numeric_tags_as_numbers() {
    let defs = vec![definition("cost", "money", None)];
    let candidates = vec![
        candidate(asset(203, 1, "AST-SORT-203", Some("C")), vec![value("cost", "money", txt("100"))]),
        candidate(asset(201, 1, "AST-SORT-201", Some("A")), vec![value("cost", "money", txt("2"))]),
        candidate(asset(202, 1, "AST-SORT-202", Some("B")), vec![value("cost", "money", txt("10"))]),
    ];
    let q = query(vec![], vec![sort("cost", "asc")]);
    let page = search_assets(candidates, &q, &defs, &[], &rules()).unwrap();
    assert_eq!(tags(&page), vec!["AST-SORT-201", "AST-SORT-202", "AST-SORT-203"]);
}

#[test]
fn search_refuses_invalid_requests() {
    let defs = vec![definition("is_critical", "boolean", None)];
    let one = || vec![candidate(asset(301, 1, "AST-ERR-301", Some("Err")), vec![value("is_critical", "boolean", JsonValue::Bool(true))])];

    let q = query(vec![], vec![sort("asset_tag", "upward")]);
    assert_eq!(refused(search_assets(one(), &q, &defs, &[], &rules())), "invalid sort direction `upward`");

    let q = query(vec![filter("is_critical", "contains", Some(JsonValue::Bool(true)))], vec![]);
    assert_eq!(
        refused(search_assets(one(), &q, &defs, &[], &rules())),
        "boolean filters only support eq/is_null/is_not_null"
    );

    let mut q = query(vec![], vec![]);
    q.cursor = Some("not-a-number".to_string());
    assert_eq!(refused(search_assets(one(), &q, &defs, &[], &rules())), "invalid cursor");

    let q = query(vec![filter("category_id", "eq", Some(txt("wrong-type")))], vec![]);
    assert_eq!(refused(search_assets(one(), &q, &defs, &[], &rules())), "operator `eq` requires numeric `value`");

    let q = query(vec![filter("weight", "eq", Some(num(1)))], vec![]);
    assert_eq!(refused(search_assets(one(), &q, &defs, &[], &rules())), "unknown filter field `weight`");

    let q = query(vec![filter("external_entity(99)", "eq", Some(num(1)))], vec![]);
    assert_eq!(refused(search_assets(one(), &q, &defs, &[], &rules())), "unknown external entity type id `99`");
}

#[test]
fn search_finds_event_applied_enum_and_reference_values() {
    let defs = vec![definition("status", "enum", None), definition("vendor_id", "external_entity", Some(71))];
    let mut vendor = value("vendor_id", "external_entity", num(41));
    vendor.external_entity_id = Some(41);
    vendor.external_entity_type_id = Some(71);
    let candidates = vec![
        candidate(asset(401, 10, "AST-EVT-401", Some("Router")), vec![value("status", "enum", txt("active")), vendor]),
        candidate(asset(402, 10, "AST-EVT-402", Some("Switch")), vec![]),
    ];
    let q = query(vec![filter("status", "eq", Some(txt("active")))], vec![]);
    assert_eq!(tags(&search_assets(candidates.clone(), &q, &defs, &[], &rules()).unwrap()), vec!["AST-EVT-401"]);
    let q = query(vec![filter("external_entity(71)", "eq", Some(num(41)))], vec![]);
    assert_eq!(tags(&search_assets(candidates.clone(), &q, &defs, &[], &rules()).unwrap()), vec!["AST-EVT-401"]);
    let q = query(vec![filter("external_entity(71)", "is_null", None)], vec![]);
    assert_eq!(tags(&search_assets(candidates, &q, &defs, &[], &rules()).unwrap()), vec!["AST-EVT-402"]);
}

#[test]
fn search_pages_beyond_the_default_limit() {
    let candidates: Vec<SearchCandidate> =
        (0..60).map(|i| candidate(asset(i, 1, &format!("AST-{:03}", i), None), vec![])).collect();
    let mut q = query(vec![], vec![sort("id", "desc")]);
    q.include_total_estimate = true;
    let page = search_assets(candidates, &q, &[], &[], &rules()).unwrap();
    assert_eq!(page.items.len(), 50);
    assert_eq!(page.items[0].asset_tag, "AST-059");
    assert_eq!(page.next_cursor, Some("50".to_string()));
    assert_eq!(page.total_estimate, Some(60));
}

#[test]
fn category_subtree_follows_parent_links() {
    let cats = vec![
        CategoryLink { id: 1, parent_category_id: None },
        CategoryLink { id: 2, parent_category_id: Some(1) },
        CategoryLink { id: 3, parent_category_id: Some(2) },
        CategoryLink { id: 4, parent_category_id: None },
        CategoryLink { id: 5, parent_category_id: Some(4) },
    ];
    let mut ids = category_subtree(&cats, 1);
    ids.sort();
    assert_eq!(ids, vec![1, 2, 3]);
    assert_eq!(category_subtree(&cats, 3), vec![3]);
    assert_eq!(category_subtree(&cats, 9), vec![9]);
    let cyclic = vec![CategoryLink { id: 1, parent_category_id: Some(2) }, CategoryLink { id: 2, parent_category_id: Some(1) }];
    let mut ids = category_subtree(&cyclic, 1);
    ids.sort();
    assert_eq!(ids, vec![1, 2]);
}

#[test]
fn values_read_as_text() {
    let r = rules();
    assert_eq!(value_as_string(&num(-12), &r), Some("-12".to_string()));
    assert_eq!(value_as_string(&JsonValue::Number(JsonNumber::Float(100.5f64.to_bits())), &r), Some("100.5".to_string()));
    assert_eq!(value_as_string(&JsonValue::Bool(false), &r), Some("false".to_string()));
    assert_eq!(value_as_string(&JsonValue::Null, &r), None);
}

#[test]
fn text_predicates() {
    let r = rules();
    let f = filter("display_name", "contains", Some(txt("ROUT")));
    assert_eq!(compare_text_or_null(Some("Edge router".to_string()), "contains", &f, &r), Ok(true));
    assert_eq!(compare_text_or_null(None, "contains", &f, &r), Ok(false));
    assert_eq!(compare_text_or_null(None, "is_null", &f, &r), Ok(true));
    let b = between("purchase_date", "2024-01-01", "2024-12-31");
    assert_eq!(compare_text_or_null(Some("2024-06-30".to_string()), "between", &b, &r), Ok(true));
    assert_eq!(compare_text_or_null(Some("2025-01-01".to_string()), "between", &b, &r), Ok(false));
    let e = filter("asset_tag", "eq", None);
    assert_eq!(
        compare_text_or_null(None, "eq", &e, &r),
        Err(AssetSearchError::InvalidRequest("operator `eq` requires `value`".to_string()))
    );
    assert_eq!(
        compare_text_or_null(None, "near", &e, &r),
        Err(AssetSearchError::InvalidRequest("unsupported operator `near`".to_string()))
    );
}

#[test]
fn numeric_predicates() {
    let r = rules();
    let f = filter("cost", "gte", Some(txt("50")));
    assert_eq!(compare_numeric_or_null(read(&txt("50.00")), "gte", &f, &r), Ok(true));
    assert_eq!(compare_numeric_or_null(read(&txt("49.99")), "gte", &f, &r), Ok(false));
    assert_eq!(compare_numeric_or_null(None, "gte", &f, &r), Ok(false));
    let mut b = filter("cost", "between", None);
    b.values = Some(vec![num(10), num(20)]);
    assert_eq!(compare_numeric_or_null(read(&num(20)), "between", &b, &r), Ok(true));
    assert_eq!(compare_numeric_or_null(read(&num(21)), "between", &b, &r), Ok(false));
    b.values = Some(vec![num(10)]);
    assert_eq!(
        compare_numeric_or_null(read(&num(15)), "between", &b, &r),
        Err(AssetSearchError::InvalidRequest("operator `between` requires exactly 2 values".to_string()))
    );
    let nan = filter("cost", "eq", Some(txt("NaN")));
    assert_eq!(compare_numeric_or_null(read(&txt("NaN")), "eq", &nan, &r), Ok(false));
}

#[test]
fn filter_validation_by_field_kind() {
    let r = rules();
    let defs = typed_definitions();
    assert_eq!(validate_filter(&filter("text", "contains", Some(txt("x"))), &defs, &r), Ok(()));
    assert_eq!(
        validate_filter(&filter("text", "eq", Some(txt("x"))), &defs, &r),
        Err(AssetSearchError::InvalidRequest("text predicate only supports contains".to_string()))
    );
    assert_eq!(validate_filter(&filter("external_entity(10)", "IS_NULL", None), &defs, &r), Ok(()));
    assert_eq!(
        validate_filter(&filter("cost", "contains", Some(num(1))), &defs, &r),
        Err(AssetSearchError::InvalidRequest("unsupported operator `contains`".to_string()))
    );
    assert_eq!(
        validate_filter(&filter("status", "lt", Some(JsonValue::Null)), &defs, &r),
        Err(AssetSearchError::InvalidRequest("operator `lt` requires text-compatible `value`".to_string()))
    );
    assert_eq!(validate_filter(&filter("id", "lte", Some(txt("7"))), &defs, &r), Ok(()));
}

#[test]
fn filters_on_own_fields_and_missing_tags() {
    let r = rules();
    let defs = typed_definitions();
    let a = asset(100, 1, "AST-TYP-001", None);
    let f = filter("id", "gt", Some(num(99)));
    assert_eq!(matches_filter(&a, &f, &defs, &[], &[], &r), Ok(true));
    let f = filter("display_name", "is_null", None);
    assert_eq!(matches_filter(&a, &f, &defs, &[], &[], &r), Ok(true));
    let f = filter("status", "eq", Some(txt("active")));
    assert_eq!(matches_filter(&a, &f, &defs, &[], &[], &r), Ok(false));
    let f = filter("text", "contains", Some(txt("")));
    assert_eq!(matches_filter(&a, &f, &defs, &[], &[], &r), Ok(true));
    let f = filter("text", "like", Some(txt("x")));
    assert_eq!(
        matches_filter(&a, &f, &defs, &[], &[], &r),
        Err(AssetSearchError::InvalidRequest("unsupported op `like` for text predicate".to_string()))
    );
}

#[test]
fn sort_keys_compare_and_turn_around() {
    let r = rules();
    let a = asset(1, 1, "AST-1", Some("b"));
    let b = asset(2, 1, "AST-2", None);
    assert_eq!(compare_sort_field(&a, &b, "id", &[], &[], &[], &r), Ordering::Less);
    assert_eq!(compare_sort_field(&a, &b, "display_name", &[], &[], &[], &r), Ordering::Greater);
    assert_eq!(compare_sort_field(&a, &b, "category_id", &[], &[], &[], &r), Ordering::Equal);
    let sorts = vec![sort("category_id", "asc"), sort("id", "DESC")];
    assert_eq!(compare_assets(&a, &b, &sorts, &[], &[], &[], &r), Ordering::Greater);
    assert_eq!(compare_assets(&b, &a, &sorts, &[], &[], &[], &r), Ordering::Less);
    let defs = vec![definition("flag", "boolean", None)];
    let yes = vec![value("flag", "boolean", JsonValue::Bool(true))];
    assert_eq!(compare_sort_field(&a, &b, "flag", &defs, &yes, &[], &r), Ordering::Greater);
}

#[test]
fn sorting_keeps_every_candidate() {
    let r = rules();
    let sorted = sort_candidates(three_assets(), &[sort("asset_tag", "desc")], &[], &r);
    let order: Vec<&str> = sorted.iter().map(|c| c.asset.asset_tag.as_str()).collect();
    assert_eq!(order, vec!["AST-300", "AST-200", "AST-100"]);
}

#[test]
fn search_keeps_candidate_order_among_equal_results() {
    let candidates = vec![
        candidate(asset(5, 1, "AST-2", Some("b")), vec![]),
        candidate(asset(3, 1, "AST-1", Some("a")), vec![]),
        candidate(asset(9, 1, "AST-2", Some("c")), vec![]),
        candidate(asset(4, 1, "AST-2", Some("d")), vec![]),
    ];
    let page = search_assets(candidates, &query(vec![], vec![]), &[], &[], &rules()).unwrap();
    let ids: Vec<i64> = page.items.iter().map(|i| i.id).collect();
    assert_eq!(ids, vec![3, 5, 9, 4]);
    let by_category = vec![
        candidate(asset(7, 2, "T-1", None), vec![]),
        candidate(asset(8, 1, "T-1", None), vec![]),
        candidate(asset(6, 2, "T-1", None), vec![]),
    ];
    let page = search_assets(by_category, &query(vec![], vec![sort("category_id", "desc")]), &[], &[], &rules()).unwrap();
    let ids: Vec<i64> = page.items.iter().map(|i| i.id).collect();
    assert_eq!(ids, vec![7, 6, 8]);
}

#[test]
fn same_search_gives_same_pages() {
    let make = || {
        vec![
            candidate(asset(5, 1, "AST-2", Some("b")), vec![]),
            candidate(asset(3, 2, "AST-1", Some("a")), vec![]),
            candidate(asset(9, 1, "AST-2", Some("c")), vec![]),
            candidate(asset(4, 2, "AST-3", Some("d")), vec![]),
        ]
    };
    let mut q = query(vec![], vec![sort("category_id", "asc")]);
    q.limit = Some(2);
    let first = search_assets(make(), &q, &[], &[], &rules()).unwrap();
    let again = search_assets(make(), &q, &[], &[], &rules()).unwrap();
    assert_eq!(first.items.iter().map(|i| i.id).collect::<Vec<i64>>(), again.items.iter().map(|i| i.id).collect::<Vec<i64>>());
    assert_eq!(tags(&first), tags(&again));
    assert_eq!(first.next_cursor, Some("2".to_string()));
    q.cursor = first.next_cursor.clone();
    let second = search_assets(make(), &q, &[], &[], &rules()).unwrap();
    let ids: Vec<i64> = first.items.iter().chain(second.items.iter()).map(|i| i.id).collect();
    assert_eq!(ids, vec![5, 9, 3, 4]);
    assert_eq!(second.next_cursor, None);
}
