use ham::search::CreatedAsset;
use ham::server::TagGeneratorSettings;
use std::cell::RefCell;

use ham::server_db::{
    after_insert, create_asset, expected_schema_version, is_duplicate_asset_tag_constraint, plan_schema, tag_candidate,
    AfterInsert, AssetCreateError, DbError, TagInsertOutcome, TagSource,
};

/// The assets table and the global tag counter, as the server's database
/// keeps them.
struct Table {
    settings: TagGeneratorSettings,
    tags: Vec<String>,
    counter: i64,
}

impl Table {
    fn new(prefix: &str, width: usize, separator: &str) -> Table {
        Table {
            settings: TagGeneratorSettings { prefix: prefix.to_string(), number_width: width, separator: separator.to_string() },
            tags: vec![],
            counter: 1,
        }
    }

    fn create_asset(&mut self, category_id: i64, manual: Option<&str>) -> Result<CreatedAsset, AssetCreateError> {
        let tags = RefCell::new(std::mem::take(&mut self.tags));
        let insert = |tag: String| {
            if tags.borrow().contains(&tag) {
                TagInsertOutcome::DuplicateTag
            } else {
                tags.borrow_mut().push(tag);
                TagInsertOutcome::Inserted(tags.borrow().len() as i64)
            }
        };
        let (result, next_counter) = create_asset(&insert, &self.settings, self.counter, category_id, manual);
        self.tags = tags.into_inner();
        if let Some(n) = next_counter {
            self.counter = n;
        }
        result
    }
}

#[test]
fn duplicate_manual_tag_returns_deterministic_error() {
    let mut table = Table::new("AST", 4, "-");
    let first = table.create_asset(1, Some("MANUAL-001")).unwrap();
    assert_eq!(first.asset_tag, "MANUAL-001");
    let err = table.create_asset(1, Some("MANUAL-001")).unwrap_err();
    assert!(matches!(err, AssetCreateError::DuplicateAssetTag(ref tag) if tag == "MANUAL-001"));
    assert_eq!(err.to_string(), "asset tag `MANUAL-001` already exists");
}

#[test]
fn startup_fails_on_incompatible_schema_version() {
    let err = plan_schema(999).unwrap_err();
    let message = err.to_string();
    assert!(message.contains("incompatible schema version"));
    assert!(message.contains("999"));
    assert_eq!(err, DbError::IncompatibleSchemaVersion { found: 999, expected: 3 });
}

#[test]
fn schema_migrations_follow_the_stored_version() {
    assert_eq!(expected_schema_version(), 3);
    assert_eq!(plan_schema(0), Ok(vec![1, 2, 3]));
    assert_eq!(plan_schema(1), Ok(vec![2, 3]));
    assert_eq!(plan_schema(3), Ok(vec![]));
    assert_eq!(plan_schema(-2), Ok(vec![1, 2, 3]));
}

#[test]
fn auto_generates_asset_tag() {
    let mut table = Table::new("AST", 4, "-");
    let created = table.create_asset(1, None).unwrap();
    assert_eq!(created.asset_tag, "AST-0001");
}

#[test]
fn manual_override_does_not_advance_counter() {
    let mut table = Table::new("AST", 4, "-");
    let first_auto = table.create_asset(1, None).unwrap();
    assert_eq!(first_auto.asset_tag, "AST-0001");
    let manual = table.create_asset(1, Some("MANUAL-001")).unwrap();
    assert_eq!(manual.asset_tag, "MANUAL-001");
    let second_auto = table.create_asset(1, None).unwrap();
    assert_eq!(second_auto.asset_tag, "AST-0002");
}

#[test]
fn generator_retries_on_collision() {
    let mut table = Table::new("AST", 4, "-");
    table.counter = 1;
    table.tags.push("AST-0001".to_string());
    let first_auto = table.create_asset(1, None).unwrap();
    assert_eq!(first_auto.asset_tag, "AST-0002");
    let second_auto = table.create_asset(1, None).unwrap();
    assert_eq!(second_auto.asset_tag, "AST-0003");
}

#[test]
fn auto_generation_counter_is_global_across_categories() {
    let mut table = Table::new("AST", 4, "-");
    let first = table.create_asset(1, None).unwrap();
    let second = table.create_asset(2, None).unwrap();
    let third = table.create_asset(1, None).unwrap();
    assert_eq!(first.asset_tag, "AST-0001");
    assert_eq!(second.asset_tag, "AST-0002");
    assert_eq!(third.asset_tag, "AST-0003");
    assert_eq!(second.category_id, 2);
}

#[test]
fn database_failures_end_the_creation() {
    let r = after_insert(TagSource::Generated(5), 1, "AST-0005".to_string(), TagInsertOutcome::Failed("disk full".to_string()));
    match r {
        AfterInsert::Failed(e) => assert_eq!(e.to_string(), "database error: disk full"),
        _ => panic!("expected a failure"),
    }
}

#[test]
fn duplicate_tag_errors_are_recognised_by_message() {
    assert!(is_duplicate_asset_tag_constraint(true, Some("UNIQUE constraint failed: assets.asset_tag")));
    assert!(!is_duplicate_asset_tag_constraint(true, Some("UNIQUE constraint failed: event_types.event_type_id")));
    assert!(!is_duplicate_asset_tag_constraint(false, Some("UNIQUE constraint failed: assets.asset_tag")));
    assert!(!is_duplicate_asset_tag_constraint(true, None));
}

#[test]
fn database_failure_during_creation_keeps_the_counter() {
    let settings = TagGeneratorSettings { prefix: "AST".to_string(), number_width: 4, separator: "-".to_string() };
    let insert = |_tag: String| TagInsertOutcome::Failed("disk full".to_string());
    let (result, next_counter) = create_asset(&insert, &settings, 7, 1, None);
    assert_eq!(result.unwrap_err(), AssetCreateError::Sql("disk full".to_string()));
    assert_eq!(next_counter, None);
}

#[test]
fn manual_creation_inserts_the_manual_tag_once() {
    let settings = TagGeneratorSettings { prefix: "AST".to_string(), number_width: 4, separator: "-".to_string() };
    let asked = RefCell::new(Vec::new());
    let insert = |tag: String| {
        asked.borrow_mut().push(tag);
        TagInsertOutcome::Inserted(9)
    };
    let (result, next_counter) = create_asset(&insert, &settings, 7, 3, Some("MANUAL-9"));
    let created = result.unwrap();
    assert_eq!((created.id, created.category_id, created.asset_tag.as_str()), (9, 3, "MANUAL-9"));
    assert_eq!(next_counter, None);
    assert_eq!(asked.into_inner(), vec!["MANUAL-9".to_string()]);
}

#[test]
fn generated_creation_reports_the_next_counter() {
    let settings = TagGeneratorSettings { prefix: "AST".to_string(), number_width: 4, separator: "-".to_string() };
    let asked = RefCell::new(Vec::new());
    let insert = |tag: String| {
        let taken = tag == "AST-0007" || tag == "AST-0008";
        asked.borrow_mut().push(tag);
        if taken { TagInsertOutcome::DuplicateTag } else { TagInsertOutcome::Inserted(4) }
    };
    let (result, next_counter) = create_asset(&insert, &settings, 7, 2, None);
    assert_eq!(result.unwrap().asset_tag, "AST-0009");
    assert_eq!(next_counter, Some(10));
    assert_eq!(asked.into_inner(), vec!["AST-0007".to_string(), "AST-0008".to_string(), "AST-0009".to_string()]);
}

#[test]
fn exhausted_counter_ends_in_a_duplicate_tag() {
    let settings = TagGeneratorSettings { prefix: String::new(), number_width: 1, separator: String::new() };
    let insert = |_tag: String| TagInsertOutcome::DuplicateTag;
    let (result, next_counter) = create_asset(&insert, &settings, i64::MAX - 1, 1, None);
    assert_eq!(result.unwrap_err(), AssetCreateError::DuplicateAssetTag(i64::MAX.to_string()));
    assert_eq!(next_counter, None);
    let used = |_tag: String| TagInsertOutcome::Inserted(1);
    let (result, next_counter) = create_asset(&used, &settings, i64::MAX, 1, None);
    assert_eq!(result.unwrap().asset_tag, i64::MAX.to_string());
    assert_eq!(next_counter, None);
}
