//! The decisions of the HAM server around its database: which asset tag an
//! insert tries and what its outcome leads to, which database errors are
//! duplicate asset tags, and whether a database's schema is migrated,
//! refused, or ready.
use vstd::prelude::*;
use crate::search::CreatedAsset;
use crate::server::{TagGeneratorSettings, format_tag, tag_text};
use crate::text::{chars_of, contains_chars, contains_text, int_text, i64_text};

verus! {

/// Why an asset could not be created.
#[derive(Debug, Clone, PartialEq, Eq)]
pub enum AssetCreateError {
    DuplicateAssetTag(String),
    Sql(String),
}

/// The text of an asset creation error.
pub open spec fn asset_create_error_text(e: AssetCreateError) -> Seq<char> {
    match e {
        AssetCreateError::DuplicateAssetTag(t) => "asset tag `"@ + t@ + "` already exists"@,
        AssetCreateError::Sql(m) => "database error: "@ + m@,
    }
}

impl AssetCreateError {
    /// The text of the error (see `asset_create_error_text`).
    pub fn to_string(&self) -> (s: String)
        ensures
            s@ == asset_create_error_text(*self),
    {
        match self {
            AssetCreateError::DuplicateAssetTag(t) => {
                let mut s = String::from_str("asset tag `");
                s.append(t.as_str());
                s.append("` already exists");
                s
            },
            AssetCreateError::Sql(m) => {
                let mut s = String::from_str("database error: ");
                s.append(m.as_str());
                s
            },
        }
    }
}

/// Whether a database error is the unique constraint on asset tags: a
/// constraint violation whose message names `assets.asset_tag`.
pub open spec fn duplicate_tag_error(constraint_violation: bool, message: Option<Seq<char>>) -> bool {
    constraint_violation && match message {
        Some(m) => contains_text(m, "UNIQUE constraint failed: assets.asset_tag"@),
        None => false,
    }
}

/// Whether a database error is the unique constraint on asset tags (see
/// `duplicate_tag_error`).
pub fn is_duplicate_asset_tag_constraint(constraint_violation: bool, message: Option<&str>) -> (b: bool)
    ensures
        b == duplicate_tag_error(
            constraint_violation,
            match message {
                Some(m) => Some(m@),
                None => None,
            },
        ),
{
    if !constraint_violation {
        return false;
    }
    match message {
        Some(m) => {
            let h = chars_of(m);
            let n = chars_of("UNIQUE constraint failed: assets.asset_tag");
            contains_chars(&h, &n)
        },
        None => false,
    }
}

/// Where an asset's tag comes from: given by hand, or generated from the
/// global counter, whose next value to try is kept.
#[derive(Debug, Clone)]
pub enum TagSource {
    Manual(String),
    Generated(i64),
}

/// The tag an insert tries for `source`.
pub open spec fn candidate_tag(settings: TagGeneratorSettings, source: TagSource) -> Seq<char> {
    match source {
        TagSource::Manual(t) => t@,
        TagSource::Generated(v) => tag_text(settings, v),
    }
}

/// The tag an insert tries (see `candidate_tag`).
pub fn tag_candidate(settings: &TagGeneratorSettings, source: &TagSource) -> (t: String)
    ensures
        t@ == candidate_tag(*settings, *source),
{
    match source {
        TagSource::Manual(t) => t.clone(),
        TagSource::Generated(v) => format_tag(settings, *v),
    }
}

/// What inserting an asset with a candidate tag did.
#[derive(Debug, Clone)]
pub enum TagInsertOutcome {
    Inserted(i64),
    DuplicateTag,
    Failed(String),
}

/// What follows an insert: the asset is created (with the counter value to
/// keep for the next generated tag, if the tag was generated), another
/// generated tag is tried, or the creation fails.
#[derive(Debug, Clone)]
pub enum AfterInsert {
    Created { asset: CreatedAsset, next_counter: Option<i64> },
    Retry(TagSource),
    Failed(AssetCreateError),
}

/// The counter value kept after generated value `v` was used: the next one,
/// or none once the counter has reached `i64::MAX` and cannot advance.
pub open spec fn counter_after_use(v: i64) -> Option<i64> {
    if v < i64::MAX {
        Some((v + 1) as i64)
    } else {
        None
    }
}

/// What follows inserting an asset of category `category_id` with tag
/// `tag` from `source`: a success creates it, keeping the counter after a
/// generated value; a duplicate of a manual tag fails, of a generated one
/// tries the next value (or fails, once no next value is left); any other
/// failure is a database error.
pub open spec fn after_insert_is(
    source: TagSource,
    category_id: i64,
    tag: Seq<char>,
    outcome: TagInsertOutcome,
    r: AfterInsert,
) -> bool {
    match outcome {
        TagInsertOutcome::Inserted(id) => r matches AfterInsert::Created { asset, next_counter } && asset.id == id
            && asset.category_id == category_id && asset.asset_tag@ == tag && next_counter == match source {
            TagSource::Manual(_) => None,
            TagSource::Generated(v) => counter_after_use(v),
        },
        TagInsertOutcome::DuplicateTag => match source {
            TagSource::Generated(v) => if v < i64::MAX {
                r matches AfterInsert::Retry(TagSource::Generated(w)) && w == v + 1
            } else {
                r matches AfterInsert::Failed(AssetCreateError::DuplicateAssetTag(t)) && t@ == tag
            },
            TagSource::Manual(_) => r matches AfterInsert::Failed(AssetCreateError::DuplicateAssetTag(t)) && t@ == tag,
        },
        TagInsertOutcome::Failed(m) => r matches AfterInsert::Failed(AssetCreateError::Sql(x)) && x@ == m@,
    }
}

/// What follows an insert (see `after_insert_is`).
pub fn after_insert(source: TagSource, category_id: i64, tag: String, outcome: TagInsertOutcome) -> (r: AfterInsert)
    ensures
        after_insert_is(source, category_id, tag@, outcome, r),
{
    match outcome {
        TagInsertOutcome::Inserted(id) => {
            let next_counter = match source {
                TagSource::Manual(_) => None,
                TagSource::Generated(v) => v.checked_add(1),
            };
            AfterInsert::Created { asset: CreatedAsset { id, category_id, asset_tag: tag }, next_counter }
        },
        TagInsertOutcome::DuplicateTag => match source {
            TagSource::Generated(v) => if v < i64::MAX {
                AfterInsert::Retry(TagSource::Generated(v + 1))
            } else {
                AfterInsert::Failed(AssetCreateError::DuplicateAssetTag(tag))
            },
            TagSource::Manual(_) => AfterInsert::Failed(AssetCreateError::DuplicateAssetTag(tag)),
        },
        TagInsertOutcome::Failed(m) => AfterInsert::Failed(AssetCreateError::Sql(m)),
    }
}

/// Whether `insert`, asked to insert an asset tagged `tag`, can answer `o`.
pub open spec fn insert_answer<I: Fn(String) -> TagInsertOutcome>(insert: I, tag: Seq<char>, o: TagInsertOutcome) -> bool {
    exists|t: String| #![trigger call_ensures(insert, (t,), o)] t@ == tag && call_ensures(insert, (t,), o)
}

/// Whether `insert` answered that the generated tag was taken for every
/// counter value from `from` up to, not including, `to`.
pub open spec fn taken_between<I: Fn(String) -> TagInsertOutcome>(
    insert: I,
    settings: TagGeneratorSettings,
    from: i64,
    to: i64,
) -> bool {
    forall|v: i64|
        from <= v < to ==> #[trigger] insert_answer(insert, tag_text(settings, v), TagInsertOutcome::DuplicateTag)
}

/// How a creation settles once the insert of tag `tag` was answered `o`,
/// where `value` is the counter value the tag was generated from (none for a
/// manual tag): the created asset with the counter to keep, the duplicate
/// (for a generated tag only once the counter cannot advance), or the
/// database error.
pub open spec fn creation_settled(
    o: TagInsertOutcome,
    category_id: i64,
    tag: Seq<char>,
    value: Option<i64>,
    r: (Result<CreatedAsset, AssetCreateError>, Option<i64>),
) -> bool {
    match o {
        TagInsertOutcome::Inserted(id) => r.0 matches Ok(a) && a.id == id && a.category_id == category_id
            && a.asset_tag@ == tag && r.1 == match value {
            None => None,
            Some(v) => counter_after_use(v),
        },
        TagInsertOutcome::DuplicateTag => r.0 matches Err(AssetCreateError::DuplicateAssetTag(t)) && t@ == tag
            && r.1 is None && match value {
            None => true,
            Some(v) => v == i64::MAX,
        },
        TagInsertOutcome::Failed(m) => r.0 matches Err(AssetCreateError::Sql(x)) && x@ == m@ && r.1 is None,
    }
}

/// Whether `r` is how creating an asset of category `category_id` went, with
/// `insert` answering the inserts: a manual tag is inserted once and settles
/// the creation; otherwise the tags generated from `next_value` upward are
/// tried in turn, each taken one skipped, until one insert settles it.
pub open spec fn creation_outcome<I: Fn(String) -> TagInsertOutcome>(
    insert: I,
    settings: TagGeneratorSettings,
    next_value: i64,
    category_id: i64,
    manual_asset_tag: Option<Seq<char>>,
    r: (Result<CreatedAsset, AssetCreateError>, Option<i64>),
) -> bool {
    match manual_asset_tag {
        Some(tag) => manual_creation(insert, category_id, tag, r),
        None => generated_creation(insert, settings, next_value, category_id, r),
    }
}

/// Whether the insert of the manual tag `tag` was answered so that it
/// settles the creation with `r`.
pub open spec fn manual_creation<I: Fn(String) -> TagInsertOutcome>(
    insert: I,
    category_id: i64,
    tag: Seq<char>,
    r: (Result<CreatedAsset, AssetCreateError>, Option<i64>),
) -> bool {
    exists|o: TagInsertOutcome|
        #![trigger insert_answer(insert, tag, o)]
        insert_answer(insert, tag, o) && creation_settled(o, category_id, tag, None, r)
}

/// Whether the tags generated from `next_value` upward were taken up to a
/// value whose insert was answered so that it settles the creation with `r`.
pub open spec fn generated_creation<I: Fn(String) -> TagInsertOutcome>(
    insert: I,
    settings: TagGeneratorSettings,
    next_value: i64,
    category_id: i64,
    r: (Result<CreatedAsset, AssetCreateError>, Option<i64>),
) -> bool {
    exists|w: i64, o: TagInsertOutcome|
        #![trigger insert_answer(insert, tag_text(settings, w), o)]
        next_value <= w && taken_between(insert, settings, next_value, w) && insert_answer(
            insert,
            tag_text(settings, w),
            o,
        ) && creation_settled(o, category_id, tag_text(settings, w), Some(w), r)
}

/// A creation with a manual tag neither uses nor moves the global counter:
/// it keeps no counter value, and the asset it creates carries the manual
/// tag.
pub proof fn lemma_manual_tag_keeps_counter<I: Fn(String) -> TagInsertOutcome>(
    insert: I,
    settings: TagGeneratorSettings,
    next_value: i64,
    category_id: i64,
    tag: Seq<char>,
    r: (Result<CreatedAsset, AssetCreateError>, Option<i64>),
)
    requires
        creation_outcome(insert, settings, next_value, category_id, Some(tag), r),
    ensures
        r.1 is None,
        r.0 matches Ok(a) ==> a.asset_tag@ == tag && a.category_id == category_id,
{
}

/// A generated creation skips the taken tags: the asset it creates carries
/// the tag of some value `w` from `next_value` on whose predecessors' tags
/// were all answered taken, and the counter it keeps is past `w`, so the
/// next generated creation starts after the tag just used.
pub proof fn lemma_generated_tag_skips_taken<I: Fn(String) -> TagInsertOutcome>(
    insert: I,
    settings: TagGeneratorSettings,
    next_value: i64,
    category_id: i64,
    r: (Result<CreatedAsset, AssetCreateError>, Option<i64>),
)
    requires
        creation_outcome(insert, settings, next_value, category_id, None, r),
        r.0 is Ok,
    ensures
        exists|w: i64|
            #![trigger tag_text(settings, w)]
            next_value <= w && taken_between(insert, settings, next_value, w) && r.0->Ok_0.asset_tag@ == tag_text(
                settings,
                w,
            ) && r.0->Ok_0.category_id == category_id && r.1 == counter_after_use(w),
        r.1 matches Some(n) ==> next_value < n,
{
    let (w, o) = choose|w: i64, o: TagInsertOutcome|
        next_value <= w && taken_between(insert, settings, next_value, w) && insert_answer(
            insert,
            tag_text(settings, w),
            o,
        ) && creation_settled(o, category_id, tag_text(settings, w), Some(w), r);
    assert(o is Inserted);
    assert(r.0->Ok_0.asset_tag@ == tag_text(settings, w));
}

/// An insert from `source` answered `outcome` and settled the creation with
/// `r`: then `r` is the creation's outcome.
proof fn lemma_settles_creation<I: Fn(String) -> TagInsertOutcome>(
    insert: I,
    settings: TagGeneratorSettings,
    next_value: i64,
    category_id: i64,
    manual_asset_tag: Option<&str>,
    source: TagSource,
    outcome: TagInsertOutcome,
    r: (Result<CreatedAsset, AssetCreateError>, Option<i64>),
)
    requires
        match manual_asset_tag {
            Some(t) => source matches TagSource::Manual(m) && m@ == t@,
            None => source matches TagSource::Generated(v) && next_value <= v && taken_between(
                insert,
                settings,
                next_value,
                v,
            ),
        },
        insert_answer(insert, candidate_tag(settings, source), outcome),
        exists|a: AfterInsert|
            after_insert_is(source, category_id, candidate_tag(settings, source), outcome, a) && match a {
                AfterInsert::Created { asset, next_counter } => r == (
                Ok::<CreatedAsset, AssetCreateError>(asset),
                next_counter,
                ),
                AfterInsert::Failed(e) => r == (Err::<CreatedAsset, AssetCreateError>(e), None::<i64>),
                AfterInsert::Retry(_) => false,
            },
    ensures
        creation_outcome(
            insert,
            settings,
            next_value,
            category_id,
            match manual_asset_tag {
                Some(t) => Some(t@),
                None => None,
            },
            r,
        ),
{
    let tag = candidate_tag(settings, source);
    match manual_asset_tag {
        Some(t) => {
            assert(insert_answer(insert, t@, outcome));
            assert(creation_settled(outcome, category_id, t@, None, r));
        },
        None => {
            let w = source->Generated_0;
            assert(creation_settled(outcome, category_id, tag, Some(w), r));
        },
    }
}

/// Creates an asset of category `category_id`, inserting it through
/// `insert`: with the manual tag if one is given, else with the tag
/// generated from the global counter's `next_value`, skipping each value
/// whose tag is taken. Returns the outcome and the counter value to keep
/// (none where the counter stays as it was; see `creation_outcome`).
pub fn create_asset<I: Fn(String) -> TagInsertOutcome>(
    insert: &I,
    settings: &TagGeneratorSettings,
    next_value: i64,
    category_id: i64,
    manual_asset_tag: Option<&str>,
) -> (r: (Result<CreatedAsset, AssetCreateError>, Option<i64>))
    requires
        forall|t: String| #[trigger] call_requires(*insert, (t,)),
    ensures
        creation_outcome(
            *insert,
            *settings,
            next_value,
            category_id,
            match manual_asset_tag {
                Some(t) => Some(t@),
                None => None,
            },
            r,
        ),
{
    let mut source = match manual_asset_tag {
        Some(t) => TagSource::Manual(t.to_string()),
        None => TagSource::Generated(next_value),
    };
    loop
        invariant
            forall|t: String| #[trigger] call_requires(*insert, (t,)),
            match manual_asset_tag {
                Some(t) => source matches TagSource::Manual(m) && m@ == t@,
                None => source matches TagSource::Generated(v) && next_value <= v && taken_between(
                    *insert,
                    *settings,
                    next_value,
                    v,
                ),
            },
        decreases
            match source {
                TagSource::Manual(_) => 0,
                TagSource::Generated(v) => i64::MAX - v,
            },
    {
        let tag = tag_candidate(settings, &source);
        let ghost tag_view = tag@;
        let asked = tag.clone();
        let outcome = insert(asked);
        proof {
            assert(insert_answer(*insert, tag_view, outcome));
        }
        let ghost before = source;
        match after_insert(source, category_id, tag, outcome) {
            AfterInsert::Created { asset, next_counter } => {
                let r = (Ok(asset), next_counter);
                proof {
                    lemma_settles_creation(*insert, *settings, next_value, category_id, manual_asset_tag, before, outcome, r);
                }
                return r;
            },
            AfterInsert::Failed(e) => {
                let r = (Err(e), None);
                proof {
                    lemma_settles_creation(*insert, *settings, next_value, category_id, manual_asset_tag, before, outcome, r);
                }
                return r;
            },
            AfterInsert::Retry(next) => {
                proof {
                    let v = before->Generated_0;
                    assert forall|u: i64| next_value <= u < v + 1 implies #[trigger] insert_answer(
                        *insert,
                        tag_text(*settings, u),
                        TagInsertOutcome::DuplicateTag,
                    ) by {
                        if u < v {
                            assert(taken_between(*insert, *settings, next_value, v));
                        }
                    }
                }
                source = next;
            },
        }
    }
}

/// The number of schema migrations the server carries.
pub open spec fn migration_count() -> i32 {
    3
}

/// The schema version the server expects: one per migration.
pub fn expected_schema_version() -> (v: i32)
    ensures
        v == migration_count(),
{
    3
}

/// Why the database could not be opened.
#[derive(Debug, Clone, PartialEq, Eq)]
pub enum DbError {
    Sql(String),
    IncompatibleSchemaVersion { found: i32, expected: i32 },
}

/// The text of a database opening error.
pub open spec fn db_error_text(e: DbError) -> Seq<char> {
    match e {
        DbError::Sql(m) => "database error: "@ + m@,
        DbError::IncompatibleSchemaVersion { found, expected } => "incompatible schema version: found "@ + int_text(
            found as int,
        ) + ", expected "@ + int_text(expected as int),
    }
}

impl DbError {
    /// The text of the error (see `db_error_text`).
    pub fn to_string(&self) -> (s: String)
        ensures
            s@ == db_error_text(*self),
    {
        match self {
            DbError::Sql(m) => {
                let mut s = String::from_str("database error: ");
                s.append(m.as_str());
                s
            },
            DbError::IncompatibleSchemaVersion { found, expected } => {
                let mut s = String::from_str("incompatible schema version: found ");
                let f = i64_text(*found as i64);
                s.append(f.as_str());
                s.append(", expected ");
                let e = i64_text(*expected as i64);
                s.append(e.as_str());
                s
            },
        }
    }
}

/// What opening a database with schema version `version` calls for: a
/// newer schema than expected is refused; an older one gets the migrations
/// after it, by their target versions in order; the expected one is ready.
pub open spec fn schema_plan(version: i32, expected: i32) -> Result<Seq<i32>, DbError> {
    if version > expected {
        Err(DbError::IncompatibleSchemaVersion { found: version, expected })
    } else {
        Ok(Seq::new((expected - (if version < 0 { 0 } else { version })) as nat, |k: int| (
        (if version < 0 { 0 } else { version }) + 1 + k) as i32))
    }
}

/// What opening a database with schema version `version` calls for (see
/// `schema_plan`), against the server's own migrations.
pub fn plan_schema(version: i32) -> (r: Result<Vec<i32>, DbError>)
    ensures
        match schema_plan(version, migration_count()) {
            Ok(targets) => r matches Ok(v) && v@ == targets,
            Err(e) => r == Err::<Vec<i32>, DbError>(e),
        },
{
    let expected = expected_schema_version();
    if version > expected {
        return Err(DbError::IncompatibleSchemaVersion { found: version, expected });
    }
    let mut targets: Vec<i32> = Vec::new();
    let mut target: i32 = 1;
    let from: i32 = if version < 0 { 0 } else { version };
    while target <= expected
        invariant
            1 <= target <= expected + 1,
            expected == migration_count(),
            0 <= from <= expected,
            from == (if version < 0 { 0 } else { version }),
            targets@.len() == (if target - 1 > from { target - 1 - from } else { 0 }),
            forall|k: int| 0 <= k < targets@.len() ==> #[trigger] targets@[k] == from + 1 + k,
        decreases expected + 1 - target,
    {
        if target > version {
            targets.push(target);
        }
        target = target + 1;
    }
    assert(targets@ =~= Seq::new((expected - from) as nat, |k: int| (from + 1 + k) as i32));
    Ok(targets)
}

} // verus!
