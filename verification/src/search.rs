//! The asset search of the HAM server, apart from reading the database and
//! from comparing numbers: the predicates on missing values, text, booleans
//! and external-entity references, the order of optional values, the sort
//! specification, and the window of results a cursor selects.
use vstd::prelude::*;
use core::cmp::Ordering;
use crate::json::{JsonValue, JsonView, json_view};
use crate::text::{
    ascii_lower, chars_of, eq_lit, lemma_text_le_order, parse_i64, parse_i64_spec, signed_digits_value,
    slice_chars, string_of, text_le, text_le_exec, to_ascii_lower, u64_text, nat_text, };

verus! {

/// An asset made by the server.
#[derive(Debug, Clone)]
pub struct CreatedAsset {
    pub id: i64,
    pub category_id: i64,
    pub asset_tag: String,
}

/// A sort key of a search: a field and `asc` or `desc`.
#[derive(Debug, Clone)]
pub struct AssetSearchSort {
    pub field: String,
    pub direction: String,
}

/// An asset found by a search.
#[derive(Debug, Clone)]
pub struct AssetSearchItem {
    pub id: i64,
    pub category_id: i64,
    pub asset_tag: String,
    pub display_name: Option<String>,
    pub deleted_at: Option<String>,
}

/// A page of search results.
#[derive(Debug, Clone)]
pub struct AssetSearchPage {
    pub items: Vec<AssetSearchItem>,
    pub next_cursor: Option<String>,
    pub total_estimate: Option<i64>,
}

/// A predicate of a search.
#[derive(Debug, Clone)]
pub struct AssetSearchFilter {
    pub field: String,
    pub op: String,
    pub value: Option<JsonValue>,
    pub values: Option<Vec<JsonValue>>,
    pub include_subtree: bool,
}

/// Filters an asset must pass together.
#[derive(Debug, Clone)]
pub struct AssetSearchFilterGroup {
    pub filters: Vec<AssetSearchFilter>,
}

/// A search: filters every result passes, groups of which a result passes
/// at least one (when there are any), sort keys, and the page wanted.
#[derive(Debug, Clone)]
pub struct AssetSearchQuery {
    pub filters: Vec<AssetSearchFilter>,
    pub or_groups: Vec<AssetSearchFilterGroup>,
    pub sort: Vec<AssetSearchSort>,
    pub limit: Option<usize>,
    pub cursor: Option<String>,
    pub include_total_estimate: bool,
}

/// An asset as a search reads it.
#[derive(Debug, Clone)]
pub struct AssetRecord {
    pub id: i64,
    pub category_id: i64,
    pub asset_tag: String,
    pub display_name: Option<String>,
    pub deleted_at: Option<String>,
    pub created_at: String,
}

/// What a search reads of a tag definition.
#[derive(Debug, Clone)]
pub struct TagDefinitionMeta {
    pub tag_key: String,
    pub value_type: String,
    pub external_entity_type_id: Option<i64>,
}

/// A category and its parent.
#[derive(Debug, Clone, Copy)]
pub struct CategoryLink {
    pub id: i64,
    pub parent_category_id: Option<i64>,
}

/// Why a search was refused.
#[derive(Debug, Clone, PartialEq, Eq)]
pub enum AssetSearchError {
    InvalidRequest(String),
    Sql(String),
}

/// Whether `r` refuses the request with message `m`.
pub open spec fn refused_with<T>(r: Result<T, AssetSearchError>, m: Seq<char>) -> bool {
    r matches Err(AssetSearchError::InvalidRequest(x)) && x@ == m
}

/// The operators every comparison knows.
pub open spec fn known_operator(op: Seq<char>) -> bool {
    op == "eq"@ || op == "contains"@ || op == "lt"@ || op == "lte"@ || op == "gt"@ || op == "gte"@ || op
        == "between"@
}

/// Whether an asset without the tag passes predicate `op`: only `is_null`
/// does; an unknown operator is refused.
pub fn compare_missing(op: &str) -> (r: Result<bool, AssetSearchError>)
    ensures
        op@ == "is_null"@ ==> r == Ok::<bool, AssetSearchError>(true),
        op@ == "is_not_null"@ ==> r == Ok::<bool, AssetSearchError>(false),
        known_operator(op@) ==> r == Ok::<bool, AssetSearchError>(false),
        !(op@ == "is_null"@ || op@ == "is_not_null"@ || known_operator(op@)) ==> refused_with(
            r,
            "unsupported operator `"@ + op@ + "`"@,
        ),
{
    let v = chars_of(op);
    proof {
        reveal_strlit("is_null");
        reveal_strlit("is_not_null");
        reveal_strlit("eq");
        reveal_strlit("contains");
        reveal_strlit("lt");
        reveal_strlit("lte");
        reveal_strlit("gt");
        reveal_strlit("gte");
        reveal_strlit("between");
        assert("is_null"@.len() == 7 && "is_not_null"@.len() == 11);
        assert("eq"@.len() == 2 && "lt"@.len() == 2 && "gt"@.len() == 2);
        assert("lte"@.len() == 3 && "gte"@.len() == 3 && "contains"@.len() == 8);
        assert("between"@.len() == 7 && "between"@[0] != "is_null"@[0]);
        assert(!known_operator("is_null"@));
        assert(!known_operator("is_not_null"@));
    }
    if eq_lit(&v, "is_null") {
        Ok(true)
    } else if eq_lit(&v, "is_not_null") {
        Ok(false)
    } else if eq_lit(&v, "eq") || eq_lit(&v, "contains") || eq_lit(&v, "lt") || eq_lit(&v, "lte") || eq_lit(&v, "gt")
        || eq_lit(&v, "gte") || eq_lit(&v, "between") {
        Ok(false)
    } else {
        let mut m = String::from_str("unsupported operator `");
        m.append(op);
        m.append("`");
        Err(AssetSearchError::InvalidRequest(m))
    }
}

/// Whether `a` comes strictly before `b` in lexicographic order.
pub open spec fn text_lt(a: Seq<char>, b: Seq<char>) -> bool {
    text_le(a, b) && a != b
}

/// The text comparison `op` (`lt`, `lte`, `gt`, `gte`) of `lhs` with `rhs`;
/// false for any other operator.
pub open spec fn text_compare(lhs: Seq<char>, rhs: Seq<char>, op: Seq<char>) -> bool {
    if op == "lt"@ {
        text_lt(lhs, rhs)
    } else if op == "lte"@ {
        text_le(lhs, rhs)
    } else if op == "gt"@ {
        text_lt(rhs, lhs)
    } else if op == "gte"@ {
        text_le(rhs, lhs)
    } else {
        false
    }
}

/// Compares two texts by the operator `op` (see `text_compare`).
pub fn compare_ord(lhs: &str, rhs: &str, op: &str) -> (b: bool)
    ensures
        b == text_compare(lhs@, rhs@, op@),
{
    let l = chars_of(lhs);
    let r = chars_of(rhs);
    let o = chars_of(op);
    let le = text_le_exec(&l, &r);
    let ge = text_le_exec(&r, &l);
    let same = crate::text::eq_chars(&l, &r);
    if eq_lit(&o, "lt") {
        le && !same
    } else if eq_lit(&o, "lte") {
        le
    } else if eq_lit(&o, "gt") {
        ge && !same
    } else if eq_lit(&o, "gte") {
        ge
    } else {
        false
    }
}

/// The order of two texts.
pub open spec fn text_order(a: Seq<char>, b: Seq<char>) -> Ordering {
    if a == b {
        Ordering::Equal
    } else if text_le(a, b) {
        Ordering::Less
    } else {
        Ordering::Greater
    }
}

/// The order of two optional texts: absent first, then by text.
pub open spec fn option_text_order(left: Option<String>, right: Option<String>) -> Ordering {
    match (left, right) {
        (None, None) => Ordering::Equal,
        (None, Some(_)) => Ordering::Less,
        (Some(_), None) => Ordering::Greater,
        (Some(a), Some(b)) => text_order(a@, b@),
    }
}

/// The order of two optional texts (see `option_text_order`).
pub fn compare_option_text(left: Option<String>, right: Option<String>) -> (o: Ordering)
    ensures
        o == option_text_order(left, right),
{
    match (left, right) {
        (None, None) => Ordering::Equal,
        (None, Some(_)) => Ordering::Less,
        (Some(_), None) => Ordering::Greater,
        (Some(a), Some(b)) => {
            let x = chars_of(a.as_str());
            let y = chars_of(b.as_str());
            if crate::text::eq_chars(&x, &y) {
                Ordering::Equal
            } else if text_le_exec(&x, &y) {
                Ordering::Less
            } else {
                Ordering::Greater
            }
        },
    }
}

/// The order of two optional booleans: absent first, then `false`, then `true`.
pub open spec fn option_bool_order(left: Option<bool>, right: Option<bool>) -> Ordering {
    match (left, right) {
        (None, None) => Ordering::Equal,
        (None, Some(_)) => Ordering::Less,
        (Some(_), None) => Ordering::Greater,
        (Some(a), Some(b)) => if a == b {
            Ordering::Equal
        } else if !a {
            Ordering::Less
        } else {
            Ordering::Greater
        },
    }
}

/// The order of two optional booleans (see `option_bool_order`).
pub fn compare_option_bool(left: Option<bool>, right: Option<bool>) -> (o: Ordering)
    ensures
        o == option_bool_order(left, right),
{
    match (left, right) {
        (None, None) => Ordering::Equal,
        (None, Some(_)) => Ordering::Less,
        (Some(_), None) => Ordering::Greater,
        (Some(a), Some(b)) => {
            if a == b {
                Ordering::Equal
            } else if !a {
                Ordering::Less
            } else {
                Ordering::Greater
            }
        },
    }
}

/// Comparing optional texts either way round gives opposite orders.
pub proof fn lemma_option_text_order_flips(left: Option<String>, right: Option<String>)
    ensures
        option_text_order(left, right) == Ordering::Less <==> option_text_order(right, left) == Ordering::Greater,
        option_text_order(left, right) == Ordering::Equal <==> option_text_order(right, left) == Ordering::Equal,
{
    match (left, right) {
        (Some(a), Some(b)) => {
            lemma_text_le_order(a@, b@, b@);
        },
        _ => {},
    }
}

} // verus!

verus! {

/// The entity type an `external_entity(<id>)` search field names, if the
/// field has that shape and the id is a decimal `i64`.
pub open spec fn external_entity_field(field: Seq<char>) -> Option<i64> {
    if field.len() >= 17 && field.take(16) == "external_entity("@ && field.last() == ')' {
        parse_i64_spec(field.subrange(16, field.len() - 1))
    } else {
        None
    }
}

/// The entity type an `external_entity(<id>)` search field names (see
/// `external_entity_field`).
pub fn parse_external_entity_type_id(field: &str) -> (r: Option<i64>)
    ensures
        r == external_entity_field(field@),
{
    let v = chars_of(field);
    let n = v.len();
    if n < 17 {
        return None;
    }
    let head = slice_chars(&v, 0, 16);
    assert(head@ == v@.take(16));
    if !eq_lit(&head, "external_entity(") || v[n - 1] != ')' {
        return None;
    }
    let inner = slice_chars(&v, 16, n - 1);
    let text = string_of(&inner);
    parse_i64(text.as_str())
}

/// The integer a filter value stands for: an integer number, or a text that
/// spells one.
pub open spec fn filter_i64(v: JsonView) -> Option<i64> {
    match v {
        JsonView::Number(n) => n.spec_as_i64(),
        JsonView::String(s) => parse_i64_spec(s),
        _ => None,
    }
}

/// The integer a filter value stands for (see `filter_i64`).
pub fn value_as_i64(value: &JsonValue) -> (r: Option<i64>)
    ensures
        r == filter_i64(json_view(*value)),
{
    match value {
        JsonValue::Number(n) => n.as_i64(),
        JsonValue::String(s) => parse_i64(s.as_str()),
        _ => None,
    }
}

/// The boolean a filter compares with: its value, which must be a boolean.
pub fn required_bool_value(filter: &AssetSearchFilter) -> (r: Result<Option<bool>, AssetSearchError>)
    ensures
        match filter.value {
            None => refused_with(r, "operator `eq` requires `value` for boolean field"@),
            Some(v) => match v {
                JsonValue::Bool(b) => r == Ok::<Option<bool>, AssetSearchError>(Some(b)),
                _ => refused_with(r, "boolean eq filter requires boolean `value`"@),
            },
        },
{
    match &filter.value {
        None => Err(AssetSearchError::InvalidRequest(String::from_str("operator `eq` requires `value` for boolean field"))),
        Some(v) => match v.as_bool() {
            Some(b) => Ok(Some(b)),
            None => Err(AssetSearchError::InvalidRequest(String::from_str("boolean eq filter requires boolean `value`"))),
        },
    }
}

/// The integer a filter compares with: its value, which must stand for one.
pub fn required_integer_value(filter: &AssetSearchFilter, op_name: &str) -> (r: Result<Option<i64>, AssetSearchError>)
    ensures
        match filter.value {
            None => refused_with(r, "operator `"@ + op_name@ + "` requires `value`"@),
            Some(v) => match filter_i64(json_view(v)) {
                Some(i) => r == Ok::<Option<i64>, AssetSearchError>(Some(i)),
                None => refused_with(r, "operator `"@ + op_name@ + "` requires integer `value`"@),
            },
        },
{
    match &filter.value {
        None => {
            let mut m = String::from_str("operator `");
            m.append(op_name);
            m.append("` requires `value`");
            Err(AssetSearchError::InvalidRequest(m))
        },
        Some(v) => match value_as_i64(v) {
            Some(i) => Ok(Some(i)),
            None => {
                let mut m = String::from_str("operator `");
                m.append(op_name);
                m.append("` requires integer `value`");
                Err(AssetSearchError::InvalidRequest(m))
            },
        },
    }
}

/// Whether a boolean tag value `lhs` passes the predicate `op` of `filter`:
/// `is_null`, `is_not_null`, or `eq` against the filter's boolean.
pub fn compare_bool(lhs: Option<bool>, op: &str, filter: &AssetSearchFilter) -> (r: Result<bool, AssetSearchError>)
    ensures
        op@ == "is_null"@ ==> r == Ok::<bool, AssetSearchError>(lhs is None),
        op@ == "is_not_null"@ ==> r == Ok::<bool, AssetSearchError>(lhs is Some),
        op@ == "eq"@ ==> match filter.value {
            Some(JsonValue::Bool(b)) => r == Ok::<bool, AssetSearchError>(lhs == Some(b)),
            None => refused_with(r, "operator `eq` requires `value` for boolean field"@),
            _ => refused_with(r, "boolean eq filter requires boolean `value`"@),
        },
        !(op@ == "is_null"@ || op@ == "is_not_null"@ || op@ == "eq"@) ==> refused_with(
            r,
            "boolean filters only support eq/is_null/is_not_null"@,
        ),
{
    let o = chars_of(op);
    proof {
        reveal_strlit("is_null");
        reveal_strlit("is_not_null");
        reveal_strlit("eq");
        assert("is_null"@.len() == 7 && "is_not_null"@.len() == 11 && "eq"@.len() == 2);
    }
    if eq_lit(&o, "is_null") {
        Ok(lhs.is_none())
    } else if eq_lit(&o, "is_not_null") {
        Ok(lhs.is_some())
    } else if eq_lit(&o, "eq") {
        match required_bool_value(filter) {
            Ok(rhs) => Ok(lhs == rhs),
            Err(e) => Err(e),
        }
    } else {
        Err(AssetSearchError::InvalidRequest(String::from_str("boolean filters only support eq/is_null/is_not_null")))
    }
}

/// The current value of one tag of an asset, with what it refers to.
#[derive(Debug, Clone)]
pub struct TagValueRecord {
    pub tag_key: String,
    pub value_json: JsonValue,
    pub value_type: String,
    pub external_entity_id: Option<i64>,
    pub external_entity_type_id: Option<i64>,
}

/// Whether tag value `v` refers to an entity of type `type_id`.
pub open spec fn refers_to_type(v: TagValueRecord, type_id: i64) -> bool {
    v.value_type@ == "external_entity"@ && v.external_entity_type_id == Some(type_id)
}

/// Whether an asset with tag values `values` passes the predicate `op` of an
/// `external_entity(<type_id>)` filter: `eq` when one of its references of
/// that type is the filter's entity, `is_null` when none is of that type,
/// `is_not_null` when one is.
pub fn match_external_entity_type_filter(
    values: &[TagValueRecord],
    filter: &AssetSearchFilter,
    type_id: i64,
) -> (r: Result<bool, AssetSearchError>)
    ensures
        ({
            let op = ascii_lower(filter.op@);
            let any = exists|i: int| 0 <= i < values@.len() && refers_to_type(#[trigger] values@[i], type_id);
            let expected = match filter.value {
                Some(v) => filter_i64(json_view(v)),
                None => None,
            };
            let eq = exists|i: int|
                0 <= i < values@.len() && refers_to_type(#[trigger] values@[i], type_id) && expected is Some
                    && values@[i].external_entity_id == expected;
            if op == "eq"@ {
                r == Ok::<bool, AssetSearchError>(eq)
            } else if op == "is_null"@ {
                r == Ok::<bool, AssetSearchError>(!any)
            } else if op == "is_not_null"@ {
                r == Ok::<bool, AssetSearchError>(any)
            } else {
                refused_with(r, "external_entity(type_id) only supports eq/is_null/is_not_null"@)
            }
        }),
{
    let op = to_ascii_lower(filter.op.as_str());
    let is_eq = eq_lit(&op, "eq");
    let is_null = eq_lit(&op, "is_null");
    let is_not_null = eq_lit(&op, "is_not_null");
    if !is_eq && !is_null && !is_not_null {
        return Err(
            AssetSearchError::InvalidRequest(
                String::from_str("external_entity(type_id) only supports eq/is_null/is_not_null"),
            ),
        );
    }
    let expected: Option<i64> = match &filter.value {
        Some(v) => value_as_i64(v),
        None => None,
    };
    let mut matched_any = false;
    let mut matched_eq = false;
    let mut i: usize = 0;
    while i < values.len()
        invariant
            i <= values@.len(),
            expected == match filter.value {
                Some(v) => filter_i64(json_view(v)),
                None => None,
            },
            matched_any == exists|k: int| 0 <= k < i && refers_to_type(#[trigger] values@[k], type_id),
            matched_eq == exists|k: int|
                0 <= k < i && refers_to_type(#[trigger] values@[k], type_id) && expected is Some
                    && values@[k].external_entity_id == expected,
        decreases values.len() - i,
    {
        let v = &values[i];
        let t = chars_of(v.value_type.as_str());
        if eq_lit(&t, "external_entity") && v.external_entity_type_id == Some(type_id) {
            matched_any = true;
            match expected {
                Some(e) => {
                    if v.external_entity_id == Some(e) {
                        matched_eq = true;
                    }
                },
                None => {},
            }
        }
        i = i + 1;
    }
    proof {
        reveal_strlit("eq");
        reveal_strlit("is_null");
        reveal_strlit("is_not_null");
        assert("is_null"@.len() == 7 && "is_not_null"@.len() == 11 && "eq"@.len() == 2);
    }
    if is_eq {
        Ok(matched_eq)
    } else if is_null {
        Ok(!matched_any)
    } else {
        Ok(matched_any)
    }
}

} // verus!

verus! {

/// Whether `f` is a field every asset has and searches sort by.
pub open spec fn builtin_sort_field(f: Seq<char>) -> bool {
    f == "id"@ || f == "category_id"@ || f == "asset_tag"@ || f == "display_name"@ || f == "created_at"@
}

/// A sort key as texts.
pub open spec fn sort_view(s: AssetSearchSort) -> (Seq<char>, Seq<char>) {
    (s.field@, s.direction@)
}

/// Sort keys as texts.
pub open spec fn sort_views(sorts: Seq<AssetSearchSort>) -> Seq<(Seq<char>, Seq<char>)> {
    sorts.map_values(|s: AssetSearchSort| sort_view(s))
}

/// Texts of strings.
pub open spec fn string_texts(v: Seq<String>) -> Seq<Seq<char>> {
    v.map_values(|t: String| t@)
}

/// The sort keys asked for, or ascending asset tag when none is.
pub open spec fn requested_sorts(sorts: Seq<AssetSearchSort>) -> Seq<(Seq<char>, Seq<char>)> {
    if sorts.len() == 0 {
        seq![("asset_tag"@, "asc"@)]
    } else {
        sort_views(sorts)
    }
}

/// Why the sort key `k` is refused, if it is: a direction other than `asc`
/// or `desc` in any case, or a field that is neither built in nor a tag.
pub open spec fn sort_key_problem(k: (Seq<char>, Seq<char>), tags: Seq<Seq<char>>) -> Option<Seq<char>> {
    let dir = ascii_lower(k.1);
    if dir != "asc"@ && dir != "desc"@ {
        Some("invalid sort direction `"@ + k.1 + "`"@)
    } else if !builtin_sort_field(k.0) && !tags.contains(k.0) {
        Some("invalid sort field `"@ + k.0 + "`"@)
    } else {
        None
    }
}

/// The problem of the first refused key among `keys` from `i` on.
pub open spec fn first_sort_problem(keys: Seq<(Seq<char>, Seq<char>)>, tags: Seq<Seq<char>>, i: int) -> Option<
    Seq<char>,
>
    decreases keys.len() - i,
{
    if i < 0 || i >= keys.len() {
        None
    } else {
        match sort_key_problem(keys[i], tags) {
            Some(p) => Some(p),
            None => first_sort_problem(keys, tags, i + 1),
        }
    }
}

/// The keys, ending with ascending asset tag unless some key already sorts
/// by the asset tag (in any case).
pub open spec fn completed_sorts(keys: Seq<(Seq<char>, Seq<char>)>) -> Seq<(Seq<char>, Seq<char>)> {
    if exists|i: int| 0 <= i < keys.len() && ascii_lower(#[trigger] keys[i].0) == "asset_tag"@ {
        keys
    } else {
        keys.push(("asset_tag"@, "asc"@))
    }
}

/// The sort keys of a search, checked against the tags `tags` and completed
/// so that ties are broken by asset tag.
pub fn normalize_and_validate_sorts(sorts: &[AssetSearchSort], tags: &[String]) -> (r: Result<
    Vec<AssetSearchSort>,
    AssetSearchError,
>)
    ensures
        ({
            let keys = requested_sorts(sorts@);
            match first_sort_problem(keys, string_texts(tags@), 0) {
                Some(p) => refused_with(r, p),
                None => r matches Ok(v) && sort_views(v@) == completed_sorts(keys),
            }
        }),
{
    let ghost tag_texts = string_texts(tags@);
    let mut out: Vec<AssetSearchSort> = Vec::new();
    if sorts.len() == 0 {
        out.push(AssetSearchSort { field: String::from_str("asset_tag"), direction: String::from_str("asc") });
    } else {
        let mut i: usize = 0;
        while i < sorts.len()
            invariant
                i <= sorts@.len(),
                out@.len() == i,
                sort_views(out@) == sort_views(sorts@.take(i as int)),
            decreases sorts.len() - i,
        {
            let ghost prev = out@;
            out.push(AssetSearchSort { field: sorts[i].field.clone(), direction: sorts[i].direction.clone() });
            proof {
                assert forall|k: int| 0 <= k < i + 1 implies #[trigger] sort_views(out@)[k] == sort_views(
                    sorts@.take(i + 1),
                )[k] by {
                    if k < i {
                        assert(sort_views(prev)[k] == sort_views(sorts@.take(i as int))[k]);
                        assert(out@[k] == prev[k]);
                    }
                }
                assert(sort_views(out@) =~= sort_views(sorts@.take(i + 1)));
            }
            i = i + 1;
        }
        assert(sorts@.take(i as int) == sorts@);
    }
    let ghost keys = requested_sorts(sorts@);
    assert(sort_views(out@) == keys);
    let mut j: usize = 0;
    let mut has_tag_sort = false;
    while j < out.len()
        invariant
            j <= out@.len(),
            sort_views(out@) == keys,
            keys == requested_sorts(sorts@),
            tag_texts == string_texts(tags@),
            first_sort_problem(keys, tag_texts, 0) == first_sort_problem(keys, tag_texts, j as int),
            has_tag_sort == exists|k: int| 0 <= k < j && ascii_lower(#[trigger] keys[k].0) == "asset_tag"@,
        decreases out.len() - j,
    {
        assert(keys[j as int] == sort_view(out@[j as int]));
        let dir = to_ascii_lower(out[j].direction.as_str());
        if !eq_lit(&dir, "asc") && !eq_lit(&dir, "desc") {
            let mut m = String::from_str("invalid sort direction `");
            m.append(out[j].direction.as_str());
            m.append("`");
            return Err(AssetSearchError::InvalidRequest(m));
        }
        let f = chars_of(out[j].field.as_str());
        let builtin = eq_lit(&f, "id") || eq_lit(&f, "category_id") || eq_lit(&f, "asset_tag") || eq_lit(
            &f,
            "display_name",
        ) || eq_lit(&f, "created_at");
        if !builtin {
            let mut known = false;
            let mut t: usize = 0;
            while t < tags.len()
                invariant
                    t <= tags@.len(),
                    j < out@.len(),
                    f@ == out@[j as int].field@,
                    tag_texts == string_texts(tags@),
                    known == exists|q: int| 0 <= q < t && tag_texts[q] == f@,
                decreases tags.len() - t,
            {
                assert(tag_texts[t as int] == tags@[t as int]@);
                if crate::json::str_eq(tags[t].as_str(), out[j].field.as_str()) {
                    known = true;
                }
                t = t + 1;
            }
            if !known {
                proof {
                    if tag_texts.contains(f@) {
                        let q = choose|q: int| 0 <= q < tag_texts.len() && tag_texts[q] == f@;
                        assert(tag_texts[q] == f@);
                    }
                }
                let mut m = String::from_str("invalid sort field `");
                m.append(out[j].field.as_str());
                m.append("`");
                return Err(AssetSearchError::InvalidRequest(m));
            }
            proof {
                let q = choose|q: int| 0 <= q < t && tag_texts[q] == f@;
                assert(tag_texts.contains(f@));
            }
        }
        let lf = to_ascii_lower(out[j].field.as_str());
        if eq_lit(&lf, "asset_tag") {
            has_tag_sort = true;
        }
        j = j + 1;
    }
    if !has_tag_sort {
        out.push(AssetSearchSort { field: String::from_str("asset_tag"), direction: String::from_str("asc") });
        assert(sort_views(out@) =~= keys.push(("asset_tag"@, "asc"@)));
    }
    Ok(out)
}

} // verus!

verus! {

/// The unsigned integer `s` spells as the standard library reads one: an
/// optional `+`, then decimal digits.
pub open spec fn unsigned_text_value(s: Seq<char>) -> Option<int> {
    if s.len() > 0 && s[0] == '-' {
        None
    } else {
        signed_digits_value(s)
    }
}

/// The position a cursor names among `total` results, if it spells one no
/// larger than `total`.
pub fn cursor_start(cursor: &str, total: usize) -> (r: Option<usize>)
    ensures
        match unsigned_text_value(cursor@) {
            Some(v) => if v <= total {
                r == Some(v as usize)
            } else {
                r is None
            },
            None => r is None,
        },
{
    let v = chars_of(cursor);
    let n = v.len();
    if n == 0 || v[0] == '-' {
        return None;
    }
    let start: usize = if v[0] == '+' { 1 } else { 0 };
    if start == n {
        return None;
    }
    let ghost body = v@.subrange(start as int, n as int);
    proof {
        if start == 1 {
            assert(body == v@.drop_first());
        } else {
            assert(body == v@);
        }
    }
    let mut value: usize = 0;
    let mut i: usize = start;
    while i < n
        invariant
            start <= i <= n,
            n == v@.len(),
            v@ == cursor@,
            start <= 1,
            n > start,
            body == v@.subrange(start as int, n as int),
            start == 1 ==> body == v@.drop_first() && v@[0] == '+',
            start == 0 ==> body == v@ && v@[0] != '+' && v@[0] != '-',
            crate::text::all_digits(body.take(i - start)),
            value == crate::text::digits_value(body.take(i - start)),
            value <= total,
        decreases n - i,
    {
        let c = v[i];
        assert(body[i - start] == c);
        if !('0' <= c && c <= '9') {
            assert(!crate::text::all_digits(body));
            return None;
        }
        let d = (c as u32 - '0' as u32) as usize;
        assert(body.take(i + 1 - start).drop_last() == body.take(i - start));
        assert(crate::text::all_digits(body.take(i + 1 - start)));
        if d > total || value > (total - d) / 10 {
            proof {
                assert(crate::text::digits_value(body.take(i + 1 - start)) == value * 10 + d);
                if d <= total {
                    assert(value * 10 + d > total) by (nonlinear_arith)
                        requires
                            value > (total - d) / 10,
                            d <= 9,
                            d <= total,
                    ;
                }
                if crate::text::all_digits(body) {
                    crate::text::lemma_digits_value_prefix_mono(body, i + 1 - start, body.len() as int);
                    assert(body.take(body.len() as int) == body);
                }
            }
            return None;
        }
        proof {
            assert(value * 10 + d <= total) by (nonlinear_arith)
                requires
                    value <= (total - d) / 10,
                    d <= total,
            ;
        }
        value = value * 10 + d;
        i = i + 1;
    }
    assert(body.take(n - start) == body);
    Some(value)
}

} // verus!

verus! {

/// Search paging is stable: the cursor a page hands out spells the position
/// where that page ended, so handing it back starts the next page exactly
/// there (and it is a position within the results, as the page ended before
/// the last result).
pub proof fn lemma_next_cursor_resumes(end: nat, total: nat)
    requires
        end < total,
    ensures
        unsigned_text_value(nat_text(end)) == Some(end as int),
        end <= total,
{
    crate::text::lemma_nat_text(end);
    let t = nat_text(end);
    assert(t[0] != '-' && t[0] != '+') by {
        assert(crate::text::is_digit(t[0]));
    }
}

/// The results a search page shows among `total` sorted results: from the
/// cursor's position (0 without cursor) up to `limit` more (50 by default),
/// with the cursor of the next page when results remain; a cursor that is no
/// position within the results is refused.
pub fn search_window(total: usize, cursor: Option<&str>, limit: Option<usize>) -> (r: Result<
    (usize, usize, Option<String>),
    AssetSearchError,
>)
    ensures
        ({
            let start: Option<int> = match cursor {
                None => Some(0),
                Some(c) => unsigned_text_value(c@),
            };
            let lim: int = match limit {
                Some(l) => l as int,
                None => 50,
            };
            match start {
                Some(s) if s <= total => r matches Ok((a, b, next)) && a == s && b == (if s + lim < total {
                    s + lim
                } else {
                    total as int
                }) && match next {
                    Some(t) => b < total && t@ == nat_text(b as nat),
                    None => b >= total,
                },
                _ => refused_with(r, "invalid cursor"@),
            }
        }),
{
    let start = match cursor {
        None => 0,
        Some(c) => match cursor_start(c, total) {
            Some(s) => s,
            None => {
                return Err(AssetSearchError::InvalidRequest(String::from_str("invalid cursor")));
            },
        },
    };
    let lim = match limit {
        Some(l) => l,
        None => 50,
    };
    let end = if lim < total - start {
        start + lim
    } else {
        total
    };
    let next = if end < total {
        Some(u64_text(end as u64))
    } else {
        None
    };
    Ok((start, end, next))
}

} // verus!
