//! The order of search results: each sort key compares two assets by one of
//! their fields or tags, and the keys are tried in turn.
use vstd::prelude::*;
use core::cmp::Ordering;
use crate::json::{JsonValue, json_as_bool};
use crate::search::{
    AssetRecord, AssetSearchSort, TagDefinitionMeta, TagValueRecord, compare_option_bool, compare_option_text,
    lemma_option_text_order_flips, option_bool_order, option_text_order, text_order,
};
use crate::search_filter::{
    NumberOrder, NumberRules, definition_of, find_tag_definition_at, find_tag_value_at, index_int, integer_json,
    reference_number, value_as_string, value_of, value_text,
};
use crate::text::{ascii_lower, chars_of, eq_chars, eq_lit, lemma_text_le_order, text_le_exec, to_ascii_lower};

verus! {

/// The order of two optional numbers: absent first, then by `order`, with
/// numbers that do not compare taken as equal.
pub open spec fn option_number_order<R: Fn(&JsonValue) -> Option<u64>, O: Fn(u64, u64) -> NumberOrder, T: Fn(u64) -> String>(
    rules: NumberRules<R, O, T>,
    left: Option<u64>,
    right: Option<u64>,
) -> Ordering {
    match (left, right) {
        (None, None) => Ordering::Equal,
        (None, Some(_)) => Ordering::Less,
        (Some(_), None) => Ordering::Greater,
        (Some(a), Some(b)) => match rules.order_of(a, b) {
            NumberOrder::Less => Ordering::Less,
            NumberOrder::Greater => Ordering::Greater,
            _ => Ordering::Equal,
        },
    }
}

/// The order of two optional numbers (see `option_number_order`).
pub fn compare_option_num<R: Fn(&JsonValue) -> Option<u64>, O: Fn(u64, u64) -> NumberOrder, T: Fn(u64) -> String>(
    left: Option<u64>,
    right: Option<u64>,
    rules: &NumberRules<R, O, T>,
) -> (o: Ordering)
    requires
        rules.wf(),
    ensures
        o == option_number_order(*rules, left, right),
{
    match (left, right) {
        (None, None) => Ordering::Equal,
        (None, Some(_)) => Ordering::Less,
        (Some(_), None) => Ordering::Greater,
        (Some(a), Some(b)) => match rules.compare_numbers(a, b) {
            NumberOrder::Less => Ordering::Less,
            NumberOrder::Greater => Ordering::Greater,
            _ => Ordering::Equal,
        },
    }
}

/// The order of two optional texts: absent first, then lexicographic.
pub open spec fn option_seq_order(left: Option<Seq<char>>, right: Option<Seq<char>>) -> Ordering {
    match (left, right) {
        (None, None) => Ordering::Equal,
        (None, Some(_)) => Ordering::Less,
        (Some(_), None) => Ordering::Greater,
        (Some(a), Some(b)) => text_order(a, b),
    }
}

/// The text of a tag value, if the asset has one that stands for a text.
pub open spec fn held_text<R: Fn(&JsonValue) -> Option<u64>, O: Fn(u64, u64) -> NumberOrder, T: Fn(u64) -> String>(
    rules: NumberRules<R, O, T>,
    v: Option<TagValueRecord>,
) -> Option<Seq<char>> {
    match v {
        Some(r) => value_text(rules, r.value_json),
        None => None,
    }
}

/// The number of a tag value, if the asset has one that stands for a number.
pub open spec fn held_number<R: Fn(&JsonValue) -> Option<u64>, O: Fn(u64, u64) -> NumberOrder, T: Fn(u64) -> String>(
    rules: NumberRules<R, O, T>,
    v: Option<TagValueRecord>,
) -> Option<u64> {
    match v {
        Some(r) => rules.number(r.value_json),
        None => None,
    }
}

/// The number of the entity a tag value refers to, if any.
pub open spec fn held_reference<R: Fn(&JsonValue) -> Option<u64>, O: Fn(u64, u64) -> NumberOrder, T: Fn(u64) -> String>(
    rules: NumberRules<R, O, T>,
    v: Option<TagValueRecord>,
) -> Option<u64> {
    match v {
        Some(r) => reference_number(rules, r.external_entity_id),
        None => None,
    }
}

/// The boolean of a tag value, if the asset has one that is a boolean.
pub open spec fn held_bool(v: Option<TagValueRecord>) -> Option<bool> {
    match v {
        Some(r) => json_as_bool(r.value_json),
        None => None,
    }
}

/// The type a sort compares a tag's values as: its definition's, `text`
/// without one.
pub open spec fn sort_type(meta: Option<TagDefinitionMeta>) -> Seq<char> {
    match meta {
        Some(m) => m.value_type@,
        None => "text"@,
    }
}

/// How two assets compare by sort field `field`: the asset's own numbers
/// and texts directly; a tag by the values the assets have of it, compared
/// by the tag's type (numbers, references, booleans, or texts).
pub open spec fn field_order<R: Fn(&JsonValue) -> Option<u64>, O: Fn(u64, u64) -> NumberOrder, T: Fn(u64) -> String>(
    rules: NumberRules<R, O, T>,
    left: AssetRecord,
    right: AssetRecord,
    field: Seq<char>,
    defs: Seq<TagDefinitionMeta>,
    left_values: Seq<TagValueRecord>,
    right_values: Seq<TagValueRecord>,
) -> Ordering {
    if field == "id"@ {
        option_number_order(rules, rules.number(integer_json(left.id)), rules.number(integer_json(right.id)))
    } else if field == "category_id"@ {
        option_number_order(
            rules,
            rules.number(integer_json(left.category_id)),
            rules.number(integer_json(right.category_id)),
        )
    } else if field == "asset_tag"@ {
        text_order(left.asset_tag@, right.asset_tag@)
    } else if field == "display_name"@ {
        option_text_order(left.display_name, right.display_name)
    } else if field == "created_at"@ {
        text_order(left.created_at@, right.created_at@)
    } else {
        let t = sort_type(definition_of(defs, field));
        let l = value_of(left_values, field);
        let r = value_of(right_values, field);
        if t == "integer"@ || t == "decimal"@ || t == "money"@ {
            option_number_order(rules, held_number(rules, l), held_number(rules, r))
        } else if t == "external_entity"@ {
            option_number_order(rules, held_reference(rules, l), held_reference(rules, r))
        } else if t == "boolean"@ {
            option_bool_order(held_bool(l), held_bool(r))
        } else {
            option_seq_order(held_text(rules, l), held_text(rules, r))
        }
    }
}

/// The order of two texts.
fn compare_texts(a: &str, b: &str) -> (o: Ordering)
    ensures
        o == text_order(a@, b@),
{
    let x = chars_of(a);
    let y = chars_of(b);
    if eq_chars(&x, &y) {
        Ordering::Equal
    } else if text_le_exec(&x, &y) {
        Ordering::Less
    } else {
        Ordering::Greater
    }
}

/// The order of two optional texts (see `option_seq_order`).
fn compare_held_texts(left: Option<String>, right: Option<String>) -> (o: Ordering)
    ensures
        o == option_seq_order(crate::search_filter::opt_text(left), crate::search_filter::opt_text(right)),
{
    match (left, right) {
        (None, None) => Ordering::Equal,
        (None, Some(_)) => Ordering::Less,
        (Some(_), None) => Ordering::Greater,
        (Some(a), Some(b)) => compare_texts(a.as_str(), b.as_str()),
    }
}

/// How two assets compare by one sort field (see `field_order`).
pub fn compare_sort_field<R: Fn(&JsonValue) -> Option<u64>, O: Fn(u64, u64) -> NumberOrder, T: Fn(u64) -> String>(
    left: &AssetRecord,
    right: &AssetRecord,
    field: &str,
    defs: &[TagDefinitionMeta],
    left_values: &[TagValueRecord],
    right_values: &[TagValueRecord],
    rules: &NumberRules<R, O, T>,
) -> (o: Ordering)
    requires
        rules.wf(),
    ensures
        o == field_order(*rules, *left, *right, field@, defs@, left_values@, right_values@),
{
    let f = chars_of(field);
    if eq_lit(&f, "id") {
        let a = rules.integer_number(left.id);
        let b = rules.integer_number(right.id);
        compare_option_num(a, b, rules)
    } else if eq_lit(&f, "category_id") {
        let a = rules.integer_number(left.category_id);
        let b = rules.integer_number(right.category_id);
        compare_option_num(a, b, rules)
    } else if eq_lit(&f, "asset_tag") {
        compare_texts(left.asset_tag.as_str(), right.asset_tag.as_str())
    } else if eq_lit(&f, "display_name") {
        compare_option_text(
            crate::search_filter::copy_text(&left.display_name),
            crate::search_filter::copy_text(&right.display_name),
        )
    } else if eq_lit(&f, "created_at") {
        compare_texts(left.created_at.as_str(), right.created_at.as_str())
    } else {
        let meta = find_tag_definition_at(defs, field);
        let l = find_tag_value_at(left_values, field);
        let r = find_tag_value_at(right_values, field);
        let t = match meta {
            Some(m) => chars_of(m.value_type.as_str()),
            None => chars_of("text"),
        };
        if eq_lit(&t, "integer") || eq_lit(&t, "decimal") || eq_lit(&t, "money") {
            let a = match l {
                Some(v) => rules.read_number(&v.value_json),
                None => None,
            };
            let b = match r {
                Some(v) => rules.read_number(&v.value_json),
                None => None,
            };
            compare_option_num(a, b, rules)
        } else if eq_lit(&t, "external_entity") {
            let a = match l {
                Some(v) => match v.external_entity_id {
                    Some(i) => rules.integer_number(i),
                    None => None,
                },
                None => None,
            };
            let b = match r {
                Some(v) => match v.external_entity_id {
                    Some(i) => rules.integer_number(i),
                    None => None,
                },
                None => None,
            };
            compare_option_num(a, b, rules)
        } else if eq_lit(&t, "boolean") {
            let a = match l {
                Some(v) => v.value_json.as_bool(),
                None => None,
            };
            let b = match r {
                Some(v) => v.value_json.as_bool(),
                None => None,
            };
            compare_option_bool(a, b)
        } else {
            let a = match l {
                Some(v) => value_as_string(&v.value_json, rules),
                None => None,
            };
            let b = match r {
                Some(v) => value_as_string(&v.value_json, rules),
                None => None,
            };
            compare_held_texts(a, b)
        }
    }
}

/// An order turned around.
pub open spec fn reversed(o: Ordering) -> Ordering {
    match o {
        Ordering::Less => Ordering::Greater,
        Ordering::Greater => Ordering::Less,
        Ordering::Equal => Ordering::Equal,
    }
}

/// How two assets compare by the sort keys from `i` on: the first key on
/// which they differ decides, a `desc` key (in any case) turned around.
pub open spec fn assets_order<R: Fn(&JsonValue) -> Option<u64>, O: Fn(u64, u64) -> NumberOrder, T: Fn(u64) -> String>(
    rules: NumberRules<R, O, T>,
    left: AssetRecord,
    right: AssetRecord,
    sorts: Seq<AssetSearchSort>,
    defs: Seq<TagDefinitionMeta>,
    left_values: Seq<TagValueRecord>,
    right_values: Seq<TagValueRecord>,
    i: int,
) -> Ordering
    decreases sorts.len() - i,
{
    if i < 0 || i >= sorts.len() {
        Ordering::Equal
    } else {
        let c = field_order(rules, left, right, sorts[i].field@, defs, left_values, right_values);
        let d = if ascii_lower(sorts[i].direction@) == "desc"@ {
            reversed(c)
        } else {
            c
        };
        if d != Ordering::Equal {
            d
        } else {
            assets_order(rules, left, right, sorts, defs, left_values, right_values, i + 1)
        }
    }
}

/// How two assets compare by the sort keys (see `assets_order`).
pub fn compare_assets<R: Fn(&JsonValue) -> Option<u64>, O: Fn(u64, u64) -> NumberOrder, T: Fn(u64) -> String>(
    left: &AssetRecord,
    right: &AssetRecord,
    sorts: &[AssetSearchSort],
    defs: &[TagDefinitionMeta],
    left_values: &[TagValueRecord],
    right_values: &[TagValueRecord],
    rules: &NumberRules<R, O, T>,
) -> (o: Ordering)
    requires
        rules.wf(),
    ensures
        o == assets_order(*rules, *left, *right, sorts@, defs@, left_values@, right_values@, 0),
{
    let mut i: usize = 0;
    while i < sorts.len()
        invariant
            i <= sorts@.len(),
            rules.wf(),
            assets_order(*rules, *left, *right, sorts@, defs@, left_values@, right_values@, 0) == assets_order(
                *rules,
                *left,
                *right,
                sorts@,
                defs@,
                left_values@,
                right_values@,
                index_int(i),
            ),
        decreases sorts.len() - i,
    {
        let direction = to_ascii_lower(sorts[i].direction.as_str());
        let c = compare_sort_field(left, right, sorts[i].field.as_str(), defs, left_values, right_values, rules);
        let d = if eq_lit(&direction, "desc") {
            match c {
                Ordering::Less => Ordering::Greater,
                Ordering::Greater => Ordering::Less,
                Ordering::Equal => Ordering::Equal,
            }
        } else {
            c
        };
        match d {
            Ordering::Equal => {},
            _ => {
                return d;
            },
        }
        i = i + 1;
    }
    Ordering::Equal
}


/// Comparing two texts the other way round turns the order around.
proof fn lemma_text_order_flips(a: Seq<char>, b: Seq<char>)
    ensures
        text_order(b, a) == reversed(text_order(a, b)),
{
    lemma_text_le_order(a, b, b);
}

/// Comparing two optional numbers the other way round turns the order
/// around, when the number order does.
proof fn lemma_number_order_flips<R: Fn(&JsonValue) -> Option<u64>, O: Fn(u64, u64) -> NumberOrder, T: Fn(u64) -> String>(
    rules: NumberRules<R, O, T>,
    a: Option<u64>,
    b: Option<u64>,
)
    requires
        rules.orders_consistently(),
    ensures
        option_number_order(rules, b, a) == reversed(option_number_order(rules, a, b)),
{
    match (a, b) {
        (Some(x), Some(y)) => {
            assert(rules.order_of(y, x) == crate::search_filter::flipped(rules.order_of(x, y)));
        },
        _ => {},
    }
}

/// Comparing two assets by one field the other way round turns the order
/// around.
proof fn lemma_field_order_flips<R: Fn(&JsonValue) -> Option<u64>, O: Fn(u64, u64) -> NumberOrder, T: Fn(u64) -> String>(
    rules: NumberRules<R, O, T>,
    left: AssetRecord,
    right: AssetRecord,
    field: Seq<char>,
    defs: Seq<TagDefinitionMeta>,
    left_values: Seq<TagValueRecord>,
    right_values: Seq<TagValueRecord>,
)
    requires
        rules.orders_consistently(),
    ensures
        field_order(rules, right, left, field, defs, right_values, left_values) == reversed(
            field_order(rules, left, right, field, defs, left_values, right_values),
        ),
{
    let l = value_of(left_values, field);
    let r = value_of(right_values, field);
    lemma_text_order_flips(left.asset_tag@, right.asset_tag@);
    lemma_text_order_flips(left.created_at@, right.created_at@);
    lemma_option_text_order_flips(left.display_name, right.display_name);
    lemma_number_order_flips(rules, rules.number(integer_json(left.id)), rules.number(integer_json(right.id)));
    lemma_number_order_flips(
        rules,
        rules.number(integer_json(left.category_id)),
        rules.number(integer_json(right.category_id)),
    );
    lemma_number_order_flips(rules, held_number(rules, l), held_number(rules, r));
    lemma_number_order_flips(rules, held_reference(rules, l), held_reference(rules, r));
    match (held_text(rules, l), held_text(rules, r)) {
        (Some(a), Some(b)) => lemma_text_order_flips(a, b),
        _ => {},
    }
}

/// Comparing two assets by the sort keys the other way round turns the
/// order around: a sort never finds each of two assets before the other.
pub proof fn lemma_assets_order_flips<R: Fn(&JsonValue) -> Option<u64>, O: Fn(u64, u64) -> NumberOrder, T: Fn(u64) -> String>(
    rules: NumberRules<R, O, T>,
    left: AssetRecord,
    right: AssetRecord,
    sorts: Seq<AssetSearchSort>,
    defs: Seq<TagDefinitionMeta>,
    left_values: Seq<TagValueRecord>,
    right_values: Seq<TagValueRecord>,
    i: int,
)
    requires
        rules.orders_consistently(),
    ensures
        assets_order(rules, right, left, sorts, defs, right_values, left_values, i) == reversed(
            assets_order(rules, left, right, sorts, defs, left_values, right_values, i),
        ),
    decreases sorts.len() - i,
{
    if 0 <= i < sorts.len() {
        lemma_field_order_flips(rules, left, right, sorts[i].field@, defs, left_values, right_values);
        lemma_assets_order_flips(rules, left, right, sorts, defs, left_values, right_values, i + 1);
    }
}

/// An asset with its current tag values, as a search considers it.
#[derive(Debug, Clone)]
pub struct SearchCandidate {
    pub asset: AssetRecord,
    pub values: Vec<TagValueRecord>,
}

/// How two candidates compare by the sort keys.
pub open spec fn candidates_order<R: Fn(&JsonValue) -> Option<u64>, O: Fn(u64, u64) -> NumberOrder, T: Fn(u64) -> String>(
    rules: NumberRules<R, O, T>,
    a: SearchCandidate,
    b: SearchCandidate,
    sorts: Seq<AssetSearchSort>,
    defs: Seq<TagDefinitionMeta>,
) -> Ordering {
    assets_order(rules, a.asset, b.asset, sorts, defs, a.values@, b.values@, 0)
}

/// Whether candidate `a` may come before candidate `b`: it does not sort
/// after it.
pub open spec fn in_search_order<R: Fn(&JsonValue) -> Option<u64>, O: Fn(u64, u64) -> NumberOrder, T: Fn(u64) -> String>(
    rules: NumberRules<R, O, T>,
    a: SearchCandidate,
    b: SearchCandidate,
    sorts: Seq<AssetSearchSort>,
    defs: Seq<TagDefinitionMeta>,
) -> bool {
    candidates_order(rules, a, b, sorts, defs) != Ordering::Greater
}

/// Whether the candidate at position `i` may come before the next one.
pub open spec fn in_search_order_at<R: Fn(&JsonValue) -> Option<u64>, O: Fn(u64, u64) -> NumberOrder, T: Fn(u64) -> String>(
    rules: NumberRules<R, O, T>,
    s: Seq<SearchCandidate>,
    sorts: Seq<AssetSearchSort>,
    defs: Seq<TagDefinitionMeta>,
    i: int,
) -> bool {
    in_search_order(rules, s[i], s[i + 1], sorts, defs)
}

/// Whether no candidate of `s` sorts after the next one.
pub open spec fn sorted_for_search<R: Fn(&JsonValue) -> Option<u64>, O: Fn(u64, u64) -> NumberOrder, T: Fn(u64) -> String>(
    rules: NumberRules<R, O, T>,
    s: Seq<SearchCandidate>,
    sorts: Seq<AssetSearchSort>,
    defs: Seq<TagDefinitionMeta>,
) -> bool {
    forall|i: int| 0 <= i < s.len() - 1 ==> #[trigger] in_search_order_at(rules, s, sorts, defs, i)
}

/// Whether some entry of `idx` is `p`.
pub open spec fn takes_position(idx: Seq<int>, p: int) -> bool {
    exists|k: int| 0 <= k < idx.len() && #[trigger] idx[k] == p
}

/// Whether `out` holds the candidates of `input` rearranged stably: the
/// candidate at each position `k` of `out` is the one at position `idx[k]` of
/// `input`, each position of `input` is used once, and two candidates that
/// sort alike keep the order they had in `input`.
pub open spec fn stably_arranged<R: Fn(&JsonValue) -> Option<u64>, O: Fn(u64, u64) -> NumberOrder, T: Fn(u64) -> String>(
    rules: NumberRules<R, O, T>,
    out: Seq<SearchCandidate>,
    input: Seq<SearchCandidate>,
    idx: Seq<int>,
    sorts: Seq<AssetSearchSort>,
    defs: Seq<TagDefinitionMeta>,
) -> bool {
    &&& out.len() == input.len()
    &&& idx.len() == out.len()
    &&& forall|k: int| 0 <= k < out.len() ==> 0 <= #[trigger] idx[k] < input.len() && out[k] == input[idx[k]]
    &&& forall|k: int, l: int| 0 <= k < l < out.len() ==> #[trigger] idx[k] != #[trigger] idx[l]
    &&& forall|p: int| 0 <= p < input.len() ==> #[trigger] takes_position(idx, p)
    &&& forall|k: int, l: int|
        0 <= k < l < out.len() && candidates_order(rules, out[k], out[l], sorts, defs) == Ordering::Equal ==> #[trigger] idx[k]
            < #[trigger] idx[l]
}

/// The candidates in search order: the same candidates, none sorting after
/// the next, and those that sort alike in the order they came in.
pub fn sort_candidates<R: Fn(&JsonValue) -> Option<u64>, O: Fn(u64, u64) -> NumberOrder, T: Fn(u64) -> String>(
    items: Vec<SearchCandidate>,
    sorts: &[AssetSearchSort],
    defs: &[TagDefinitionMeta],
    rules: &NumberRules<R, O, T>,
) -> (out: Vec<SearchCandidate>)
    requires
        rules.wf(),
        rules.orders_consistently(),
    ensures
        out@.to_multiset() == items@.to_multiset(),
        sorted_for_search(*rules, out@, sorts@, defs@),
        exists|idx: Seq<int>| stably_arranged(*rules, out@, items@, idx, sorts@, defs@),
{
    broadcast use vstd::multiset::group_multiset_axioms;

    let ghost all = items@;
    let mut rest = items;
    let mut out: Vec<SearchCandidate> = Vec::new();
    let ghost mut idx: Seq<int> = Seq::empty();
    proof {
        vstd::seq_lib::to_multiset_len(out@);
        vstd::multiset::lemma_multiset_empty_len(out@.to_multiset());
        assert(out@.to_multiset().add(rest@.to_multiset()) =~= all.to_multiset());
    }
    while rest.len() > 0
        invariant
            rules.wf(),
            rules.orders_consistently(),
            out@.to_multiset().add(rest@.to_multiset()) == all.to_multiset(),
            sorted_for_search(*rules, out@, sorts@, defs@),
            rest@.len() <= all.len(),
            rest@ == all.take(index_int(rest.len())),
            idx.len() == out@.len(),
            forall|k: int| 0 <= k < out@.len() ==> rest@.len() <= #[trigger] idx[k] < all.len() && out@[k] == all[idx[k]],
            forall|k: int, l: int| 0 <= k < l < out@.len() ==> #[trigger] idx[k] != #[trigger] idx[l],
            forall|p: int| rest@.len() <= p < all.len() ==> #[trigger] takes_position(idx, p),
            forall|k: int, l: int|
                0 <= k < l < out@.len() && candidates_order(*rules, out@[k], out@[l], sorts@, defs@) == Ordering::Equal
                    ==> #[trigger] idx[k] < #[trigger] idx[l],
        decreases rest.len(),
    {
        let ghost rest_before = rest@;
        let x = match rest.pop() {
            Some(x) => x,
            None => {
                return out;
            },
        };
        let ghost r: int = rest_before.len() - 1;
        proof {
            assert(rest_before == rest@.push(x));
            assert(rest@ =~= all.take(index_int(rest.len())));
            assert(x == all[r]);
        }
        let mut j: usize = 0;
        let mut placed = false;
        while j < out.len() && !placed
            invariant
                rules.wf(),
                j <= out@.len(),
                forall|k: int| 0 <= k < j ==> #[trigger] candidates_order(*rules, x, out@[k], sorts@, defs@) == Ordering::Greater,
                placed ==> j < out@.len() && candidates_order(*rules, x, out@[index_int(j)], sorts@, defs@) != Ordering::Greater,
            decreases out.len() - j + if placed { 0int } else { 1int },
        {
            let o = compare_assets(&x.asset, &out[j].asset, sorts, defs, x.values.as_slice(), out[j].values.as_slice(), rules);
            match o {
                Ordering::Greater => {
                    j = j + 1;
                },
                _ => {
                    placed = true;
                },
            }
        }
        let ghost before = out@;
        let ghost idx_before = idx;
        out.insert(j, x);
        proof {
            idx = idx_before.insert(index_int(j), r);
            assert(out@ == before.insert(index_int(j), x));
            assert(out@[index_int(j)] == x);
            vstd::seq_lib::to_multiset_insert(before, index_int(j), x);
            vstd::seq_lib::to_multiset_build(rest@, x);
            assert(out@.to_multiset() =~= before.to_multiset().insert(x));
            assert(rest_before.to_multiset() =~= rest@.to_multiset().insert(x));
            assert(out@.to_multiset().add(rest@.to_multiset()) =~= all.to_multiset());
            assert forall|i: int| 0 <= i < out@.len() - 1 implies #[trigger] in_search_order_at(
                *rules,
                out@,
                sorts@,
                defs@,
                i,
            ) by {
                if i + 1 < j {
                    assert(in_search_order_at(*rules, before, sorts@, defs@, i));
                } else if i + 1 == j {
                    assert(candidates_order(*rules, x, before[i], sorts@, defs@) == Ordering::Greater);
                    lemma_assets_order_flips(
                        *rules,
                        x.asset,
                        before[i].asset,
                        sorts@,
                        defs@,
                        x.values@,
                        before[i].values@,
                        0,
                    );
                } else if i == j {
                } else {
                    assert(in_search_order_at(*rules, before, sorts@, defs@, i - 1));
                }
            }
            assert forall|p: int| rest@.len() <= p < all.len() implies #[trigger] takes_position(idx, p) by {
                let jj = index_int(j);
                if p == r {
                    assert(idx[jj] == p);
                } else {
                    assert(takes_position(idx_before, p));
                    let k0 = choose|k: int| 0 <= k < idx_before.len() && #[trigger] idx_before[k] == p;
                    if k0 < jj {
                        assert(idx[k0] == p);
                    } else {
                        assert(idx[k0 + 1] == p);
                    }
                }
            }
            assert forall|k: int, l: int|
                0 <= k < l < out@.len() && candidates_order(*rules, out@[k], out@[l], sorts@, defs@)
                    == Ordering::Equal implies #[trigger] idx[k] < #[trigger] idx[l] by {
                let jj = index_int(j);
                if l < jj {
                    assert(out@[k] == before[k] && out@[l] == before[l]);
                    assert(idx[k] == idx_before[k] && idx[l] == idx_before[l]);
                } else if l == jj {
                    assert(out@[k] == before[k] && out@[l] == x);
                    assert(candidates_order(*rules, x, before[k], sorts@, defs@) == Ordering::Greater);
                    lemma_assets_order_flips(
                        *rules,
                        x.asset,
                        before[k].asset,
                        sorts@,
                        defs@,
                        x.values@,
                        before[k].values@,
                        0,
                    );
                } else if k == jj {
                    assert(idx[k] == r && idx[l] == idx_before[l - 1]);
                } else if k < jj {
                    assert(out@[k] == before[k] && out@[l] == before[l - 1]);
                    assert(idx[k] == idx_before[k] && idx[l] == idx_before[l - 1]);
                } else {
                    assert(out@[k] == before[k - 1] && out@[l] == before[l - 1]);
                    assert(idx[k] == idx_before[k - 1] && idx[l] == idx_before[l - 1]);
                }
            }
        }
    }
    proof {
        vstd::seq_lib::to_multiset_len(rest@);
        vstd::multiset::lemma_multiset_empty_len(rest@.to_multiset());
        assert(out@.to_multiset() =~= out@.to_multiset().add(rest@.to_multiset()));
        vstd::seq_lib::to_multiset_len(out@);
        vstd::seq_lib::to_multiset_len(all);
        assert(stably_arranged(*rules, out@, items@, idx, sorts@, defs@));
    }
    out
}

} // verus!
