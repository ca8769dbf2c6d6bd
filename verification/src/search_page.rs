//! A page of asset search results: the search's filters and sort keys are
//! checked, the assets that pass the filters are put in search order, and
//! the cursor and limit pick the page.
use vstd::prelude::*;
use vstd::multiset::Multiset;
use crate::json::JsonValue;
use crate::search::{
    AssetRecord, AssetSearchError, AssetSearchItem, AssetSearchPage, AssetSearchQuery, AssetSearchSort, CategoryLink,
    TagDefinitionMeta, completed_sorts, first_sort_problem, normalize_and_validate_sorts, refused_with,
    requested_sorts, search_window, sort_views, string_texts, unsigned_text_value,
};
use crate::search_filter::{
    NumberOrder, NumberRules, asset_outcome, copy_text, matches_asset, opt_text, query_filter_problem,
    validate_filters,
};
use crate::search_order::{SearchCandidate, sort_candidates, sorted_for_search, stably_arranged};
use crate::text::nat_text;

verus! {

/// The keys of the tag definitions.
pub open spec fn tag_keys_of(defs: Seq<TagDefinitionMeta>) -> Seq<Seq<char>> {
    defs.map_values(|d: TagDefinitionMeta| d.tag_key@)
}

/// The keys of the tag definitions (see `tag_keys_of`).
fn definition_keys(defs: &[TagDefinitionMeta]) -> (keys: Vec<String>)
    ensures
        string_texts(keys@) == tag_keys_of(defs@),
{
    let mut keys: Vec<String> = Vec::new();
    let mut i: usize = 0;
    while i < defs.len()
        invariant
            i <= defs@.len(),
            keys@.len() == i,
            forall|k: int| 0 <= k < i ==> #[trigger] keys@[k]@ == defs@[k].tag_key@,
        decreases defs.len() - i,
    {
        keys.push(defs[i].tag_key.clone());
        i = i + 1;
    }
    assert(string_texts(keys@) =~= tag_keys_of(defs@));
    keys
}

/// Whether candidate `c` is a result of the search.
pub open spec fn is_result<R: Fn(&JsonValue) -> Option<u64>, O: Fn(u64, u64) -> NumberOrder, T: Fn(u64) -> String>(
    rules: NumberRules<R, O, T>,
    c: SearchCandidate,
    query: AssetSearchQuery,
    defs: Seq<TagDefinitionMeta>,
    cats: Seq<CategoryLink>,
) -> bool {
    asset_outcome(rules, c.asset, query, defs, c.values@, cats) == Ok::<bool, Seq<char>>(true)
}

/// The refusal the first of the candidates from `i` on meets, if any.
pub open spec fn first_candidate_problem<R: Fn(&JsonValue) -> Option<u64>, O: Fn(u64, u64) -> NumberOrder, T: Fn(u64) -> String>(
    rules: NumberRules<R, O, T>,
    cands: Seq<SearchCandidate>,
    query: AssetSearchQuery,
    defs: Seq<TagDefinitionMeta>,
    cats: Seq<CategoryLink>,
    i: int,
) -> Option<Seq<char>>
    decreases cands.len() - i,
{
    if i < 0 || i >= cands.len() {
        None
    } else {
        match asset_outcome(rules, cands[i].asset, query, defs, cands[i].values@, cats) {
            Err(m) => Some(m),
            Ok(_) => first_candidate_problem(rules, cands, query, defs, cats, i + 1),
        }
    }
}

/// The candidates that are results of the search.
pub open spec fn results<R: Fn(&JsonValue) -> Option<u64>, O: Fn(u64, u64) -> NumberOrder, T: Fn(u64) -> String>(
    rules: NumberRules<R, O, T>,
    cands: Seq<SearchCandidate>,
    query: AssetSearchQuery,
    defs: Seq<TagDefinitionMeta>,
    cats: Seq<CategoryLink>,
) -> Multiset<SearchCandidate>
    decreases cands.len(),
{
    if cands.len() == 0 {
        Multiset::empty()
    } else {
        let before = results(rules, cands.drop_last(), query, defs, cats);
        if is_result(rules, cands.last(), query, defs, cats) {
            before.insert(cands.last())
        } else {
            before
        }
    }
}

/// The candidates that are results of the search, in the order given.
pub open spec fn result_seq<R: Fn(&JsonValue) -> Option<u64>, O: Fn(u64, u64) -> NumberOrder, T: Fn(u64) -> String>(
    rules: NumberRules<R, O, T>,
    cands: Seq<SearchCandidate>,
    query: AssetSearchQuery,
    defs: Seq<TagDefinitionMeta>,
    cats: Seq<CategoryLink>,
) -> Seq<SearchCandidate>
    decreases cands.len(),
{
    if cands.len() == 0 {
        Seq::empty()
    } else {
        let before = result_seq(rules, cands.drop_last(), query, defs, cats);
        if is_result(rules, cands.last(), query, defs, cats) {
            before.push(cands.last())
        } else {
            before
        }
    }
}

/// The results in order are the results.
proof fn lemma_result_seq_multiset<R: Fn(&JsonValue) -> Option<u64>, O: Fn(u64, u64) -> NumberOrder, T: Fn(u64) -> String>(
    rules: NumberRules<R, O, T>,
    cands: Seq<SearchCandidate>,
    query: AssetSearchQuery,
    defs: Seq<TagDefinitionMeta>,
    cats: Seq<CategoryLink>,
)
    ensures
        result_seq(rules, cands, query, defs, cats).to_multiset() == results(rules, cands, query, defs, cats),
    decreases cands.len(),
{
    let s = result_seq(rules, cands, query, defs, cats);
    if cands.len() == 0 {
        assert(s =~= Seq::<SearchCandidate>::empty());
        vstd::seq_lib::to_multiset_len(s);
        vstd::multiset::lemma_multiset_empty_len(s.to_multiset());
        assert(s.to_multiset() =~= Multiset::<SearchCandidate>::empty());
    } else {
        let before = result_seq(rules, cands.drop_last(), query, defs, cats);
        lemma_result_seq_multiset(rules, cands.drop_last(), query, defs, cats);
        if is_result(rules, cands.last(), query, defs, cats) {
            vstd::seq_lib::to_multiset_build(before, cands.last());
        }
    }
}

/// Whether `item` shows asset `a`.
pub open spec fn shows_asset(item: AssetSearchItem, a: AssetRecord) -> bool {
    &&& item.id == a.id
    &&& item.category_id == a.category_id
    &&& item.asset_tag@ == a.asset_tag@
    &&& opt_text(item.display_name) == opt_text(a.display_name)
    &&& opt_text(item.deleted_at) == opt_text(a.deleted_at)
}

/// Whether `page` shows the results `sorted` from position `start` up to
/// `end`, with the cursor of the next page when results remain and, when
/// asked for, the number of results.
pub open spec fn page_shows(page: AssetSearchPage, sorted: Seq<SearchCandidate>, start: int, end: int, with_total: bool) -> bool {
    &&& page.items@.len() == end - start
    &&& forall|k: int| 0 <= k < end - start ==> #[trigger] shows_asset(page.items@[k], sorted[start + k].asset)
    &&& match page.next_cursor {
        Some(t) => end < sorted.len() && t@ == nat_text(end as nat),
        None => end >= sorted.len(),
    }
    &&& page.total_estimate == if with_total {
        Some(sorted.len() as i64)
    } else {
        None
    }
}

/// The search item of an asset.
fn item_of(a: &AssetRecord) -> (item: AssetSearchItem)
    ensures
        shows_asset(item, *a),
{
    AssetSearchItem {
        id: a.id,
        category_id: a.category_id,
        asset_tag: a.asset_tag.clone(),
        display_name: copy_text(&a.display_name),
        deleted_at: copy_text(&a.deleted_at),
    }
}

/// A page of the search `query` among the candidates, given the tag
/// definitions `defs` and the category links `cats`: refused for the first
/// refused filter, then for the first refused sort key, then for the first
/// candidate a filter refuses, then for a cursor that is no position among
/// the results; otherwise the results in search order (sort keys completed
/// by the asset tag), from the cursor's position (0 without one) up to the
/// limit (50 by default).
pub fn search_assets<R: Fn(&JsonValue) -> Option<u64>, O: Fn(u64, u64) -> NumberOrder, T: Fn(u64) -> String>(
    candidates: Vec<SearchCandidate>,
    query: &AssetSearchQuery,
    defs: &[TagDefinitionMeta],
    cats: &[CategoryLink],
    rules: &NumberRules<R, O, T>,
) -> (r: Result<AssetSearchPage, AssetSearchError>)
    requires
        rules.wf(),
        rules.orders_consistently(),
    ensures
        match query_filter_problem(*rules, *query, defs@) {
            Some(m) => refused_with(r, m),
            None => match first_sort_problem(requested_sorts(query.sort@), tag_keys_of(defs@), 0) {
                Some(m) => refused_with(r, m),
                None => match first_candidate_problem(*rules, candidates@, *query, defs@, cats@, 0) {
                    Some(m) => refused_with(r, m),
                    None => {
                        let found = results(*rules, candidates@, *query, defs@, cats@);
                        let total = found.len();
                        let start: Option<int> = match query.cursor {
                            None => Some(0),
                            Some(c) => unsigned_text_value(c@),
                        };
                        let lim: int = match query.limit {
                            Some(l) => l as int,
                            None => 50,
                        };
                        match start {
                            Some(s) if s <= total => r matches Ok(page) && exists|
                                sorted: Seq<SearchCandidate>,
                                sorts: Seq<AssetSearchSort>,
                                idx: Seq<int>,
                            |
                                #![trigger stably_arranged(*rules, sorted, result_seq(*rules, candidates@, *query, defs@, cats@), idx, sorts, defs@)]
                                sorted.to_multiset() == found && sort_views(sorts) == completed_sorts(
                                    requested_sorts(query.sort@),
                                ) && sorted_for_search(*rules, sorted, sorts, defs@) && stably_arranged(
                                    *rules,
                                    sorted,
                                    result_seq(*rules, candidates@, *query, defs@, cats@),
                                    idx,
                                    sorts,
                                    defs@,
                                ) && page_shows(
                                    page,
                                    sorted,
                                    s,
                                    if s + lim < total {
                                        s + lim
                                    } else {
                                        total as int
                                    },
                                    query.include_total_estimate,
                                ),
                            _ => refused_with(r, "invalid cursor"@),
                        }
                    },
                },
            },
        },
{
    match validate_filters(query, defs, rules) {
        Err(e) => {
            return Err(e);
        },
        Ok(()) => {},
    }
    let keys = definition_keys(defs);
    let sort_spec = match normalize_and_validate_sorts(query.sort.as_slice(), keys.as_slice()) {
        Err(e) => {
            return Err(e);
        },
        Ok(v) => v,
    };
    let mut keep: Vec<bool> = Vec::new();
    let mut i: usize = 0;
    while i < candidates.len()
        invariant
            i <= candidates@.len(),
            rules.wf(),
            query_filter_problem(*rules, *query, defs@) is None,
            first_sort_problem(requested_sorts(query.sort@), tag_keys_of(defs@), 0) is None,
            sort_views(sort_spec@) == completed_sorts(requested_sorts(query.sort@)),
            keep@.len() == i,
            forall|k: int| 0 <= k < i ==> #[trigger] keep@[k] == is_result(*rules, candidates@[k], *query, defs@, cats@),
            first_candidate_problem(*rules, candidates@, *query, defs@, cats@, 0) == first_candidate_problem(
                *rules,
                candidates@,
                *query,
                defs@,
                cats@,
                i as int,
            ),
        decreases candidates.len() - i,
    {
        match matches_asset(&candidates[i].asset, query, defs, candidates[i].values.as_slice(), cats, rules) {
            Err(e) => {
                return Err(e);
            },
            Ok(b) => {
                keep.push(b);
            },
        }
        i = i + 1;
    }
    let ghost all = candidates@;
    assert(all.len() <= usize::MAX) by {
        assert(candidates.len() == all.len());
    }
    let mut rest = candidates;
    let mut found: Vec<SearchCandidate> = Vec::new();
    let mut i: usize = 0;
    proof {
        assert(rest@ =~= all.skip(0));
        assert(all.take(0) =~= Seq::<SearchCandidate>::empty());
    }
    while rest.len() > 0
        invariant
            keep@.len() == all.len(),
            query_filter_problem(*rules, *query, defs@) is None,
            first_sort_problem(requested_sorts(query.sort@), tag_keys_of(defs@), 0) is None,
            sort_views(sort_spec@) == completed_sorts(requested_sorts(query.sort@)),
            first_candidate_problem(*rules, all, *query, defs@, cats@, 0) is None,
            forall|k: int| 0 <= k < all.len() ==> #[trigger] keep@[k] == is_result(*rules, all[k], *query, defs@, cats@),
            i <= all.len(),
            all.len() <= usize::MAX,
            rest@ == all.skip(i as int),
            found@ == result_seq(*rules, all.take(i as int), *query, defs@, cats@),
        decreases rest.len(),
    {
        let ghost rest_before = rest@;
        assert(rest_before.len() == all.len() - i);
        let c = rest.remove(0);
        proof {
            assert(c == all[i as int]);
            assert(rest@ =~= all.skip(i + 1));
            assert(all.take(i + 1).drop_last() =~= all.take(i as int));
            assert(all.take(i + 1).last() == all[i as int]);
        }
        if keep[i] {
            found.push(c);
        }
        i = i + 1;
    }
    proof {
        assert(all.take(i as int) =~= all);
        lemma_result_seq_multiset(*rules, all, *query, defs@, cats@);
    }
    let sorted = sort_candidates(found, sort_spec.as_slice(), defs, rules);
    proof {
        vstd::seq_lib::to_multiset_len(sorted@);
    }
    let cursor = match &query.cursor {
        Some(c) => Some(c.as_str()),
        None => None,
    };
    let (start, end, next) = match search_window(sorted.len(), cursor, query.limit) {
        Err(e) => {
            return Err(e);
        },
        Ok(w) => w,
    };
    let mut items: Vec<AssetSearchItem> = Vec::new();
    let mut k: usize = start;
    while k < end
        invariant
            start <= k <= end,
            sorted@.len() == sorted.len(),
            end <= sorted@.len(),
            items@.len() == k - start,
            forall|q: int| 0 <= q < k - start ==> #[trigger] shows_asset(items@[q], sorted@[start + q].asset),
        decreases end - k,
    {
        items.push(item_of(&sorted[k].asset));
        k = k + 1;
    }
    let total_estimate = if query.include_total_estimate {
        Some(sorted.len() as i64)
    } else {
        None
    };
    let page = AssetSearchPage { items, next_cursor: next, total_estimate };
    proof {
        assert(page_shows(page, sorted@, start as int, end as int, query.include_total_estimate));
    }
    Ok(page)
}

} // verus!
