//! Search results come in one order only. The sort keys, completed by the
//! asset tag, order the results as a total preorder, and among results that
//! sort alike the order in which the candidates came decides; so a query over
//! the same candidates always yields the same sequence, the same pages, and
//! cursors that name the same positions.
use vstd::prelude::*;
use core::cmp::Ordering;
use crate::json::JsonValue;
use crate::search::{
    AssetRecord, AssetSearchSort, TagDefinitionMeta, TagValueRecord, option_text_order, text_order,
};
use crate::search_filter::{NumberOrder, NumberRules, integer_json, value_of};
use crate::search_order::{
    SearchCandidate, assets_order, candidates_order, field_order, held_number, held_reference, held_text,
    in_search_order_at, lemma_assets_order_flips, option_number_order, option_seq_order, reversed,
    sorted_for_search, stably_arranged, takes_position,
};
use crate::text::lemma_text_le_order;

verus! {

/// Whether three comparisons, of `a` with `b`, of `b` with `c` and of `a`
/// with `c`, fit one total preorder: an order that is strict on one side and
/// not reversed on the other is strict, and alike with alike is alike.
pub open spec fn chains(ab: Ordering, bc: Ordering, ac: Ordering) -> bool {
    &&& (ab == Ordering::Less && bc != Ordering::Greater ==> ac == Ordering::Less)
    &&& (ab != Ordering::Greater && bc == Ordering::Less ==> ac == Ordering::Less)
    &&& (ab == Ordering::Equal && bc == Ordering::Equal ==> ac == Ordering::Equal)
    &&& (ab == Ordering::Greater && bc != Ordering::Less ==> ac == Ordering::Greater)
    &&& (ab != Ordering::Less && bc == Ordering::Greater ==> ac == Ordering::Greater)
}

/// Whether the rules order numbers as a total preorder (numbers that do not
/// compare taken as alike), as they do for numbers that are not NaN.
pub open spec fn numbers_chain<R: Fn(&JsonValue) -> Option<u64>, O: Fn(u64, u64) -> NumberOrder, T: Fn(u64) -> String>(
    rules: NumberRules<R, O, T>,
) -> bool {
    forall|a: u64, b: u64, c: u64|
        #![trigger option_number_order(rules, Some(a), Some(b)), option_number_order(rules, Some(b), Some(c))]
        chains(
            option_number_order(rules, Some(a), Some(b)),
            option_number_order(rules, Some(b), Some(c)),
            option_number_order(rules, Some(a), Some(c)),
        )
}

/// Texts compare as a total order.
proof fn lemma_text_chains(a: Seq<char>, b: Seq<char>, c: Seq<char>)
    ensures
        chains(text_order(a, b), text_order(b, c), text_order(a, c)),
{
    lemma_text_le_order(a, b, c);
    lemma_text_le_order(a, c, b);
    lemma_text_le_order(b, a, c);
    lemma_text_le_order(b, c, a);
    lemma_text_le_order(c, a, b);
    lemma_text_le_order(c, b, a);
}

/// Optional texts compare as a total order.
proof fn lemma_option_seq_chains(a: Option<Seq<char>>, b: Option<Seq<char>>, c: Option<Seq<char>>)
    ensures
        chains(option_seq_order(a, b), option_seq_order(b, c), option_seq_order(a, c)),
{
    match (a, b, c) {
        (Some(x), Some(y), Some(z)) => lemma_text_chains(x, y, z),
        _ => {},
    }
}

/// Optional strings compare as a total order.
proof fn lemma_option_text_chains(a: Option<String>, b: Option<String>, c: Option<String>)
    ensures
        chains(option_text_order(a, b), option_text_order(b, c), option_text_order(a, c)),
{
    match (a, b, c) {
        (Some(x), Some(y), Some(z)) => lemma_text_chains(x@, y@, z@),
        _ => {},
    }
}

/// Optional numbers compare as a total preorder when the rules' numbers do.
proof fn lemma_option_number_chains<R: Fn(&JsonValue) -> Option<u64>, O: Fn(u64, u64) -> NumberOrder, T: Fn(u64) -> String>(
    rules: NumberRules<R, O, T>,
    a: Option<u64>,
    b: Option<u64>,
    c: Option<u64>,
)
    requires
        numbers_chain(rules),
    ensures
        chains(option_number_order(rules, a, b), option_number_order(rules, b, c), option_number_order(rules, a, c)),
{
    match (a, b, c) {
        (Some(x), Some(y), Some(z)) => {
            assert(chains(
                option_number_order(rules, Some(x), Some(y)),
                option_number_order(rules, Some(y), Some(z)),
                option_number_order(rules, Some(x), Some(z)),
            ));
        },
        _ => {},
    }
}

/// A comparison turned around still fits a total preorder.
proof fn lemma_reversed_chains(ab: Ordering, bc: Ordering, ac: Ordering)
    requires
        chains(ab, bc, ac),
    ensures
        chains(reversed(ab), reversed(bc), reversed(ac)),
{
}


/// Each sort field compares assets as a total preorder.
proof fn lemma_field_chains<R: Fn(&JsonValue) -> Option<u64>, O: Fn(u64, u64) -> NumberOrder, T: Fn(u64) -> String>(
    rules: NumberRules<R, O, T>,
    a: AssetRecord,
    b: AssetRecord,
    c: AssetRecord,
    field: Seq<char>,
    defs: Seq<TagDefinitionMeta>,
    av: Seq<TagValueRecord>,
    bv: Seq<TagValueRecord>,
    cv: Seq<TagValueRecord>,
)
    requires
        numbers_chain(rules),
    ensures
        chains(
            field_order(rules, a, b, field, defs, av, bv),
            field_order(rules, b, c, field, defs, bv, cv),
            field_order(rules, a, c, field, defs, av, cv),
        ),
{
    let la = value_of(av, field);
    let lb = value_of(bv, field);
    let lc = value_of(cv, field);
    lemma_text_chains(a.asset_tag@, b.asset_tag@, c.asset_tag@);
    lemma_text_chains(a.created_at@, b.created_at@, c.created_at@);
    lemma_option_text_chains(a.display_name, b.display_name, c.display_name);
    lemma_option_number_chains(
        rules,
        rules.number(integer_json(a.id)),
        rules.number(integer_json(b.id)),
        rules.number(integer_json(c.id)),
    );
    lemma_option_number_chains(
        rules,
        rules.number(integer_json(a.category_id)),
        rules.number(integer_json(b.category_id)),
        rules.number(integer_json(c.category_id)),
    );
    lemma_option_number_chains(rules, held_number(rules, la), held_number(rules, lb), held_number(rules, lc));
    lemma_option_number_chains(rules, held_reference(rules, la), held_reference(rules, lb), held_reference(rules, lc));
    lemma_option_seq_chains(held_text(rules, la), held_text(rules, lb), held_text(rules, lc));
}

/// The sort keys from `i` on compare assets as a total preorder.
proof fn lemma_assets_chains<R: Fn(&JsonValue) -> Option<u64>, O: Fn(u64, u64) -> NumberOrder, T: Fn(u64) -> String>(
    rules: NumberRules<R, O, T>,
    a: AssetRecord,
    b: AssetRecord,
    c: AssetRecord,
    sorts: Seq<AssetSearchSort>,
    defs: Seq<TagDefinitionMeta>,
    av: Seq<TagValueRecord>,
    bv: Seq<TagValueRecord>,
    cv: Seq<TagValueRecord>,
    i: int,
)
    requires
        numbers_chain(rules),
    ensures
        chains(
            assets_order(rules, a, b, sorts, defs, av, bv, i),
            assets_order(rules, b, c, sorts, defs, bv, cv, i),
            assets_order(rules, a, c, sorts, defs, av, cv, i),
        ),
    decreases sorts.len() - i,
{
    if 0 <= i < sorts.len() {
        let f = sorts[i].field@;
        lemma_field_chains(rules, a, b, c, f, defs, av, bv, cv);
        lemma_reversed_chains(
            field_order(rules, a, b, f, defs, av, bv),
            field_order(rules, b, c, f, defs, bv, cv),
            field_order(rules, a, c, f, defs, av, cv),
        );
        lemma_assets_chains(rules, a, b, c, sorts, defs, av, bv, cv, i + 1);
    }
}

/// Candidates compare as a total preorder.
pub proof fn lemma_candidates_chain<R: Fn(&JsonValue) -> Option<u64>, O: Fn(u64, u64) -> NumberOrder, T: Fn(u64) -> String>(
    rules: NumberRules<R, O, T>,
    a: SearchCandidate,
    b: SearchCandidate,
    c: SearchCandidate,
    sorts: Seq<AssetSearchSort>,
    defs: Seq<TagDefinitionMeta>,
)
    requires
        numbers_chain(rules),
    ensures
        chains(
            candidates_order(rules, a, b, sorts, defs),
            candidates_order(rules, b, c, sorts, defs),
            candidates_order(rules, a, c, sorts, defs),
        ),
{
    lemma_assets_chains(rules, a.asset, b.asset, c.asset, sorts, defs, a.values@, b.values@, c.values@, 0);
}

/// In a sequence in search order no candidate sorts after a later one.
proof fn lemma_sorted_pairwise<R: Fn(&JsonValue) -> Option<u64>, O: Fn(u64, u64) -> NumberOrder, T: Fn(u64) -> String>(
    rules: NumberRules<R, O, T>,
    s: Seq<SearchCandidate>,
    sorts: Seq<AssetSearchSort>,
    defs: Seq<TagDefinitionMeta>,
    l: int,
)
    requires
        numbers_chain(rules),
        sorted_for_search(rules, s, sorts, defs),
        0 <= l < s.len(),
    ensures
        forall|k: int| 0 <= k < l ==> candidates_order(rules, #[trigger] s[k], s[l], sorts, defs) != Ordering::Greater,
    decreases l,
{
    if l > 0 {
        lemma_sorted_pairwise(rules, s, sorts, defs, l - 1);
        assert(in_search_order_at(rules, s, sorts, defs, l - 1));
        assert forall|k: int| 0 <= k < l implies candidates_order(rules, #[trigger] s[k], s[l], sorts, defs)
            != Ordering::Greater by {
            if k < l - 1 {
                lemma_candidates_chain(rules, s[k], s[l - 1], s[l], sorts, defs);
            }
        }
    }
}

/// The positions taken by two stable arrangements in search order agree
/// below `n`.
proof fn lemma_positions_agree<R: Fn(&JsonValue) -> Option<u64>, O: Fn(u64, u64) -> NumberOrder, T: Fn(u64) -> String>(
    rules: NumberRules<R, O, T>,
    input: Seq<SearchCandidate>,
    out1: Seq<SearchCandidate>,
    idx1: Seq<int>,
    out2: Seq<SearchCandidate>,
    idx2: Seq<int>,
    sorts: Seq<AssetSearchSort>,
    defs: Seq<TagDefinitionMeta>,
    n: int,
)
    requires
        rules.orders_consistently(),
        numbers_chain(rules),
        sorted_for_search(rules, out1, sorts, defs),
        sorted_for_search(rules, out2, sorts, defs),
        stably_arranged(rules, out1, input, idx1, sorts, defs),
        stably_arranged(rules, out2, input, idx2, sorts, defs),
        0 <= n <= input.len(),
    ensures
        forall|j: int| 0 <= j < n ==> #[trigger] idx1[j] == idx2[j],
    decreases n,
{
    if n > 0 {
        lemma_positions_agree(rules, input, out1, idx1, out2, idx2, sorts, defs, n - 1);
        let k = n - 1;
        let i1 = idx1[k];
        let i2 = idx2[k];
        if i1 != i2 {
            assert(takes_position(idx2, i1));
            let m = choose|m: int| 0 <= m < idx2.len() && #[trigger] idx2[m] == i1;
            assert(takes_position(idx1, i2));
            let h = choose|h: int| 0 <= h < idx1.len() && #[trigger] idx1[h] == i2;
            if m < k {
                assert(idx1[m] == idx2[m]);
                assert(idx1[m] != idx1[k]);
            }
            if h < k {
                assert(idx1[h] == idx2[h]);
                assert(idx2[h] != idx2[k]);
            }
            assert(m > k && h > k);
            lemma_sorted_pairwise(rules, out2, sorts, defs, m);
            lemma_sorted_pairwise(rules, out1, sorts, defs, h);
            let x = input[i1];
            let y = input[i2];
            assert(out2[k] == y && out2[m] == x);
            assert(out1[k] == x && out1[h] == y);
            assert(candidates_order(rules, y, x, sorts, defs) != Ordering::Greater);
            assert(candidates_order(rules, x, y, sorts, defs) != Ordering::Greater);
            lemma_assets_order_flips(rules, x.asset, y.asset, sorts, defs, x.values@, y.values@, 0);
            assert(candidates_order(rules, x, y, sorts, defs) == Ordering::Equal);
            assert(idx1[k] < idx1[h]);
            assert(idx2[k] < idx2[m]);
        }
    }
}

/// The search order leaves no choice: two arrangements of the same results,
/// each in search order and keeping the order of results that sort alike,
/// are the same sequence. So a query over the same candidates always yields
/// the same results in the same order, hence the same pages, and a cursor
/// handed out by one page names the same position when it comes back. (It
/// takes a number order that is a total preorder, as that of numbers other
/// than NaN is.)
pub proof fn lemma_search_order_unique<R: Fn(&JsonValue) -> Option<u64>, O: Fn(u64, u64) -> NumberOrder, T: Fn(u64) -> String>(
    rules: NumberRules<R, O, T>,
    input: Seq<SearchCandidate>,
    out1: Seq<SearchCandidate>,
    idx1: Seq<int>,
    out2: Seq<SearchCandidate>,
    idx2: Seq<int>,
    sorts: Seq<AssetSearchSort>,
    defs: Seq<TagDefinitionMeta>,
)
    requires
        rules.orders_consistently(),
        numbers_chain(rules),
        sorted_for_search(rules, out1, sorts, defs),
        sorted_for_search(rules, out2, sorts, defs),
        stably_arranged(rules, out1, input, idx1, sorts, defs),
        stably_arranged(rules, out2, input, idx2, sorts, defs),
    ensures
        out1 == out2,
{
    lemma_positions_agree(rules, input, out1, idx1, out2, idx2, sorts, defs, input.len() + 0int);
    assert forall|j: int| 0 <= j < out1.len() implies out1[j] == out2[j] by {
        assert(idx1[j] == idx2[j]);
    }
    assert(out1 =~= out2);
}

} // verus!
