//! The catalog's assets grouped by category, as the desktop client lists
//! them.
use std::collections::BTreeMap;
use vstd::prelude::*;
use crate::gui::Asset;

verus! {

broadcast use vstd::std_specs::btree::group_btree_axioms, vstd::laws_cmp::group_laws_cmp;

/// The assets of category `c`, in the order given.
pub open spec fn assets_of_category(assets: Seq<Asset>, c: i64) -> Seq<Asset>
    decreases assets.len(),
{
    if assets.len() == 0 {
        Seq::empty()
    } else {
        let before = assets_of_category(assets.drop_last(), c);
        if assets.last().category_id == c {
            before.push(assets.last())
        } else {
            before
        }
    }
}

/// Whether some asset belongs to category `c`.
pub open spec fn has_category(assets: Seq<Asset>, c: i64) -> bool {
    exists|i: int| 0 <= i < assets.len() && (#[trigger] assets[i]).category_id == c
}

/// A field-by-field copy of an asset.
fn copy_asset(a: &Asset) -> (r: Asset)
    ensures
        r == *a,
{
    let display_name = match &a.display_name {
        Some(s) => Some(s.clone()),
        None => None,
    };
    let deleted_at = match &a.deleted_at {
        Some(s) => Some(s.clone()),
        None => None,
    };
    Asset { id: a.id, category_id: a.category_id, asset_tag: a.asset_tag.clone(), display_name, deleted_at }
}

/// The assets grouped by category: one group per category that occurs, each
/// with that category's assets in the order given.
pub fn grouped_assets_by_category(assets: &[Asset]) -> (r: BTreeMap<i64, Vec<Asset>>)
    ensures
        forall|c: i64| #[trigger] r@.contains_key(c) <==> has_category(assets@, c),
        forall|c: i64| #[trigger] r@.contains_key(c) ==> r@[c]@ == assets_of_category(assets@, c),
{
    let mut out: BTreeMap<i64, Vec<Asset>> = BTreeMap::new();
    let mut i: usize = 0;
    assert(assets@.take(0) =~= Seq::<Asset>::empty());
    while i < assets.len()
        invariant
            i <= assets@.len(),
            forall|c: i64| #[trigger] out@.contains_key(c) <==> has_category(assets@.take(i as int), c),
            forall|c: i64| #[trigger] out@.contains_key(c) ==> out@[c]@ == assets_of_category(assets@.take(i as int), c),
        decreases assets.len() - i,
    {
        let a = copy_asset(&assets[i]);
        let c = a.category_id;
        let ghost before = out@;
        let ghost pre = assets@.take(i as int);
        let ghost now = assets@.take(i + 1);
        proof {
            assert(now.drop_last() =~= pre);
            assert(now.last() == assets@[i as int]);
        }
        let mut group = match out.remove(&c) {
            Some(v) => v,
            None => Vec::new(),
        };
        proof {
            if !before.contains_key(c) {
                assert(assets_of_category(pre, c) =~= Seq::<Asset>::empty()) by {
                    lemma_no_category_no_assets(pre, c);
                }
            }
            assert(group@ == assets_of_category(pre, c));
        }
        group.push(a);
        out.insert(c, group);
        proof {
            assert forall|d: i64| #[trigger] out@.contains_key(d) <==> has_category(now, d) by {
                if d == c {
                    assert(now[i as int].category_id == c);
                } else {
                    if has_category(now, d) {
                        let j = choose|j: int| 0 <= j < now.len() && (#[trigger] now[j]).category_id == d;
                        assert(j < i);
                        assert(pre[j] == now[j]);
                    }
                    if has_category(pre, d) {
                        let j = choose|j: int| 0 <= j < pre.len() && (#[trigger] pre[j]).category_id == d;
                        assert(pre[j] == now[j]);
                    }
                }
            }
        }
        i = i + 1;
    }
    assert(assets@.take(i as int) =~= assets@);
    out
}

/// A category that no asset has has no assets.
proof fn lemma_no_category_no_assets(assets: Seq<Asset>, c: i64)
    requires
        !has_category(assets, c),
    ensures
        assets_of_category(assets, c) == Seq::<Asset>::empty(),
    decreases assets.len(),
{
    if assets.len() > 0 {
        let d = assets.drop_last();
        assert(!has_category(d, c)) by {
            if has_category(d, c) {
                let j = choose|j: int| 0 <= j < d.len() && (#[trigger] d[j]).category_id == c;
                assert(assets[j] == d[j]);
            }
        }
        lemma_no_category_no_assets(d, c);
        assert(assets[assets.len() - 1].category_id != c);
    }
}

} // verus!
