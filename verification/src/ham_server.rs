//! The asset listing of the editor's server: rows of assets joined with
//! their field values become assets with their fields, ordered by id.
use vstd::prelude::*;
use crate::shared::{Asset, AssetField, AssetId, Category, CategoryId, FieldId};

verus! {

/// A row of the asset listing: an asset, and one of its field values when
/// the row carries one that could be read.
pub struct AssetValueRow {
    pub asset_id: AssetId,
    pub category_id: CategoryId,
    pub display_name: String,
    pub field: Option<AssetField>,
}

/// The position of the first row of asset `id` among `rows`, from `i` on.
pub open spec fn first_row(rows: Seq<AssetValueRow>, id: AssetId, i: int) -> Option<int>
    decreases rows.len() - i,
{
    if i < 0 || i >= rows.len() {
        None
    } else if rows[i].asset_id == id {
        Some(i)
    } else {
        first_row(rows, id, i + 1)
    }
}

/// The field values the rows give asset `id`, in row order.
pub open spec fn fields_of(rows: Seq<AssetValueRow>, id: AssetId) -> Seq<AssetField>
    decreases rows.len(),
{
    if rows.len() == 0 {
        Seq::empty()
    } else {
        let before = fields_of(rows.drop_last(), id);
        if rows.last().asset_id == id && rows.last().field is Some {
            before.push(rows.last().field->0)
        } else {
            before
        }
    }
}

/// Whether asset `a` is what the rows say of asset `a.id`: the category and
/// display name of its first row, and the field values of its rows.
pub open spec fn asset_from_rows(rows: Seq<AssetValueRow>, a: Asset) -> bool {
    match first_row(rows, a.id, 0) {
        Some(i) => a.category_id == rows[i].category_id && a.display_name@ == rows[i].display_name@ && a.fields@
            == fields_of(rows, a.id),
        None => false,
    }
}

/// Whether the asset ids of `assets` grow strictly.
pub open spec fn ids_increasing(assets: Seq<Asset>) -> bool {
    forall|i: int, j: int| 0 <= i < j < assets.len() ==> #[trigger] assets[i].id.0 < #[trigger] assets[j].id.0
}

/// Whether some row is of asset `id`.
pub open spec fn has_row(rows: Seq<AssetValueRow>, id: AssetId) -> bool {
    exists|i: int| 0 <= i < rows.len() && #[trigger] rows[i].asset_id == id
}

/// Whether `assets` are the assets of `rows`: one per asset id of the rows,
/// by increasing id, each as its rows say.
pub open spec fn grouped(rows: Seq<AssetValueRow>, assets: Seq<Asset>) -> bool {
    &&& ids_increasing(assets)
    &&& forall|k: int| 0 <= k < assets.len() ==> asset_from_rows(rows, #[trigger] assets[k])
    &&& forall|id: AssetId| has_row(rows, id) ==> exists|k: int| 0 <= k < assets.len() && #[trigger] assets[k].id == id
}

/// Adding a row leaves the first row of an asset already seen where it was.
proof fn lemma_first_row_push(rows: Seq<AssetValueRow>, r: AssetValueRow, id: AssetId, i: int)
    requires
        0 <= i <= rows.len(),
    ensures
        first_row(rows, id, i) matches Some(j) ==> first_row(rows.push(r), id, i) == Some(j),
        first_row(rows, id, i) is None ==> first_row(rows.push(r), id, i) == (if r.asset_id == id {
            Some(rows.len() as int)
        } else {
            None
        }),
    decreases rows.len() - i,
{
    if i < rows.len() {
        assert(rows.push(r)[i] == rows[i]);
        if rows[i].asset_id != id {
            lemma_first_row_push(rows, r, id, i + 1);
        }
    } else {
        assert(rows.push(r)[i] == r);
        if r.asset_id != id {
            assert(first_row(rows.push(r), id, i + 1) is None);
        }
    }
}

/// A first row found is a row of the asset.
proof fn lemma_first_row_found(rows: Seq<AssetValueRow>, id: AssetId, i: int)
    requires
        0 <= i,
    ensures
        first_row(rows, id, i) matches Some(j) ==> i <= j < rows.len() && rows[j].asset_id == id,
        first_row(rows, id, i) is None ==> forall|k: int| i <= k < rows.len() ==> rows[k].asset_id != id,
    decreases rows.len() - i,
{
    if 0 <= i < rows.len() && rows[i].asset_id != id {
        lemma_first_row_found(rows, id, i + 1);
    }
}

/// The assets of the rows (see `grouped`).
pub fn group_asset_rows(rows: Vec<AssetValueRow>) -> (assets: Vec<Asset>)
    ensures
        grouped(rows@, assets@),
{
    let ghost all = rows@;
    let mut rest = rows;
    let mut assets: Vec<Asset> = Vec::new();
    let ghost mut seen: Seq<AssetValueRow> = Seq::empty();
    while rest.len() > 0
        invariant
            seen + rest@ == all,
            grouped(seen, assets@),
        decreases rest.len(),
    {
        let ghost rest_before = rest@;
        let row = rest.remove(0);
        proof {
            assert(rest@ == rest_before.drop_first());
            assert(seen.push(row) + rest@ =~= all);
        }
        let ghost old_assets = assets@;
        let ghost now = seen.push(row);
        let mut p: usize = 0;
        while p < assets.len() && assets[p].id.0 < row.asset_id.0
            invariant
                p <= assets@.len(),
                assets@ == old_assets,
                forall|k: int| 0 <= k < p ==> #[trigger] assets@[k].id.0 < row.asset_id.0,
            decreases assets.len() - p,
        {
            p = p + 1;
        }
        proof {
            assert forall|id: AssetId| #![trigger first_row(now, id, 0)] true implies (first_row(seen, id, 0) matches Some(
                j,
            ) ==> first_row(now, id, 0) == Some(j)) && (first_row(seen, id, 0) is None ==> first_row(now, id, 0) == (
            if row.asset_id == id {
                Some(seen.len() as int)
            } else {
                None
            })) by {
                lemma_first_row_push(seen, row, id, 0);
            }
            assert(now.drop_last() == seen);
        }
        if p < assets.len() && assets[p].id.0 == row.asset_id.0 {
            let mut a = assets.remove(p);
            match row.field {
                Some(f) => {
                    a.fields.push(f);
                },
                None => {},
            }
            assets.insert(p, a);
            proof {
                assert(assets@ == old_assets.update(p as int, a));
                assert forall|k: int| 0 <= k < assets@.len() implies asset_from_rows(now, #[trigger] assets@[k]) by {
                    let b = old_assets[k];
                    assert(asset_from_rows(seen, b));
                    lemma_first_row_found(seen, b.id, 0);
                    if k != p {
                        assert(assets@[k] == b);
                        assert(b.id != row.asset_id);
                    } else {
                        assert(b.id == row.asset_id);
                    }
                }
                assert forall|id: AssetId| has_row(now, id) implies exists|k: int|
                    0 <= k < assets@.len() && #[trigger] assets@[k].id == id by {
                    let i = choose|i: int| 0 <= i < now.len() && #[trigger] now[i].asset_id == id;
                    if i < seen.len() {
                        assert(seen[i].asset_id == id);
                        assert(has_row(seen, id));
                        let k = choose|k: int| 0 <= k < old_assets.len() && #[trigger] old_assets[k].id == id;
                        assert(assets@[k].id == id);
                    } else {
                        assert(assets@[p as int].id == id);
                    }
                }
            }
        } else {
            let fields: Vec<AssetField> = match row.field {
                Some(f) => {
                    let mut v = Vec::new();
                    v.push(f);
                    v
                },
                None => Vec::new(),
            };
            let a = Asset { id: row.asset_id, category_id: row.category_id, display_name: row.display_name, fields };
            assets.insert(p, a);
            proof {
                assert(assets@ == old_assets.insert(p as int, a));
                assert(!has_row(seen, row.asset_id)) by {
                    if has_row(seen, row.asset_id) {
                        let k = choose|k: int| 0 <= k < old_assets.len() && #[trigger] old_assets[k].id == row.asset_id;
                        if k < p {
                        } else {
                            if k > p {
                                assert(old_assets[p as int].id.0 < old_assets[k].id.0);
                            }
                        }
                    }
                }
                lemma_first_row_found(seen, row.asset_id, 0);
                assert(fields_of(seen, row.asset_id) =~= Seq::<AssetField>::empty()) by {
                    lemma_no_fields(seen, row.asset_id);
                }
                assert forall|k: int| 0 <= k < assets@.len() implies asset_from_rows(now, #[trigger] assets@[k]) by {
                    if k < p {
                        assert(assets@[k] == old_assets[k]);
                        assert(asset_from_rows(seen, old_assets[k]));
                        lemma_first_row_found(seen, old_assets[k].id, 0);
                    } else if k > p {
                        assert(assets@[k] == old_assets[k - 1]);
                        assert(asset_from_rows(seen, old_assets[k - 1]));
                        lemma_first_row_found(seen, old_assets[k - 1].id, 0);
                    }
                }
                assert forall|i: int, j: int| 0 <= i < j < assets@.len() implies #[trigger] assets@[i].id.0
                    < #[trigger] assets@[j].id.0 by {
                    if j < p {
                        assert(assets@[i] == old_assets[i] && assets@[j] == old_assets[j]);
                    } else if j == p {
                        assert(assets@[i] == old_assets[i]);
                    } else if i < p {
                        assert(assets@[i] == old_assets[i] && assets@[j] == old_assets[j - 1]);
                        assert(old_assets[p as int].id.0 >= row.asset_id.0);
                        if j - 1 > p {
                            assert(old_assets[p as int].id.0 < old_assets[j - 1].id.0);
                        }
                    } else if i == p {
                        assert(assets@[j] == old_assets[j - 1]);
                        assert(old_assets[p as int].id.0 >= row.asset_id.0);
                        if j - 1 > p {
                            assert(old_assets[p as int].id.0 < old_assets[j - 1].id.0);
                        }
                    } else {
                        assert(assets@[i] == old_assets[i - 1] && assets@[j] == old_assets[j - 1]);
                    }
                }
                assert forall|id: AssetId| has_row(now, id) implies exists|k: int|
                    0 <= k < assets@.len() && #[trigger] assets@[k].id == id by {
                    let i = choose|i: int| 0 <= i < now.len() && #[trigger] now[i].asset_id == id;
                    if i < seen.len() {
                        assert(seen[i].asset_id == id);
                        assert(has_row(seen, id));
                        let k = choose|k: int| 0 <= k < old_assets.len() && #[trigger] old_assets[k].id == id;
                        if k < p {
                            assert(assets@[k].id == id);
                        } else {
                            assert(assets@[k + 1].id == id);
                        }
                    } else {
                        assert(assets@[p as int].id == id);
                    }
                }
            }
        }
        proof {
            seen = now;
        }
    }
    proof {
        assert(seen == all);
    }
    assets
}

/// Rows without asset `id` give it no field values.
proof fn lemma_no_fields(rows: Seq<AssetValueRow>, id: AssetId)
    requires
        forall|k: int| 0 <= k < rows.len() ==> rows[k].asset_id != id,
    ensures
        fields_of(rows, id).len() == 0,
    decreases rows.len(),
{
    if rows.len() > 0 {
        lemma_no_fields(rows.drop_last(), id);
    }
}

} // verus!

verus! {

/// A field the editor's server suggests for a category.
#[derive(Debug, Clone, Copy, PartialEq, Eq, Structural)]
pub struct CategoryFieldHint {
    pub category_id: CategoryId,
    pub field_id: FieldId,
}

/// The fields the hints suggest for category `c`, in hint order.
pub open spec fn hinted_fields(hints: Seq<CategoryFieldHint>, c: CategoryId) -> Seq<FieldId>
    decreases hints.len(),
{
    if hints.len() == 0 {
        Seq::empty()
    } else {
        let before = hinted_fields(hints.drop_last(), c);
        if hints.last().category_id == c {
            before.push(hints.last().field_id)
        } else {
            before
        }
    }
}

/// The fields of each category, as the category listing gives them: the
/// categories unchanged but for their fields, which are those the hints
/// suggest for them, in hint order.
pub fn attach_field_hints(categories: &mut Vec<Category>, hints: &[CategoryFieldHint])
    ensures
        final(categories)@.len() == old(categories)@.len(),
        forall|k: int|
            0 <= k < final(categories)@.len() ==> (#[trigger] final(categories)@[k]).id == old(categories)@[k].id
                && final(categories)@[k].display_name == old(categories)@[k].display_name && final(categories)@[k].parent_id
                == old(categories)@[k].parent_id && final(categories)@[k].field_ids@ == hinted_fields(
                hints@,
                old(categories)@[k].id,
            ),
{
    let ghost before = categories@;
    let mut k: usize = 0;
    while k < categories.len()
        invariant
            k <= categories@.len(),
            categories@.len() == before.len(),
            forall|q: int| k <= q < categories@.len() ==> #[trigger] categories@[q] == before[q],
            forall|q: int|
                0 <= q < k ==> (#[trigger] categories@[q]).id == before[q].id && categories@[q].display_name
                    == before[q].display_name && categories@[q].parent_id == before[q].parent_id
                    && categories@[q].field_ids@ == hinted_fields(hints@, before[q].id),
        decreases categories.len() - k,
    {
        let id = categories[k].id;
        let mut ids: Vec<FieldId> = Vec::new();
        let mut h: usize = 0;
        assert(hints@.take(0) =~= Seq::<CategoryFieldHint>::empty());
        while h < hints.len()
            invariant
                h <= hints@.len(),
                ids@ == hinted_fields(hints@.take(h as int), id),
            decreases hints.len() - h,
        {
            assert(hints@.take(h + 1).drop_last() =~= hints@.take(h as int));
            assert(hints@.take(h + 1).last() == hints@[h as int]);
            if hints[h].category_id == id {
                ids.push(hints[h].field_id);
            }
            h = h + 1;
        }
        assert(hints@.take(h as int) =~= hints@);
        let ghost old_cats = categories@;
        let mut c = categories.remove(k);
        c.field_ids = ids;
        categories.insert(k, c);
        proof {
            assert forall|q: int| k < q < categories@.len() implies #[trigger] categories@[q] == before[q] by {
                assert(categories@[q] == old_cats[q]);
            }
            assert forall|q: int| 0 <= q < k implies #[trigger] categories@[q] == old_cats[q] by {}
        }
        k = k + 1;
    }
}

/// The list of `n` SQL parameter placeholders: `?` repeated, joined with
/// commas.
pub open spec fn placeholders(n: nat) -> Seq<char>
    decreases n,
{
    if n == 0 {
        Seq::empty()
    } else if n == 1 {
        seq!['?']
    } else {
        placeholders((n - 1) as nat) + seq![',', '?']
    }
}

/// The placeholders for the `n` field ids an asset listing asks for (see
/// `placeholders`).
pub fn sql_placeholders(n: usize) -> (s: String)
    ensures
        s@ == placeholders(n as nat),
{
    let mut s = String::new();
    let mut i: usize = 0;
    while i < n
        invariant
            i <= n,
            s@ == placeholders(i as nat),
        decreases n - i,
    {
        if i > 0 {
            crate::text::push_char(&mut s, ',');
        }
        crate::text::push_char(&mut s, '?');
        proof {
            if i > 0 {
                assert(s@ =~= placeholders(i as nat) + seq![',', '?']);
            } else {
                assert(s@ =~= seq!['?']);
            }
        }
        i = i + 1;
    }
    s
}

} // verus!
