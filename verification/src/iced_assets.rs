//! The asset table of the editor's iced front end: which field columns it
//! shows.
use vstd::prelude::*;
use crate::shared::{Asset, FieldId};

verus! {

/// The state of the asset table (it keeps none of its own).
#[derive(Debug, Default)]
pub struct State {}

/// Whether some asset among `assets` has a value for field `f`.
pub open spec fn has_field(assets: Seq<Asset>, f: FieldId) -> bool {
    exists|a: int, j: int|
        0 <= a < assets.len() && 0 <= j < assets[a].fields@.len() && #[trigger] assets[a].fields@[j].field_id == f
}

/// Whether the ids of `s` grow strictly from first to last.
pub open spec fn strictly_increasing(s: Seq<FieldId>) -> bool {
    forall|i: int, j: int| 0 <= i < j < s.len() ==> #[trigger] s[i].0 < #[trigger] s[j].0
}

/// Adds `f` to the strictly increasing ids `ids` in its place, unless it is
/// there already.
fn insert_field_id(ids: &mut Vec<FieldId>, f: FieldId)
    requires
        strictly_increasing(old(ids)@),
    ensures
        strictly_increasing(final(ids)@),
        forall|g: FieldId| final(ids)@.contains(g) <==> (old(ids)@.contains(g) || g == f),
{
    let mut p: usize = 0;
    while p < ids.len() && ids[p].0 < f.0
        invariant
            ids@ == old(ids)@,
            p <= ids@.len(),
            forall|k: int| 0 <= k < p ==> ids@[k].0 < f.0,
        decreases ids.len() - p,
    {
        p = p + 1;
    }
    if p < ids.len() && ids[p].0 == f.0 {
        assert(ids@[p as int] == f);
        return;
    }
    let ghost before = ids@;
    ids.insert(p, f);
    proof {
        assert(ids@ == before.insert(p as int, f));
        assert forall|i: int, j: int| 0 <= i < j < ids@.len() implies #[trigger] ids@[i].0 < #[trigger] ids@[j].0 by {
            if j < p {
            } else if j == p {
            } else if i < p {
                assert(ids@[j] == before[j - 1]);
                assert(before[p as int].0 > f.0);
                if j - 1 > p {
                    assert(before[p as int].0 < before[j - 1].0);
                }
            } else if i == p {
                assert(ids@[j] == before[j - 1]);
                if j - 1 > p {
                    assert(before[p as int].0 < before[j - 1].0);
                }
            } else {
                assert(ids@[i] == before[i - 1]);
                assert(ids@[j] == before[j - 1]);
            }
        }
        assert(before == old(ids)@);
        assert forall|g: FieldId| #[trigger] ids@.contains(g) <==> (old(ids)@.contains(g) || g == f) by {
            if ids@.contains(g) {
                let k = choose|k: int| 0 <= k < ids@.len() && ids@[k] == g;
                if k < p {
                    assert(before[k] == g);
                } else if k > p {
                    assert(before[k - 1] == g);
                }
            }
            if before.contains(g) {
                let k = choose|k: int| 0 <= k < before.len() && before[k] == g;
                if k < p {
                    assert(ids@[k] == g);
                } else {
                    assert(ids@[k + 1] == g);
                }
            }
            if g == f {
                assert(ids@[p as int] == f);
            }
        }
    }
}

/// The fields the table shows a column for: every field some asset has a
/// value for, each once, by increasing id.
pub fn table_field_ids(assets: &[Asset]) -> (ids: Vec<FieldId>)
    ensures
        strictly_increasing(ids@),
        forall|f: FieldId| ids@.contains(f) <==> has_field(assets@, f),
{
    let mut ids: Vec<FieldId> = Vec::new();
    let mut a: usize = 0;
    while a < assets.len()
        invariant
            a <= assets@.len(),
            strictly_increasing(ids@),
            forall|f: FieldId| ids@.contains(f) <==> has_field(assets@.take(a as int), f),
        decreases assets.len() - a,
    {
        let fields = &assets[a].fields;
        let mut j: usize = 0;
        while j < fields.len()
            invariant
                a < assets@.len(),
                fields@ == assets@[a as int].fields@,
                j <= fields@.len(),
                strictly_increasing(ids@),
                forall|f: FieldId|
                    ids@.contains(f) <==> (has_field(assets@.take(a as int), f) || exists|k: int|
                        0 <= k < j && #[trigger] fields@[k].field_id == f),
            decreases fields.len() - j,
        {
            let ghost before = ids@;
            insert_field_id(&mut ids, fields[j].field_id);
            proof {
                assert forall|f: FieldId|
                    ids@.contains(f) <==> (has_field(assets@.take(a as int), f) || exists|k: int|
                        0 <= k < j + 1 && #[trigger] fields@[k].field_id == f) by {
                    if f == fields@[j as int].field_id {
                        assert(fields@[j as int].field_id == f);
                    }
                    if exists|k: int| 0 <= k < j + 1 && #[trigger] fields@[k].field_id == f {
                        let k = choose|k: int| 0 <= k < j + 1 && #[trigger] fields@[k].field_id == f;
                        if k < j {
                            assert(fields@[k].field_id == f);
                        }
                    }
                }
            }
            j = j + 1;
        }
        proof {
            let now = assets@.take(a + 1);
            let was = assets@.take(a as int);
            assert forall|f: FieldId| ids@.contains(f) <==> has_field(now, f) by {
                if has_field(now, f) {
                    let (x, y) = choose|x: int, y: int|
                        0 <= x < now.len() && 0 <= y < now[x].fields@.len() && #[trigger] now[x].fields@[y].field_id == f;
                    if x < a {
                        assert(was[x].fields@[y].field_id == f);
                    } else {
                        assert(fields@[y].field_id == f);
                    }
                }
                if has_field(was, f) {
                    let (x, y) = choose|x: int, y: int|
                        0 <= x < was.len() && 0 <= y < was[x].fields@.len() && #[trigger] was[x].fields@[y].field_id == f;
                    assert(now[x].fields@[y].field_id == f);
                }
                if exists|k: int| 0 <= k < fields@.len() && #[trigger] fields@[k].field_id == f {
                    let k = choose|k: int| 0 <= k < fields@.len() && #[trigger] fields@[k].field_id == f;
                    assert(now[a as int].fields@[k].field_id == f);
                }
            }
        }
        a = a + 1;
    }
    assert(assets@.take(assets@.len() as int) == assets@);
    ids
}

} // verus!
