//! The categories whose tag hints a listing covers: the category alone, or,
//! for inherited hints, the category and every category above it, root
//! first. The walk up is a state machine; the caller looks each parent up in
//! the store and hands it back.
use vstd::prelude::*;

verus! {

/// A walk up the parent links of the categories, from a starting category.
pub struct AncestorWalk {
    ids: Vec<i64>,
    awaiting: Option<i64>,
}

impl AncestorWalk {
    /// The categories met so far, from the starting category up.
    pub closed spec fn visited(&self) -> Seq<i64> {
        self.ids@
    }

    /// The category whose parent is to be looked up next; none once the walk
    /// has reached a category without a parent.
    pub closed spec fn awaited(&self) -> Option<i64> {
        self.awaiting
    }

    /// A walk that starts at `category_id`.
    pub fn new(category_id: i64) -> (w: AncestorWalk)
        ensures
            w.visited() == seq![category_id],
            w.awaited() == Some(category_id),
    {
        let mut ids: Vec<i64> = Vec::new();
        ids.push(category_id);
        AncestorWalk { ids, awaiting: Some(category_id) }
    }

    /// The category whose parent is to be looked up next, if any.
    pub fn pending(&self) -> (r: Option<i64>)
        ensures
            r == self.awaited(),
    {
        self.awaiting
    }

    /// Takes the parent of the awaited category (none where it has no parent
    /// or is not stored): the walk moves up to it, or ends.
    pub fn parent_found(&mut self, parent: Option<i64>)
        requires
            old(self).awaited() is Some,
        ensures
            final(self).awaited() == parent,
            final(self).visited() == match parent {
                Some(p) => old(self).visited().push(p),
                None => old(self).visited(),
            },
    {
        if let Some(p) = parent {
            self.ids.push(p);
        }
        self.awaiting = parent;
    }

    /// The categories met, root first.
    pub fn into_ids(self) -> (v: Vec<i64>)
        ensures
            v@ == self.visited().reverse(),
    {
        let mut out: Vec<i64> = Vec::new();
        let mut i: usize = self.ids.len();
        while i > 0
            invariant
                i <= self.ids@.len(),
                out@ == self.ids@.subrange(i as int, self.ids@.len() as int).reverse(),
            decreases i,
        {
            i = i - 1;
            proof {
                assert(self.ids@.subrange(i as int, self.ids@.len() as int).reverse() =~= self.ids@.subrange(
                    i + 1,
                    self.ids@.len() as int,
                ).reverse().push(self.ids@[i as int]));
            }
            out.push(self.ids[i]);
        }
        assert(self.ids@.subrange(0, self.ids@.len() as int) =~= self.ids@);
        out
    }
}

} // verus!
