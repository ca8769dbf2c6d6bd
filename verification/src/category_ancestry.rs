//! The ancestry of a category in the editor: the category and the
//! categories above it through parent links, shown root first.
use vstd::prelude::*;
use crate::shared::{Category, CategoryId};

verus! {

/// The position of the first category with id `id` among `cats` from `i`
/// on.
pub open spec fn category_index(cats: Seq<Category>, id: CategoryId, i: int) -> Option<int>
    decreases cats.len() - i,
{
    if i < 0 || i >= cats.len() {
        None
    } else if cats[i].id == id {
        Some(i)
    } else {
        category_index(cats, id, i + 1)
    }
}

/// The category with id `id`: the first among `cats` with that id.
pub open spec fn category_with_id(cats: Seq<Category>, id: CategoryId) -> Option<Category> {
    match category_index(cats, id, 0) {
        Some(i) => Some(cats[i]),
        None => None,
    }
}

/// A position found by `category_index` holds a category with that id.
proof fn lemma_category_index(cats: Seq<Category>, id: CategoryId, i: int)
    ensures
        category_index(cats, id, i) matches Some(j) ==> i <= j < cats.len() && cats[j].id == id,
    decreases cats.len() - i,
{
    if 0 <= i < cats.len() && cats[i].id != id {
        lemma_category_index(cats, id, i + 1);
    }
}

/// The category with id `id` (see `category_with_id`).
pub fn find_category<'a>(cats: &'a [Category], id: CategoryId) -> (r: Option<&'a Category>)
    ensures
        opt_category(r) == category_with_id(cats@, id),
{
    let mut i: usize = 0;
    while i < cats.len()
        invariant
            i <= cats@.len(),
            category_index(cats@, id, 0) == category_index(cats@, id, i as int),
        decreases cats.len() - i,
    {
        if cats[i].id == id {
            return Some(&cats[i]);
        }
        i = i + 1;
    }
    None
}

/// An optional category by value.
pub open spec fn opt_category(o: Option<&Category>) -> Option<Category> {
    match o {
        Some(c) => Some(*c),
        None => None,
    }
}

/// The category above `c`: its parent, when the list holds it.
pub open spec fn parent_of(cats: Seq<Category>, c: Option<Category>) -> Option<Category> {
    match c {
        Some(x) => match x.parent_id {
            Some(p) => category_with_id(cats, p),
            None => None,
        },
        None => None,
    }
}

/// The category `k` steps above `start`.
pub open spec fn ancestor(cats: Seq<Category>, start: Option<Category>, k: nat) -> Option<Category>
    decreases k,
{
    if k == 0 {
        start
    } else {
        parent_of(cats, ancestor(cats, start, (k - 1) as nat))
    }
}

/// Whether going up from `start` comes to an end.
pub open spec fn ancestry_ends(cats: Seq<Category>, start: Option<Category>) -> bool {
    exists|n: nat| #[trigger] ancestor(cats, start, n) is None
}

/// Once the way up has ended, it stays ended.
proof fn lemma_ancestor_ended(cats: Seq<Category>, start: Option<Category>, k: nat, m: nat)
    requires
        ancestor(cats, start, k) is None,
        k <= m,
    ensures
        ancestor(cats, start, m) is None,
    decreases m - k,
{
    if k < m {
        lemma_ancestor_ended(cats, start, k, (m - 1) as nat);
    }
}

/// The display names of the `m` categories from `m - 1` steps above
/// `start` down to `start` itself.
pub open spec fn ancestry_names(cats: Seq<Category>, start: Option<Category>, m: nat) -> Seq<Seq<char>>
    decreases m,
{
    if m == 0 {
        Seq::empty()
    } else {
        seq![category_name(ancestor(cats, start, (m - 1) as nat))] + ancestry_names(cats, start, (m - 1) as nat)
    }
}

/// The display name of a category, empty for none.
pub open spec fn category_name(c: Option<Category>) -> Seq<char> {
    match c {
        Some(x) => x.display_name@,
        None => Seq::empty(),
    }
}

/// The `k`-th of those names is that of the category `m - 1 - k` steps up.
proof fn lemma_ancestry_names(cats: Seq<Category>, start: Option<Category>, m: nat, k: int)
    requires
        0 <= k < m,
    ensures
        ancestry_names(cats, start, m).len() == m,
        ancestry_names(cats, start, m)[k] == category_name(ancestor(cats, start, (m - 1 - k) as nat)),
    decreases m,
{
    if k > 0 {
        lemma_ancestry_names(cats, start, (m - 1) as nat, k - 1);
    }
    if m > 1 {
        lemma_ancestry_names(cats, start, (m - 1) as nat, 0);
    }
}

/// Texts joined with `sep` between each two.
pub open spec fn join_text(parts: Seq<Seq<char>>, sep: Seq<char>) -> Seq<char>
    decreases parts.len(),
{
    if parts.len() == 0 {
        Seq::empty()
    } else if parts.len() == 1 {
        parts[0]
    } else {
        join_text(parts.drop_last(), sep) + sep + parts.last()
    }
}

/// A walk up the categories from `current`.
pub struct CategoryAncestryIter<'a> {
    pub categories: &'a [Category],
    pub current: Option<&'a Category>,
}

impl<'a> CategoryAncestryIter<'a> {
    /// The category the walk is at, if any; the walk moves on to its parent.
    pub fn next(&mut self) -> (r: Option<&'a Category>)
        ensures
            opt_category(r) == opt_category(old(self).current),
            final(self).categories == old(self).categories,
            opt_category(final(self).current) == parent_of(old(self).categories@, opt_category(old(self).current)),
    {
        match self.current {
            Some(c) => {
                self.current = match c.parent_id {
                    Some(pid) => find_category(self.categories, pid),
                    None => None,
                };
                Some(c)
            },
            None => None,
        }
    }

    /// The categories of the walk, root first, down to where it started;
    /// for a walk that comes to an end.
    pub fn into_vec(self) -> (v: Vec<&'a Category>)
        requires
            ancestry_ends(self.categories@, opt_category(self.current)),
        ensures
            ancestor(self.categories@, opt_category(self.current), v@.len()) is None,
            forall|k: int|
                0 <= k < v@.len() ==> Some(*#[trigger] v@[k]) == ancestor(
                    self.categories@,
                    opt_category(self.current),
                    (v@.len() - 1 - k) as nat,
                ),
    {
        let ghost cats = self.categories@;
        let ghost start = opt_category(self.current);
        let ghost bound = choose|n: nat| #[trigger] ancestor(cats, start, n) is None;
        let mut walk = self;
        let mut up: Vec<&'a Category> = Vec::new();
        while walk.current.is_some()
            invariant
                walk.categories@ == cats,
                ancestor(cats, start, bound) is None,
                up@.len() <= bound,
                opt_category(walk.current) == ancestor(cats, start, up@.len()),
                forall|k: int| 0 <= k < up@.len() ==> Some(*#[trigger] up@[k]) == ancestor(cats, start, k as nat),
            decreases bound - up@.len(),
        {
            proof {
                if bound <= up@.len() {
                    lemma_ancestor_ended(cats, start, bound, up@.len());
                }
            }
            let ghost n = up@.len();
            match walk.next() {
                Some(c) => {
                    up.push(c);
                    proof {
                        assert(ancestor(cats, start, (n + 1) as nat) == parent_of(cats, ancestor(cats, start, n)));
                    }
                },
                None => {},
            }
        }
        let mut out: Vec<&'a Category> = Vec::new();
        let mut i: usize = up.len();
        while i > 0
            invariant
                i <= up@.len(),
                out@.len() == up@.len() - i,
                forall|k: int| 0 <= k < out@.len() ==> #[trigger] out@[k] == up@[up@.len() - 1 - k],
            decreases i,
        {
            i = i - 1;
            out.push(up[i]);
        }
        assert forall|k: int| 0 <= k < out@.len() implies Some(*#[trigger] out@[k]) == ancestor(
            cats,
            start,
            (out@.len() - 1 - k) as nat,
        ) by {
            assert(out@[k] == up@[up@.len() - 1 - k]);
        }
        out
    }

    /// The display names of the walk's categories, root first, joined with
    /// ` / `; for a walk that comes to an end.
    pub fn display(self) -> (s: String)
        requires
            ancestry_ends(self.categories@, opt_category(self.current)),
        ensures
            exists|n: nat|
                #[trigger] ancestor(self.categories@, opt_category(self.current), n) is None && (forall|k: nat|
                    k < n ==> ancestor(self.categories@, opt_category(self.current), k) is Some) && s@ == join_text(
                    ancestry_names(self.categories@, opt_category(self.current), n),
                    " / "@,
                ),
    {
        let ghost cats = self.categories@;
        let ghost start = opt_category(self.current);
        let v = self.into_vec();
        let ghost n = v@.len();
        let ghost names = ancestry_names(cats, start, n);
        proof {
            if n > 0 {
                lemma_ancestry_names(cats, start, n, 0);
            }
        }
        let mut s = String::new();
        let mut i: usize = 0;
        while i < v.len()
            invariant
                i <= v@.len(),
                n == v@.len(),
                names == ancestry_names(cats, start, n),
                names.len() == n,
                forall|k: int| 0 <= k < v@.len() ==> Some(*#[trigger] v@[k]) == ancestor(cats, start, (n - 1 - k) as nat),
                s@ == join_text(names.take(i as int), " / "@),
            decreases v.len() - i,
        {
            proof {
                lemma_ancestry_names(cats, start, n, i as int);
                assert(names.take(i + 1).drop_last() == names.take(i as int));
                assert(names.take(i + 1).last() == v@[i as int].display_name@);
            }
            if i > 0 {
                s.append(" / ");
            } else {
                assert(names.take(1) == seq![names[0]]);
            }
            s.append(v[i].display_name.as_str());
            i = i + 1;
        }
        proof {
            assert(names.take(n as int) == names);
            assert forall|k: nat| k < n implies ancestor(cats, start, k) is Some by {
                assert(Some(*v@[(n - 1 - k) as int]) == ancestor(cats, start, k));
            }
        }
        s
    }
}

} // verus!
