//! What the editor's pages decide: the lookups they make in the editor's
//! state, the labels they show, and the message each request of the user
//! sends. Drawing the widgets is egui's part and stays with the front end.
use vstd::prelude::*;
use crate::category_ancestry::{
    ancestor, ancestry_ends, category_with_id, find_category, opt_category, CategoryAncestryIter,
};
use crate::ham_app::{asset_index, GlobalState, Message};
use crate::shared::{Asset, AssetId, Category, CategoryId, CreateAssetParams, CreateCategoryParams, Field, FieldId};
use crate::text::{i64_text, int_text, nat_text, padded_int_text, u64_text, zero_padded};

verus! {

/// The position of the first field with id `id` among `fields` from `i` on.
pub open spec fn field_index(fields: Seq<Field>, id: FieldId, i: int) -> Option<int>
    decreases fields.len() - i,
{
    if i < 0 || i >= fields.len() {
        None
    } else if fields[i].id == id {
        Some(i)
    } else {
        field_index(fields, id, i + 1)
    }
}

/// The tag shown for an asset: `A` and the id zero-padded to four digits.
pub open spec fn editor_asset_tag(id: AssetId) -> Seq<char> {
    "A"@ + padded_int_text(id.0 as int, 4)
}

impl GlobalState {
    /// The first asset with id `id`.
    pub fn asset(&self, id: AssetId) -> (r: Option<&Asset>)
        ensures
            match asset_index(self.assets@, id, 0) {
                Some(i) => r matches Some(a) && *a == self.assets@[i],
                None => r is None,
            },
    {
        let mut i: usize = 0;
        while i < self.assets.len()
            invariant
                i <= self.assets@.len(),
                asset_index(self.assets@, id, 0) == asset_index(self.assets@, id, i as int),
            decreases self.assets.len() - i,
        {
            if self.assets[i].id == id {
                return Some(&self.assets[i]);
            }
            i = i + 1;
        }
        None
    }

    /// The first category with id `id`.
    pub fn category(&self, id: CategoryId) -> (r: Option<&Category>)
        ensures
            opt_category(r) == category_with_id(self.categories@, id),
    {
        find_category(self.categories.as_slice(), id)
    }

    /// The first field with id `id`.
    pub fn field(&self, id: FieldId) -> (r: Option<&Field>)
        ensures
            match field_index(self.fields@, id, 0) {
                Some(i) => r matches Some(f) && *f == self.fields@[i],
                None => r is None,
            },
    {
        let mut i: usize = 0;
        while i < self.fields.len()
            invariant
                i <= self.fields@.len(),
                field_index(self.fields@, id, 0) == field_index(self.fields@, id, i as int),
            decreases self.fields.len() - i,
        {
            if self.fields[i].id == id {
                return Some(&self.fields[i]);
            }
            i = i + 1;
        }
        None
    }

    /// The tag shown for asset `asset_id` (see `editor_asset_tag`).
    pub fn format_asset_tag(&self, asset_id: AssetId) -> (s: String)
        ensures
            s@ == editor_asset_tag(asset_id),
    {
        let mut s = String::from_str("A");
        let number = zero_padded(asset_id.0, 4);
        s.append(number.as_str());
        proof {
            reveal_strlit("A");
        }
        s
    }
}

/// The id line of the asset page: the asset's id, or `New asset` for an
/// asset not yet created.
pub fn asset_id_label(asset: Option<&Asset>) -> (s: String)
    ensures
        s@ == match asset {
            Some(a) => int_text(a.id.0 as int),
            None => "New asset"@,
        },
{
    match asset {
        Some(a) => i64_text(a.id.0),
        None => String::from_str("New asset"),
    }
}

/// The category line of the asset page: the name of the asset's category,
/// or `<unknown>` where there is no asset or its category is not listed.
pub fn asset_category_label(global: &GlobalState, asset: Option<&Asset>) -> (s: String)
    ensures
        s@ == match asset {
            Some(a) => match category_with_id(global.categories@, a.category_id) {
                Some(c) => c.display_name@,
                None => "<unknown>"@,
            },
            None => "<unknown>"@,
        },
{
    let found = match asset {
        Some(a) => global.category(a.category_id),
        None => None,
    };
    match found {
        Some(c) => c.display_name.clone(),
        None => String::from_str("<unknown>"),
    }
}

/// The text of the category chooser of the asset page: the chosen
/// category's name, or `<none>`.
pub fn chosen_category_label(global: &GlobalState, chosen: Option<CategoryId>) -> (s: String)
    ensures
        s@ == match chosen {
            Some(id) => match category_with_id(global.categories@, id) {
                Some(c) => c.display_name@,
                None => "<none>"@,
            },
            None => "<none>"@,
        },
{
    let found = match chosen {
        Some(id) => global.category(id),
        None => None,
    };
    match found {
        Some(c) => c.display_name.clone(),
        None => String::from_str("<none>"),
    }
}

/// What `Save` on the asset page sends: nothing while no category is chosen
/// (the button is disabled); otherwise an update of the asset shown, or the
/// creation of a new asset.
pub fn asset_save_message(asset_id: Option<AssetId>, chosen: Option<CategoryId>, display_name: String) -> (r: Option<
    Message,
>)
    ensures
        match chosen {
            None => r is None,
            Some(c) => match asset_id {
                Some(id) => r matches Some(Message::UpdateAsset(i, p)) && i == id && p.category_id == c
                    && p.display_name == display_name,
                None => r matches Some(Message::CreateAsset(p)) && p.category_id == c && p.display_name
                    == display_name,
            },
        },
{
    match chosen {
        None => None,
        Some(category_id) => {
            let params = CreateAssetParams { category_id, display_name };
            match asset_id {
                Some(id) => Some(Message::UpdateAsset(id, params)),
                None => Some(Message::CreateAsset(params)),
            }
        },
    }
}

/// What entering a name under `Create subcategory` sends: a new category
/// under the selected one, with no fields.
pub fn create_subcategory_message(selected: CategoryId, name: String) -> (r: Message)
    ensures
        r matches Message::CreateCategory(p) && p.display_name == name && p.parent_id == Some(selected)
            && p.field_ids@.len() == 0,
{
    Message::CreateCategory(CreateCategoryParams { display_name: name, parent_id: Some(selected), field_ids: Vec::new() })
}

/// The two labels that say why a category with `count` assets cannot be
/// deleted, or nothing when it has none and `Delete` is offered.
pub fn delete_category_notice(count: usize) -> (r: Option<(String, String)>)
    ensures
        count == 0 ==> r is None,
        count > 0 ==> (r matches Some((a, b)) && a@ == "This category has "@ + nat_text(count as nat)
            + " assets. You must move or delete them before you can delete the category."@
            && b@ == "You can't delete a category with subcategories either, but I don't check for that yet."@),
{
    if count == 0 {
        None
    } else {
        let mut s = String::from_str("This category has ");
        let n = u64_text(count as u64);
        s.append(n.as_str());
        s.append(" assets. You must move or delete them before you can delete the category.");
        let t = String::from_str("You can't delete a category with subcategories either, but I don't check for that yet.");
        Some((s, t))
    }
}

/// The asset count shown beside a category: `(n assets)`, with no count
/// known shown as none.
pub fn asset_count_label(count: Option<usize>) -> (s: String)
    ensures
        s@ == "("@ + nat_text(
            match count {
                Some(n) => n as nat,
                None => 0nat,
            },
        ) + " assets)"@,
{
    let n: usize = match count {
        Some(n) => n,
        None => 0,
    };
    let mut s = String::from_str("(");
    let digits = u64_text(n as u64);
    s.append(digits.as_str());
    s.append(" assets)");
    s
}

/// The row of a category in the list: its ancestry, root first, each with
/// whether it is the selected category; for a category whose ancestry ends.
pub fn category_row<'a>(global: &'a GlobalState, category: &'a Category) -> (r: Vec<(&'a Category, bool)>)
    requires
        ancestry_ends(global.categories@, Some(*category)),
    ensures
        ancestor(global.categories@, Some(*category), r@.len()) is None,
        forall|k: int|
            0 <= k < r@.len() ==> Some(*(#[trigger] r@[k]).0) == ancestor(
                global.categories@,
                Some(*category),
                (r@.len() - 1 - k) as nat,
            ) && r@[k].1 == (global.categories_selection == Some(r@[k].0.id)),
{
    let walk = CategoryAncestryIter { categories: global.categories.as_slice(), current: Some(category) };
    let cats = walk.into_vec();
    let mut out: Vec<(&'a Category, bool)> = Vec::new();
    let mut i: usize = 0;
    while i < cats.len()
        invariant
            i <= cats@.len(),
            out@.len() == i,
            forall|k: int|
                0 <= k < i ==> (#[trigger] out@[k]).0 == cats@[k] && out@[k].1 == (global.categories_selection
                    == Some(cats@[k].id)),
        decreases cats.len() - i,
    {
        let c = cats[i];
        let selected = match global.categories_selection {
            Some(s) => s == c.id,
            None => false,
        };
        out.push((c, selected));
        i = i + 1;
    }
    out
}

} // verus!
