//! The asset editor's egui front end as a state machine: the state it keeps,
//! the messages it handles (pages, answers of the server, user requests),
//! and for each message the next state and the request to send.
use vstd::prelude::*;
use crate::shared::{
    Asset, AssetId, Category, CategoryId, CommaSeparated, CreateAssetParams, CreateCategoryParams, Field, FieldId,
    Index, ListAssetParams, count_in, item_texts,
};
use crate::text::join_with;

verus! {

/// A page of the editor.
#[derive(Debug, Clone, Copy, PartialEq, Eq, Structural)]
pub enum HamPage {
    Assets,
    Categories,
    Fields,
    EditAsset(Option<AssetId>),
}

/// The title of a page in the menu.
pub open spec fn page_title(p: HamPage) -> Seq<char> {
    match p {
        HamPage::Assets => "Assets"@,
        HamPage::Categories => "Categories"@,
        HamPage::Fields => "Fields"@,
        HamPage::EditAsset(None) => "New Asset"@,
        HamPage::EditAsset(Some(_)) => "Edit Asset"@,
    }
}

impl HamPage {
    /// The title of the page in the menu.
    pub fn title(&self) -> (s: &'static str)
        ensures
            s@ == page_title(*self),
    {
        match self {
            HamPage::Assets => "Assets",
            HamPage::Categories => "Categories",
            HamPage::Fields => "Fields",
            HamPage::EditAsset(None) => "New Asset",
            HamPage::EditAsset(Some(_)) => "Edit Asset",
        }
    }
}

/// A column of the asset list.
#[derive(Debug, Clone, Copy, PartialEq, Eq, Structural)]
pub enum AssetColumn {
    Tag,
    Category,
    DisplayName,
    Field(FieldId),
}

/// Where a column sorts: the tag, the category and the display name first,
/// then the fields by id.
pub open spec fn column_key(c: AssetColumn) -> int {
    match c {
        AssetColumn::Tag => 0,
        AssetColumn::Category => 1,
        AssetColumn::DisplayName => 2,
        AssetColumn::Field(f) => 3 + (f.0 - i64::MIN),
    }
}

/// Whether the columns of `s` come in sorting order.
pub open spec fn columns_sorted(s: Seq<AssetColumn>) -> bool {
    forall|i: int, j: int| 0 <= i < j < s.len() ==> column_key(#[trigger] s[i]) <= column_key(#[trigger] s[j])
}

/// Whether column `a` sorts no later than column `b`.
fn column_not_after(a: AssetColumn, b: AssetColumn) -> (r: bool)
    ensures
        r == (column_key(a) <= column_key(b)),
{
    match (a, b) {
        (AssetColumn::Field(x), AssetColumn::Field(y)) => x.0 <= y.0,
        (AssetColumn::Field(_), _) => false,
        (AssetColumn::DisplayName, AssetColumn::Tag) | (AssetColumn::DisplayName, AssetColumn::Category) => false,
        (AssetColumn::Category, AssetColumn::Tag) => false,
        _ => true,
    }
}

/// The columns in sorting order.
pub fn sort_columns(cols: &Vec<AssetColumn>) -> (out: Vec<AssetColumn>)
    ensures
        columns_sorted(out@),
        out@.to_multiset() == cols@.to_multiset(),
{
    broadcast use vstd::multiset::group_multiset_axioms;

    let mut out: Vec<AssetColumn> = Vec::new();
    proof {
        vstd::seq_lib::to_multiset_len(out@);
        vstd::multiset::lemma_multiset_empty_len(out@.to_multiset());
        assert(cols@.take(0) =~= Seq::<AssetColumn>::empty());
        vstd::seq_lib::to_multiset_len(cols@.take(0));
        vstd::multiset::lemma_multiset_empty_len(cols@.take(0).to_multiset());
    }
    let mut i: usize = 0;
    while i < cols.len()
        invariant
            i <= cols@.len(),
            columns_sorted(out@),
            out@.to_multiset() == cols@.take(i as int).to_multiset(),
        decreases cols.len() - i,
    {
        let x = cols[i];
        let mut p: usize = 0;
        while p < out.len() && column_not_after(out[p], x)
            invariant
                p <= out@.len(),
                forall|k: int| 0 <= k < p ==> column_key(#[trigger] out@[k]) <= column_key(x),
            decreases out.len() - p,
        {
            p = p + 1;
        }
        let ghost before = out@;
        out.insert(p, x);
        proof {
            assert(out@ == before.insert(p as int, x));
            vstd::seq_lib::to_multiset_insert(before, p as int, x);
            assert(cols@.take(i + 1) == cols@.take(i as int).push(x));
            vstd::seq_lib::to_multiset_build(cols@.take(i as int), x);
            assert forall|a: int, b: int| 0 <= a < b < out@.len() implies column_key(#[trigger] out@[a]) <= column_key(
                #[trigger] out@[b],
            ) by {
                if b < p {
                    assert(out@[a] == before[a] && out@[b] == before[b]);
                } else if b == p {
                    assert(out@[a] == before[a]);
                } else if a < p {
                    assert(out@[b] == before[b - 1]);
                    if p < before.len() {
                        assert(column_key(before[p as int]) > column_key(x));
                        if b - 1 > p {
                            assert(column_key(before[p as int]) <= column_key(before[b - 1]));
                        }
                    }
                    if a < p {
                        assert(out@[a] == before[a]);
                    }
                } else if a == p {
                    assert(out@[b] == before[b - 1]);
                    assert(column_key(before[p as int]) > column_key(x));
                    if b - 1 > p {
                        assert(column_key(before[p as int]) <= column_key(before[b - 1]));
                    }
                } else {
                    assert(out@[a] == before[a - 1] && out@[b] == before[b - 1]);
                }
            }
        }
        i = i + 1;
    }
    assert(cols@.take(cols@.len() as int) == cols@);
    out
}

/// The first columns of the asset list: tag, category, display name.
pub fn base_columns() -> (cols: Vec<AssetColumn>)
    ensures
        cols@ == seq![AssetColumn::Tag, AssetColumn::Category, AssetColumn::DisplayName],
{
    vec![AssetColumn::Tag, AssetColumn::Category, AssetColumn::DisplayName]
}

/// The fields whose columns are among `cols`, in column order.
pub open spec fn column_field_ids(cols: Seq<AssetColumn>) -> Seq<FieldId>
    decreases cols.len(),
{
    if cols.len() == 0 {
        Seq::empty()
    } else {
        let before = column_field_ids(cols.drop_last());
        match cols.last() {
            AssetColumn::Field(f) => before.push(f),
            _ => before,
        }
    }
}

/// The fields whose columns are among `cols` (see `column_field_ids`).
fn field_ids_of_columns(cols: &Vec<AssetColumn>) -> (ids: Vec<FieldId>)
    ensures
        ids@ == column_field_ids(cols@),
{
    let mut ids: Vec<FieldId> = Vec::new();
    let mut i: usize = 0;
    while i < cols.len()
        invariant
            i <= cols@.len(),
            ids@ == column_field_ids(cols@.take(i as int)),
        decreases cols.len() - i,
    {
        assert(cols@.take(i + 1).drop_last() == cols@.take(i as int));
        match cols[i] {
            AssetColumn::Field(f) => ids.push(f),
            _ => {},
        }
        i = i + 1;
    }
    assert(cols@.take(cols@.len() as int) == cols@);
    ids
}

/// The user's settings: the columns the asset list shows.
pub struct Settings {
    pub asset_columns: Vec<AssetColumn>,
}

impl Default for Settings {
    /// The base columns.
    fn default() -> (s: Settings)
        ensures
            s.asset_columns@ == seq![AssetColumn::Tag, AssetColumn::Category, AssetColumn::DisplayName],
    {
        Settings { asset_columns: base_columns() }
    }
}

/// The categories of the assets, asset by asset.
pub open spec fn asset_category_ids(assets: Seq<Asset>) -> Seq<CategoryId> {
    Seq::new(assets.len(), |i: int| assets[i].category_id)
}

/// Whether `ix` counts, for each of `categories` in order, the assets in it.
pub open spec fn indexes(ix: Index, categories: Seq<Category>, assets: Seq<Asset>) -> bool {
    &&& ix.counts().len() == categories.len()
    &&& forall|i: int|
        0 <= i < categories.len() ==> (#[trigger] ix.counts()[i]).0 == categories[i].id && ix.counts()[i].1
            == count_in(asset_category_ids(assets), categories[i].id)
}

/// The index of the assets per category.
fn reindex(categories: &Vec<Category>, assets: &Vec<Asset>) -> (ix: Index)
    ensures
        indexes(ix, categories@, assets@),
{
    let mut cats: Vec<CategoryId> = Vec::new();
    let mut i: usize = 0;
    while i < categories.len()
        invariant
            i <= categories@.len(),
            cats@.len() == i,
            forall|k: int| 0 <= k < i ==> #[trigger] cats@[k] == categories@[k].id,
        decreases categories.len() - i,
    {
        cats.push(categories[i].id);
        i = i + 1;
    }
    let mut owners: Vec<CategoryId> = Vec::new();
    let mut j: usize = 0;
    while j < assets.len()
        invariant
            j <= assets@.len(),
            owners@.len() == j,
            forall|k: int| 0 <= k < j ==> #[trigger] owners@[k] == assets@[k].category_id,
        decreases assets.len() - j,
    {
        owners.push(assets[j].category_id);
        j = j + 1;
    }
    assert(owners@ =~= asset_category_ids(assets@));
    Index::calculate(cats.as_slice(), owners.as_slice())
}


/// What the editor keeps: the lists fetched from the server, the index of
/// assets per category, the settings, the selected category and whether
/// the asset page edits.
pub struct GlobalState {
    pub assets: Vec<Asset>,
    pub categories: Vec<Category>,
    pub fields: Vec<Field>,
    pub index: Index,
    pub settings: Settings,
    pub categories_selection: Option<CategoryId>,
    pub asset_edit_mode: bool,
}

/// The editor: its state and the page it shows.
pub struct HamApp {
    pub global: GlobalState,
    pub page: HamPage,
}

/// What the editor reacts to: answers of the server (each a successful
/// one), and the user's requests.
pub enum Message {
    AssetsLoaded(Vec<Asset>),
    AssetCreated(Asset),
    AssetUpdated(AssetId, Asset),
    CategoriesLoaded(Vec<Category>),
    CategoryCreated(Category),
    CategoryDeleted(CategoryId),
    FieldsLoaded(Vec<Field>),
    ChangePage(HamPage),
    ToggleFetchAssetField(FieldId, bool),
    SetAssetEditMode(bool),
    CreateAsset(CreateAssetParams),
    UpdateAsset(AssetId, CreateAssetParams),
    SelectCategory(CategoryId),
    CreateCategory(CreateCategoryParams),
    DeleteCategory(CategoryId),
}

/// The request the editor sends after a message, if any.
pub enum Action {
    Nothing,
    LoadAssets(ListAssetParams),
    LoadCategories,
    LoadFields,
    CreateAsset(CreateAssetParams),
    UpdateAsset(AssetId, CreateAssetParams),
    CreateCategory(CreateCategoryParams),
    DeleteCategory(CategoryId),
}

/// Whether `a` loads the assets with the fields of the columns `cols`.
pub open spec fn loads_assets_of(a: Action, cols: Seq<AssetColumn>) -> bool {
    a matches Action::LoadAssets(p) && p.field_ids.text() == join_with(item_texts(column_field_ids(cols)), ',')
}

/// The request for the assets with the fields of the columns `cols`.
fn load_assets(cols: &Vec<AssetColumn>) -> (a: Action)
    ensures
        loads_assets_of(a, cols@),
{
    let ids = field_ids_of_columns(cols);
    Action::LoadAssets(ListAssetParams { field_ids: CommaSeparated::from_slice(ids.as_slice()) })
}

/// The editor when it starts with `settings`, and its first requests: the
/// assets, the categories and the fields.
pub fn init(settings: Settings) -> (r: (HamApp, Vec<Action>))
    ensures
        r.0.global.assets@.len() == 0,
        r.0.global.categories@.len() == 0,
        r.0.global.fields@.len() == 0,
        indexes(r.0.global.index, r.0.global.categories@, r.0.global.assets@),
        r.0.global.settings.asset_columns@ == settings.asset_columns@,
        r.0.global.categories_selection is None,
        !r.0.global.asset_edit_mode,
        r.0.page == HamPage::Assets,
        r.1@.len() == 3,
        loads_assets_of(r.1@[0], settings.asset_columns@),
        r.1@[1] is LoadCategories,
        r.1@[2] is LoadFields,
{
    let assets: Vec<Asset> = Vec::new();
    let categories: Vec<Category> = Vec::new();
    let index = reindex(&categories, &assets);
    let mut actions: Vec<Action> = Vec::new();
    actions.push(load_assets(&settings.asset_columns));
    actions.push(Action::LoadCategories);
    actions.push(Action::LoadFields);
    let app = HamApp {
        global: GlobalState {
            assets,
            categories,
            fields: Vec::new(),
            index,
            settings,
            categories_selection: None,
            asset_edit_mode: false,
        },
        page: HamPage::Assets,
    };
    (app, actions)
}

/// The position of the first asset with id `id` among `assets` from `i` on.
pub open spec fn asset_index(assets: Seq<Asset>, id: AssetId, i: int) -> Option<int>
    decreases assets.len() - i,
{
    if i < 0 || i >= assets.len() {
        None
    } else if assets[i].id == id {
        Some(i)
    } else {
        asset_index(assets, id, i + 1)
    }
}

/// A position found by `asset_index` holds an asset of that id.
proof fn lemma_asset_index(assets: Seq<Asset>, id: AssetId, i: int)
    ensures
        asset_index(assets, id, i) matches Some(j) ==> i <= j < assets.len() && assets[j].id == id,
    decreases assets.len() - i,
{
    if 0 <= i < assets.len() && assets[i].id != id {
        lemma_asset_index(assets, id, i + 1);
    }
}

/// `assets` with the first asset of id `id`, if any, replaced by `a`.
pub open spec fn replaced_asset(assets: Seq<Asset>, id: AssetId, a: Asset) -> Seq<Asset> {
    match asset_index(assets, id, 0) {
        Some(k) => assets.update(k, a),
        None => assets,
    }
}

/// The categories of `cs` other than `id`, in order.
pub open spec fn kept_categories(cs: Seq<Category>, id: CategoryId) -> Seq<Category>
    decreases cs.len(),
{
    if cs.len() == 0 {
        Seq::empty()
    } else {
        (if cs[0].id != id {
            seq![cs[0]]
        } else {
            Seq::empty()
        }) + kept_categories(cs.drop_first(), id)
    }
}

/// The columns of `cols` other than `c`, in order.
pub open spec fn without_column(cols: Seq<AssetColumn>, c: AssetColumn) -> Seq<AssetColumn>
    decreases cols.len(),
{
    if cols.len() == 0 {
        Seq::empty()
    } else {
        let before = without_column(cols.drop_last(), c);
        if cols.last() != c {
            before.push(cols.last())
        } else {
            before
        }
    }
}

/// The columns after showing (`checked`) or hiding field `f`, before
/// sorting: a shown field is added unless there; a hidden one removed.
pub open spec fn toggled_columns(cols: Seq<AssetColumn>, f: FieldId, checked: bool) -> Seq<AssetColumn> {
    if checked {
        if cols.contains(AssetColumn::Field(f)) {
            cols
        } else {
            cols.push(AssetColumn::Field(f))
        }
    } else {
        without_column(cols, AssetColumn::Field(f))
    }
}

/// Whether the editor's lists are unchanged.
pub open spec fn same_lists(o: GlobalState, n: GlobalState) -> bool {
    n.assets@ == o.assets@ && n.categories@ == o.categories@ && n.fields@ == o.fields@
}

/// Whether the editor's index, settings and selection are unchanged.
pub open spec fn same_view_state(o: GlobalState, n: GlobalState) -> bool {
    &&& n.index.counts() == o.index.counts()
    &&& n.settings.asset_columns@ == o.settings.asset_columns@
    &&& n.categories_selection == o.categories_selection
}

/// Whether `n` is `o` with the asset list `assets`, the category list
/// `categories` and the field list `fields`, the index counted anew, and
/// the settings and the selection kept.
pub open spec fn relisted(o: GlobalState, n: GlobalState, assets: Seq<Asset>, categories: Seq<Category>, fields: Seq<Field>) -> bool {
    &&& n.assets@ == assets
    &&& n.categories@ == categories
    &&& n.fields@ == fields
    &&& indexes(n.index, categories, assets)
    &&& n.settings.asset_columns@ == o.settings.asset_columns@
    &&& n.categories_selection == o.categories_selection
}

/// How the editor `o` becomes `n` on message `m`, sending `a`: loaded
/// lists replace the old ones, a created asset or category is added, an
/// updated asset replaces the first of its id, a deleted category leaves
/// the list, each of these counting the index anew; a created or updated
/// asset ends the editing, and a created asset is shown when the page was
/// the new-asset page; changing the page edits exactly on the new-asset
/// page; showing or hiding a field's column sorts the columns and loads the
/// assets again; the other requests go to the server unchanged.
pub open spec fn transition(o: HamApp, n: HamApp, m: Message, a: Action) -> bool {
    let og = o.global;
    let ng = n.global;
    match m {
        Message::AssetsLoaded(v) => relisted(og, ng, v@, og.categories@, og.fields@) && ng.asset_edit_mode
            == og.asset_edit_mode && n.page == o.page && a is Nothing,
        Message::AssetCreated(x) => relisted(og, ng, og.assets@.push(x), og.categories@, og.fields@)
            && !ng.asset_edit_mode && n.page == (if o.page == HamPage::EditAsset(None) {
            HamPage::EditAsset(Some(x.id))
        } else {
            o.page
        }) && a is Nothing,
        Message::AssetUpdated(id, x) => relisted(og, ng, replaced_asset(og.assets@, id, x), og.categories@, og.fields@)
            && !ng.asset_edit_mode && n.page == o.page && a is Nothing,
        Message::CategoriesLoaded(v) => relisted(og, ng, og.assets@, v@, og.fields@) && ng.asset_edit_mode
            == og.asset_edit_mode && n.page == o.page && a is Nothing,
        Message::CategoryCreated(c) => relisted(og, ng, og.assets@, og.categories@.push(c), og.fields@)
            && ng.asset_edit_mode == og.asset_edit_mode && n.page == o.page && a is Nothing,
        Message::CategoryDeleted(id) => relisted(og, ng, og.assets@, kept_categories(og.categories@, id), og.fields@)
            && ng.asset_edit_mode == og.asset_edit_mode && n.page == o.page && a is Nothing,
        Message::FieldsLoaded(v) => relisted(og, ng, og.assets@, og.categories@, v@) && ng.asset_edit_mode
            == og.asset_edit_mode && n.page == o.page && a is Nothing,
        Message::ChangePage(p) => same_lists(og, ng) && same_view_state(og, ng) && n.page == p && ng.asset_edit_mode
            == (p == HamPage::EditAsset(None)) && a is Nothing,
        Message::ToggleFetchAssetField(f, checked) => {
            let cols = ng.settings.asset_columns@;
            &&& same_lists(og, ng)
            &&& ng.index.counts() == og.index.counts()
            &&& ng.categories_selection == og.categories_selection
            &&& ng.asset_edit_mode == og.asset_edit_mode
            &&& n.page == o.page
            &&& columns_sorted(cols)
            &&& cols.to_multiset() == toggled_columns(og.settings.asset_columns@, f, checked).to_multiset()
            &&& loads_assets_of(a, cols)
        },
        Message::SetAssetEditMode(b) => same_lists(og, ng) && same_view_state(og, ng) && ng.asset_edit_mode == b
            && n.page == o.page && a is Nothing,
        Message::CreateAsset(p) => same_lists(og, ng) && same_view_state(og, ng) && ng.asset_edit_mode
            == og.asset_edit_mode && n.page == o.page && a == Action::CreateAsset(p),
        Message::UpdateAsset(id, p) => same_lists(og, ng) && same_view_state(og, ng) && ng.asset_edit_mode
            == og.asset_edit_mode && n.page == o.page && a == Action::UpdateAsset(id, p),
        Message::SelectCategory(id) => same_lists(og, ng) && ng.index.counts() == og.index.counts()
            && ng.settings.asset_columns@ == og.settings.asset_columns@ && ng.categories_selection == Some(id)
            && ng.asset_edit_mode == og.asset_edit_mode && n.page == o.page && a is Nothing,
        Message::CreateCategory(p) => same_lists(og, ng) && same_view_state(og, ng) && ng.asset_edit_mode
            == og.asset_edit_mode && n.page == o.page && a == Action::CreateCategory(p),
        Message::DeleteCategory(id) => same_lists(og, ng) && same_view_state(og, ng) && ng.asset_edit_mode
            == og.asset_edit_mode && n.page == o.page && a == Action::DeleteCategory(id),
    }
}

/// `cs` without the categories of id `id`.
fn remove_category(cs: &mut Vec<Category>, id: CategoryId)
    ensures
        final(cs)@ == kept_categories(old(cs)@, id),
{
    let mut rest: Vec<Category> = Vec::new();
    core::mem::swap(cs, &mut rest);
    let ghost all = rest@;
    proof {
        assert(cs@ + kept_categories(rest@, id) =~= kept_categories(all, id));
    }
    while rest.len() > 0
        invariant
            cs@ + kept_categories(rest@, id) == kept_categories(all, id),
        decreases rest.len(),
    {
        let ghost before = rest@;
        let c = rest.remove(0);
        proof {
            assert(rest@ == before.drop_first());
        }
        let ghost cs_before = cs@;
        if c.id != id {
            cs.push(c);
        }
        proof {
            assert(cs@ + kept_categories(rest@, id) =~= cs_before + kept_categories(before, id));
        }
    }
    assert(kept_categories(rest@, id) =~= Seq::<Category>::empty());
    assert(cs@ =~= cs@ + kept_categories(rest@, id));
}

/// `cols` with field `f` shown (`checked`) or hidden (see
/// `toggled_columns`).
fn toggle_column(cols: &Vec<AssetColumn>, f: FieldId, checked: bool) -> (out: Vec<AssetColumn>)
    ensures
        out@ == toggled_columns(cols@, f, checked),
{
    let c = AssetColumn::Field(f);
    if checked {
        let mut i: usize = 0;
        while i < cols.len()
            invariant
                checked,
                c == AssetColumn::Field(f),
                i <= cols@.len(),
                forall|k: int| 0 <= k < i ==> cols@[k] != c,
            decreases cols.len() - i,
        {
            if cols[i] == c {
                assert(cols@[i as int] == c);
                assert(cols@.contains(c));
                return copy_columns(cols);
            }
            i = i + 1;
        }
        let mut out = copy_columns(cols);
        out.push(c);
        out
    } else {
        let mut out: Vec<AssetColumn> = Vec::new();
        let mut i: usize = 0;
        while i < cols.len()
            invariant
                i <= cols@.len(),
                out@ == without_column(cols@.take(i as int), c),
            decreases cols.len() - i,
        {
            assert(cols@.take(i + 1).drop_last() == cols@.take(i as int));
            if cols[i] != c {
                out.push(cols[i]);
            }
            i = i + 1;
        }
        assert(cols@.take(cols@.len() as int) == cols@);
        out
    }
}

/// A copy of the columns.
fn copy_columns(cols: &Vec<AssetColumn>) -> (out: Vec<AssetColumn>)
    ensures
        out@ == cols@,
{
    let mut out: Vec<AssetColumn> = Vec::new();
    let mut i: usize = 0;
    while i < cols.len()
        invariant
            i <= cols@.len(),
            out@ == cols@.take(i as int),
        decreases cols.len() - i,
    {
        out.push(cols[i]);
        i = i + 1;
    }
    assert(cols@.take(cols@.len() as int) == cols@);
    out
}

impl HamApp {
    /// Handles a message (see `transition`); the request to send comes back.
    pub fn update(&mut self, message: Message) -> (a: Action)
        ensures
            transition(*old(self), *final(self), message, a),
    {
        match message {
            Message::AssetsLoaded(v) => {
                self.global.assets = v;
                self.global.index = reindex(&self.global.categories, &self.global.assets);
                Action::Nothing
            },
            Message::AssetCreated(x) => {
                if self.page == HamPage::EditAsset(None) {
                    self.page = HamPage::EditAsset(Some(x.id));
                }
                self.global.asset_edit_mode = false;
                self.global.assets.push(x);
                self.global.index = reindex(&self.global.categories, &self.global.assets);
                Action::Nothing
            },
            Message::AssetUpdated(id, x) => {
                let mut i: usize = 0;
                let mut found: Option<usize> = None;
                while i < self.global.assets.len() && found.is_none()
                    invariant
                        i <= self.global.assets@.len(),
                        self.global.assets@ == old(self).global.assets@,
                        found is None ==> asset_index(self.global.assets@, id, 0) == asset_index(
                            self.global.assets@,
                            id,
                            i as int,
                        ),
                        found matches Some(k) ==> asset_index(self.global.assets@, id, 0) == Some(k as int) && k
                            < self.global.assets@.len(),
                    decreases self.global.assets.len() - i + if found is None { 1int } else { 0int },
                {
                    if self.global.assets[i].id == id {
                        found = Some(i);
                    } else {
                        i = i + 1;
                    }
                }
                match found {
                    Some(k) => {
                        self.global.assets.set(k, x);
                    },
                    None => {},
                }
                self.global.asset_edit_mode = false;
                self.global.index = reindex(&self.global.categories, &self.global.assets);
                Action::Nothing
            },
            Message::CategoriesLoaded(v) => {
                self.global.categories = v;
                self.global.index = reindex(&self.global.categories, &self.global.assets);
                Action::Nothing
            },
            Message::CategoryCreated(c) => {
                self.global.categories.push(c);
                self.global.index = reindex(&self.global.categories, &self.global.assets);
                Action::Nothing
            },
            Message::CategoryDeleted(id) => {
                remove_category(&mut self.global.categories, id);
                self.global.index = reindex(&self.global.categories, &self.global.assets);
                Action::Nothing
            },
            Message::FieldsLoaded(v) => {
                self.global.fields = v;
                self.global.index = reindex(&self.global.categories, &self.global.assets);
                Action::Nothing
            },
            Message::ChangePage(p) => {
                self.page = p;
                self.global.asset_edit_mode = p == HamPage::EditAsset(None);
                Action::Nothing
            },
            Message::ToggleFetchAssetField(f, checked) => {
                let toggled = toggle_column(&self.global.settings.asset_columns, f, checked);
                self.global.settings.asset_columns = sort_columns(&toggled);
                load_assets(&self.global.settings.asset_columns)
            },
            Message::SetAssetEditMode(b) => {
                self.global.asset_edit_mode = b;
                Action::Nothing
            },
            Message::CreateAsset(p) => Action::CreateAsset(p),
            Message::UpdateAsset(id, p) => Action::UpdateAsset(id, p),
            Message::SelectCategory(id) => {
                self.global.categories_selection = Some(id);
                Action::Nothing
            },
            Message::CreateCategory(p) => Action::CreateCategory(p),
            Message::DeleteCategory(id) => Action::DeleteCategory(id),
        }
    }
}


/// Whatever message the editor handles, its index keeps counting the assets
/// of each category when it did before.
pub proof fn lemma_update_keeps_index(o: HamApp, n: HamApp, m: Message, a: Action)
    requires
        indexes(o.global.index, o.global.categories@, o.global.assets@),
        transition(o, n, m, a),
    ensures
        indexes(n.global.index, n.global.categories@, n.global.assets@),
{
}

} // verus!
