//! The local asset database of the HAM desktop editor: typed ids, records
//! kept in insertion order and found by key, and the settings that shape
//! asset tags.
use vstd::prelude::*;
use vstd::laws_eq::obeys_concrete_eq;
use crate::text::{i64_text, int_text, padded_int_text, zero_padded};

verus! {

/// A record that is found by a key of its own.
pub trait MapType {
    type Key: Copy + Eq + core::hash::Hash;

    /// The record's key.
    spec fn key_of(&self) -> Self::Key;

    /// The record's key.
    fn key(&self) -> (k: Self::Key)
        ensures
            k == self.key_of(),
    ;
}

/// The index of the first record of `items` whose key is `key`, if any.
pub open spec fn key_position<T: MapType>(items: Seq<T>, key: T::Key, from: int) -> Option<int>
    decreases items.len() - from,
{
    if from < 0 || from >= items.len() {
        None
    } else if items[from].key_of() == key {
        Some(from)
    } else {
        key_position(items, key, from + 1)
    }
}

/// Where a found record lies, and that no earlier record has its key.
pub proof fn lemma_key_position<T: MapType>(items: Seq<T>, key: T::Key, from: int)
    requires
        0 <= from,
    ensures
        key_position(items, key, from) matches Some(i) ==> from <= i < items.len() && items[i].key_of() == key
            && forall|j: int| from <= j < i ==> (#[trigger] items[j]).key_of() != key,
        key_position(items, key, from) is None ==> forall|j: int|
            from <= j < items.len() ==> (#[trigger] items[j]).key_of() != key,
    decreases items.len() - from,
{
    if from < items.len() {
        lemma_key_position(items, key, from + 1);
    }
}

/// What a search from `from` finds once `item` is added after `items`: what
/// it found before, else `item` where it has the key.
pub open spec fn key_position_after_push<T: MapType>(items: Seq<T>, item: T, key: T::Key, from: int) -> Option<int> {
    match key_position(items, key, from) {
        Some(i) => Some(i),
        None => if item.key_of() == key {
            Some(items.len() as int)
        } else {
            None
        },
    }
}

proof fn lemma_key_position_push_from<T: MapType>(items: Seq<T>, item: T, key: T::Key, from: int)
    requires
        0 <= from <= items.len(),
    ensures
        key_position(items.push(item), key, from) == key_position_after_push(items, item, key, from),
    decreases items.len() - from,
{
    if from < items.len() {
        assert(items.push(item)[from] == items[from]);
        lemma_key_position_push_from(items, item, key, from + 1);
    } else {
        let pushed = items.push(item);
        assert(pushed[from] == item);
        assert(key_position(pushed, key, from + 1) is None);
        assert(key_position(items, key, from) is None);
    }
}

/// Adding a record never changes what an existing key finds, and a record
/// whose key no record had yet is then the one its key finds: after
/// `push(item)`, `get(key)` finds what it found before, else `item` where
/// `item` has the key, else nothing. Every other key finds what it found
/// before.
pub proof fn lemma_get_after_push<T: MapType>(items: Seq<T>, item: T, key: T::Key)
    ensures
        key_position(items.push(item), key, 0) == key_position_after_push(items, item, key, 0),
        key_position(items, item.key_of(), 0) is None ==> key_position(items.push(item), item.key_of(), 0) == Some(
            items.len() as int,
        ),
        key != item.key_of() ==> key_position(items.push(item), key, 0) == key_position(items, key, 0),
{
    lemma_key_position_push_from(items, item, key, 0);
    lemma_key_position_push_from(items, item, item.key_of(), 0);
}

/// Records kept in the order they were added, found by key.
#[derive(Debug, Clone)]
pub struct RecordMap<T: MapType> {
    inner: Vec<T>,
}

impl<T: MapType> View for RecordMap<T> {
    type V = Seq<T>;

    closed spec fn view(&self) -> Seq<T> {
        self.inner@
    }
}

impl<T: MapType> Default for RecordMap<T> {
    fn default() -> (m: RecordMap<T>)
        ensures
            m@ == Seq::<T>::empty(),
    {
        RecordMap { inner: Vec::new() }
    }
}

impl<T: MapType> RecordMap<T> {
    /// Adds `item` after the others.
    pub fn push(&mut self, item: T)
        ensures
            final(self)@ == old(self)@.push(item),
    {
        self.inner.push(item);
    }

    /// The index of the first record with key `key`, if any.
    fn position(&self, key: T::Key) -> (r: Option<usize>)
        requires
            obeys_concrete_eq::<T::Key>(),
        ensures
            match r {
                Some(i) => key_position(self@, key, 0) == Some(i as int) && i < self@.len(),
                None => key_position(self@, key, 0) is None,
            },
    {
        let mut i: usize = 0;
        while i < self.inner.len()
            invariant
                i <= self.inner@.len(),
                obeys_concrete_eq::<T::Key>(),
                key_position(self@, key, 0) == key_position(self@, key, i as int),
            decreases self.inner.len() - i,
        {
            proof {
                reveal(obeys_concrete_eq);
            }
            let k = self.inner[i].key();
            if k == key {
                return Some(i);
            }
            i = i + 1;
        }
        None
    }

    /// The first record with key `key`, if any.
    pub fn get(&self, key: T::Key) -> (r: Option<&T>)
        requires
            obeys_concrete_eq::<T::Key>(),
        ensures
            match key_position(self@, key, 0) {
                Some(i) => r == Some(&self@[i]),
                None => r is None,
            },
    {
        match self.position(key) {
            Some(i) => Some(&self.inner[i]),
            None => None,
        }
    }

    /// The first record with key `key`, if any, to change in place.
    pub fn get_mut(&mut self, key: T::Key) -> (r: Option<&mut T>)
        requires
            obeys_concrete_eq::<T::Key>(),
        ensures
            match key_position(old(self)@, key, 0) {
                Some(i) => match r {
                    Some(x) => *x == old(self)@[i] && final(self)@ == old(self)@.update(i, *final(x)),
                    None => false,
                },
                None => r is None && final(self)@ == old(self)@,
            },
    {
        match self.position(key) {
            Some(i) => Some(&mut self.inner[i]),
            None => None,
        }
    }

    /// All records, in the order they were added, to change in place.
    pub fn values_mut(&mut self) -> (r: &mut [T])
        ensures
            r@ == old(self)@,
            final(r)@ == final(self)@,
    {
        self.inner.as_mut_slice()
    }

    /// The record at `idx`, in the order records were added.
    pub fn get_index(&self, idx: usize) -> (r: Option<&T>)
        ensures
            if idx < self@.len() {
                r == Some(&self@[idx as int])
            } else {
                r is None
            },
    {
        if idx < self.inner.len() {
            Some(&self.inner[idx])
        } else {
            None
        }
    }

    /// All records, in the order they were added.
    pub fn values(&self) -> (r: &[T])
        ensures
            r@ == self@,
    {
        self.inner.as_slice()
    }

    /// The number of records.
    pub fn len(&self) -> (n: usize)
        ensures
            n == self@.len(),
    {
        self.inner.len()
    }

    /// Removes and returns the first record with key `id`, if any.
    pub fn remove(&mut self, id: T::Key) -> (r: Option<T>)
        requires
            obeys_concrete_eq::<T::Key>(),
        ensures
            match key_position(old(self)@, id, 0) {
                Some(i) => r == Some(old(self)@[i]) && final(self)@ == old(self)@.remove(i),
                None => r is None && final(self)@ == old(self)@,
            },
    {
        match self.position(id) {
            Some(i) => Some(self.inner.remove(i)),
            None => None,
        }
    }
}

} // verus!

verus! {

/// The id of an asset.
#[derive(Debug, Clone, Copy, PartialEq, Eq, Hash, Structural)]
pub struct AssetId(pub i64);

/// The id of a category.
#[derive(Debug, Clone, Copy, PartialEq, Eq, Hash, Structural)]
pub struct CategoryId(pub i64);

/// The id of a field.
#[derive(Debug, Clone, Copy, PartialEq, Eq, Hash, Structural)]
pub struct FieldId(pub i64);

/// How precisely a date-time field is kept.
#[derive(Debug, Clone, Copy, PartialEq, Eq, Structural)]
pub enum DateTimePrecision {
    Year,
    Month,
    Day,
    Hour,
    Minute,
    Second,
}

/// The kind of value a field holds.
#[derive(Debug, Clone, Copy, PartialEq, Eq, Structural)]
pub enum FieldType {
    String,
    Int,
    Float,
    Money,
    Boolean,
    DateTime(DateTimePrecision),
}

/// A field value: text, an integer, a binary64 float by its bit pattern, an
/// amount of money in a currency, a boolean, or a moment (seconds since the
/// Unix epoch) with its precision.
#[derive(Debug, Clone)]
pub enum FieldValue {
    String(String),
    Int(i64),
    Float(u64),
    Money { amount: String, currency: String },
    Boolean(bool),
    DateTime { timestamp: i64, precision: DateTimePrecision },
}

impl FieldValue {
    /// The kind of the value.
    pub fn field_type(&self) -> (t: FieldType)
        ensures
            t == (match *self {
                FieldValue::String(_) => FieldType::String,
                FieldValue::Int(_) => FieldType::Int,
                FieldValue::Float(_) => FieldType::Float,
                FieldValue::Money { .. } => FieldType::Money,
                FieldValue::Boolean(_) => FieldType::Boolean,
                FieldValue::DateTime { precision, .. } => FieldType::DateTime(precision),
            }),
    {
        match self {
            FieldValue::String(_) => FieldType::String,
            FieldValue::Int(_) => FieldType::Int,
            FieldValue::Float(_) => FieldType::Float,
            FieldValue::Money { .. } => FieldType::Money,
            FieldValue::Boolean(_) => FieldType::Boolean,
            FieldValue::DateTime { precision, .. } => FieldType::DateTime(*precision),
        }
    }
}

/// The value an asset holds for a field.
#[derive(Debug, Clone)]
pub struct AssetField {
    pub field_id: FieldId,
    pub value: FieldValue,
}

/// An asset of the local database.
#[derive(Debug, Clone)]
pub struct Asset {
    pub id: AssetId,
    pub category_id: CategoryId,
    pub display_name: String,
    pub fields: Vec<AssetField>,
}

/// A category of the local database.
#[derive(Debug, Clone)]
pub struct Category {
    pub id: CategoryId,
    pub display_name: String,
    pub parent_id: Option<CategoryId>,
}

/// A field definition of the local database.
#[derive(Debug, Clone)]
pub struct Field {
    pub id: FieldId,
    pub display_name: String,
    pub field_type: FieldType,
}

impl MapType for Asset {
    type Key = AssetId;

    open spec fn key_of(&self) -> AssetId {
        self.id
    }

    fn key(&self) -> (k: AssetId) {
        self.id
    }
}

impl MapType for Category {
    type Key = CategoryId;

    open spec fn key_of(&self) -> CategoryId {
        self.id
    }

    fn key(&self) -> (k: CategoryId) {
        self.id
    }
}

impl MapType for Field {
    type Key = FieldId;

    open spec fn key_of(&self) -> FieldId {
        self.id
    }

    fn key(&self) -> (k: FieldId) {
        self.id
    }
}

/// How asset tags are written: a prefix, then the id zero-padded to a width.
#[derive(Debug, Clone)]
pub struct Settings {
    pub tag_prefix: String,
    pub tag_digits: usize,
}

impl Default for Settings {
    fn default() -> (s: Settings)
        ensures
            s.tag_prefix@ == "A"@,
            s.tag_digits == 4,
    {
        Settings { tag_prefix: String::from_str("A"), tag_digits: 4 }
    }
}

/// The largest of `ids`, or 0 when there are none.
pub open spec fn max_or_zero(ids: Seq<i64>) -> int
    decreases ids.len(),
{
    if ids.len() == 0 {
        0
    } else if ids.len() == 1 {
        ids[0] as int
    } else {
        let rest = max_or_zero(ids.drop_last());
        if ids.last() > rest {
            ids.last() as int
        } else {
            rest
        }
    }
}

/// The largest of `ids` is one of them and no smaller than any of them.
pub proof fn lemma_max_or_zero(ids: Seq<i64>)
    requires
        ids.len() > 0,
    ensures
        exists|i: int| 0 <= i < ids.len() && ids[i] == max_or_zero(ids),
        forall|i: int| 0 <= i < ids.len() ==> ids[i] <= max_or_zero(ids),
    decreases ids.len(),
{
    if ids.len() > 1 {
        lemma_max_or_zero(ids.drop_last());
        let rest = ids.drop_last();
        if ids.last() > max_or_zero(rest) {
            assert(ids[ids.len() - 1] == max_or_zero(ids));
        } else {
            let w = choose|i: int| 0 <= i < rest.len() && rest[i] == max_or_zero(rest);
            assert(ids[w] == max_or_zero(ids));
        }
        assert forall|i: int| 0 <= i < ids.len() implies ids[i] <= max_or_zero(ids) by {
            if i < ids.len() - 1 {
                assert(ids[i] == rest[i]);
            }
        }
    } else {
        assert(ids[0] == max_or_zero(ids));
    }
}

/// The largest of `ids` (0 when empty), computed.
fn max_id(ids: &Vec<i64>) -> (m: i64)
    ensures
        m == max_or_zero(ids@),
{
    let mut m: i64 = 0;
    let mut i: usize = 0;
    while i < ids.len()
        invariant
            i <= ids@.len(),
            m == max_or_zero(ids@.take(i as int)),
        decreases ids.len() - i,
    {
        assert(ids@.take(i + 1).drop_last() == ids@.take(i as int));
        if i == 0 || ids[i] > m {
            m = ids[i];
        }
        i = i + 1;
    }
    assert(ids@.take(ids@.len() as int) == ids@);
    m
}

/// The asset ids of `assets`.
pub open spec fn asset_ids(assets: Seq<Asset>) -> Seq<i64> {
    assets.map_values(|a: Asset| a.id.0)
}

/// The category ids of `categories`.
pub open spec fn category_ids(categories: Seq<Category>) -> Seq<i64> {
    categories.map_values(|c: Category| c.id.0)
}

/// The field ids of `fields`.
pub open spec fn field_ids(fields: Seq<Field>) -> Seq<i64> {
    fields.map_values(|f: Field| f.id.0)
}

/// The editor's whole database.
#[derive(Debug, Clone)]
pub struct AssetDb {
    pub assets: Vec<Asset>,
    pub categories: Vec<Category>,
    pub fields: Vec<Field>,
    pub settings: Settings,
}

/// The tag of asset `id` under `settings`.
pub open spec fn asset_tag_text(settings: Settings, id: AssetId) -> Seq<char> {
    settings.tag_prefix@ + padded_int_text(id.0 as int, settings.tag_digits as int)
}

impl AssetDb {
    /// The tag of asset `asset_id`: the prefix, then the id zero-padded to the
    /// configured number of digits.
    pub fn format_asset_tag(&self, asset_id: AssetId) -> (s: String)
        ensures
            s@ == asset_tag_text(self.settings, asset_id),
    {
        let mut s = self.settings.tag_prefix.clone();
        let number = zero_padded(asset_id.0, self.settings.tag_digits);
        s.append(number.as_str());
        s
    }

    /// The first asset with id `id`, to change in place.
    pub fn asset_mut(&mut self, id: AssetId) -> (r: Option<&mut Asset>)
        ensures
            match key_position(old(self).assets@, id, 0) {
                Some(i) => match r {
                    Some(a) => *a == old(self).assets@[i] && final(self).assets@ == old(self).assets@.update(
                        i,
                        *final(a),
                    ) && final(self).categories == old(self).categories && final(self).fields == old(
                        self,
                    ).fields && final(self).settings == old(self).settings,
                    None => false,
                },
                None => r is None && *final(self) == *old(self),
            },
    {
        let mut i: usize = 0;
        while i < self.assets.len()
            invariant
                i <= self.assets@.len(),
                *self == *old(self),
                key_position(self.assets@, id, 0) == key_position(self.assets@, id, i as int),
            decreases self.assets.len() - i,
        {
            if self.assets[i].id == id {
                proof {
                    lemma_key_position(self.assets@, id, i as int);
                }
                return Some(&mut self.assets[i]);
            }
            i = i + 1;
        }
        None
    }

    /// The first category with id `category_id`, if any.
    pub fn category(&self, category_id: CategoryId) -> (r: Option<&Category>)
        ensures
            match key_position(self.categories@, category_id, 0) {
                Some(i) => r == Some(&self.categories@[i]),
                None => r is None,
            },
    {
        let mut i: usize = 0;
        while i < self.categories.len()
            invariant
                i <= self.categories@.len(),
                key_position(self.categories@, category_id, 0) == key_position(
                    self.categories@,
                    category_id,
                    i as int,
                ),
            decreases self.categories.len() - i,
        {
            if self.categories[i].id == category_id {
                proof {
                    lemma_key_position(self.categories@, category_id, i as int);
                }
                return Some(&self.categories[i]);
            }
            i = i + 1;
        }
        None
    }

    /// One more than the largest asset id (1 when there are none).
    pub fn next_asset_id(&self) -> (id: AssetId)
        requires
            max_or_zero(asset_ids(self.assets@)) < i64::MAX,
        ensures
            id.0 == max_or_zero(asset_ids(self.assets@)) + 1,
    {
        let mut ids: Vec<i64> = Vec::new();
        let mut i: usize = 0;
        while i < self.assets.len()
            invariant
                i <= self.assets@.len(),
                ids@ == asset_ids(self.assets@).take(i as int),
            decreases self.assets.len() - i,
        {
            ids.push(self.assets[i].id.0);
            i = i + 1;
            assert(ids@ == asset_ids(self.assets@).take(i as int));
        }
        assert(asset_ids(self.assets@).take(i as int) == asset_ids(self.assets@));
        AssetId(max_id(&ids) + 1)
    }

    /// One more than the largest category id (1 when there are none).
    pub fn next_category_id(&self) -> (id: CategoryId)
        requires
            max_or_zero(category_ids(self.categories@)) < i64::MAX,
        ensures
            id.0 == max_or_zero(category_ids(self.categories@)) + 1,
    {
        let mut ids: Vec<i64> = Vec::new();
        let mut i: usize = 0;
        while i < self.categories.len()
            invariant
                i <= self.categories@.len(),
                ids@ == category_ids(self.categories@).take(i as int),
            decreases self.categories.len() - i,
        {
            ids.push(self.categories[i].id.0);
            i = i + 1;
            assert(ids@ == category_ids(self.categories@).take(i as int));
        }
        assert(category_ids(self.categories@).take(i as int) == category_ids(self.categories@));
        CategoryId(max_id(&ids) + 1)
    }

    /// One more than the largest field id (1 when there are none).
    pub fn next_field_id(&self) -> (id: FieldId)
        requires
            max_or_zero(field_ids(self.fields@)) < i64::MAX,
        ensures
            id.0 == max_or_zero(field_ids(self.fields@)) + 1,
    {
        let mut ids: Vec<i64> = Vec::new();
        let mut i: usize = 0;
        while i < self.fields.len()
            invariant
                i <= self.fields@.len(),
                ids@ == field_ids(self.fields@).take(i as int),
            decreases self.fields.len() - i,
        {
            ids.push(self.fields[i].id.0);
            i = i + 1;
            assert(ids@ == field_ids(self.fields@).take(i as int));
        }
        assert(field_ids(self.fields@).take(i as int) == field_ids(self.fields@));
        FieldId(max_id(&ids) + 1)
    }

    /// Adds a new asset in category 1, named after its id, and returns its id.
    pub fn create_asset(&mut self) -> (id: AssetId)
        requires
            max_or_zero(asset_ids(old(self).assets@)) < i64::MAX,
        ensures
            id.0 == max_or_zero(asset_ids(old(self).assets@)) + 1,
            final(self).assets@.len() == old(self).assets@.len() + 1,
            final(self).assets@.drop_last() == old(self).assets@,
            final(self).assets@.last().id == id,
            final(self).assets@.last().category_id == CategoryId(1),
            final(self).assets@.last().display_name@ == "New Asset "@ + int_text(id.0 as int),
            final(self).assets@.last().fields@.len() == 0,
            final(self).categories == old(self).categories,
            final(self).fields == old(self).fields,
            final(self).settings == old(self).settings,
    {
        let id = self.next_asset_id();
        let mut name = String::from_str("New Asset ");
        let digits = i64_text(id.0);
        name.append(digits.as_str());
        self.assets.push(Asset { id, category_id: CategoryId(1), display_name: name, fields: Vec::new() });
        id
    }
}

/// After a new asset is created, no two assets created this way share an id:
/// the new id is larger than every id already there.
pub proof fn lemma_next_asset_id_is_fresh(db: AssetDb)
    requires
        max_or_zero(asset_ids(db.assets@)) < i64::MAX,
    ensures
        forall|i: int|
            0 <= i < db.assets@.len() ==> (#[trigger] db.assets@[i]).id.0 < max_or_zero(asset_ids(db.assets@)) + 1,
{
    if db.assets@.len() > 0 {
        lemma_max_or_zero(asset_ids(db.assets@));
        assert forall|i: int| 0 <= i < db.assets@.len() implies (#[trigger] db.assets@[i]).id.0 < max_or_zero(
            asset_ids(db.assets@),
        ) + 1 by {
            assert(asset_ids(db.assets@)[i] == db.assets@[i].id.0);
        }
    }
}

} // verus!

verus! {

/// A column of the asset table.
#[derive(Debug, Clone, Copy, PartialEq, Eq, Hash, Structural)]
pub enum AssetColumn {
    Tag,
    Category,
    DisplayName,
    Field(FieldId),
}

/// The heading of column `c` given the fields `fields` of the database.
pub open spec fn column_header(c: AssetColumn, fields: Seq<Field>) -> Seq<char> {
    match c {
        AssetColumn::Tag => "Tag"@,
        AssetColumn::Category => "Category"@,
        AssetColumn::DisplayName => "Display Name"@,
        AssetColumn::Field(id) => match key_position(fields, id, 0) {
            Some(i) => fields[i].display_name@,
            None => "Unknown Field (FieldId("@ + int_text(id.0 as int) + "))"@,
        },
    }
}

impl AssetColumn {
    /// The columns every table starts with.
    pub fn base() -> (v: Vec<AssetColumn>)
        ensures
            v@ == seq![AssetColumn::Tag, AssetColumn::Category, AssetColumn::DisplayName],
    {
        vec![AssetColumn::Tag, AssetColumn::Category, AssetColumn::DisplayName]
    }

    /// The column's heading: its name, or for a field column the field's
    /// display name.
    pub fn header(&self, db: &AssetDb) -> (s: String)
        ensures
            s@ == column_header(*self, db.fields@),
    {
        match self {
            AssetColumn::Tag => String::from_str("Tag"),
            AssetColumn::Category => String::from_str("Category"),
            AssetColumn::DisplayName => String::from_str("Display Name"),
            AssetColumn::Field(field_id) => {
                let mut i: usize = 0;
                while i < db.fields.len()
                    invariant
                        i <= db.fields@.len(),
                        *self == AssetColumn::Field(*field_id),
                        key_position(db.fields@, *field_id, 0) == key_position(db.fields@, *field_id, i as int),
                    decreases db.fields.len() - i,
                {
                    if db.fields[i].id == *field_id {
                        return db.fields[i].display_name.clone();
                    }
                    i = i + 1;
                }
                let mut s = String::from_str("Unknown Field (FieldId(");
                let digits = i64_text(field_id.0);
                s.append(digits.as_str());
                s.append("))");
                s
            },
        }
    }
}

} // verus!
