//! Types shared by the HAM editor and its server: typed ids, categories and
//! fields, request parameters, and lists of ids carried as comma-separated
//! text.
use vstd::prelude::*;
use core::marker::PhantomData;
use crate::text::{
    i64_text, int_text, is_digit, join_with, lemma_int_text_parses, lemma_split_join, parse_i64,
    parse_i64_spec, split_parts, chars_of, find_char, slice_chars, string_of, lemma_index_of_from_bounds,
    index_of_from, push_char,
};

verus! {

/// A value that can be written as text and read back from it.
pub trait CommaItem: Sized {
    /// How the value is written.
    spec fn item_text(&self) -> Seq<char>;

    /// The value `s` spells, if any.
    spec fn parse_item(s: Seq<char>) -> Option<Self>;

    /// How the value is written.
    fn to_text(&self) -> (s: String)
        ensures
            s@ == self.item_text(),
    ;

    /// The value `s` spells, if any.
    fn from_text(s: &str) -> (r: Option<Self>)
        ensures
            r == Self::parse_item(s@),
    ;
}

/// The id of an asset.
#[derive(Debug, Clone, Copy, PartialEq, Eq, Hash, Structural)]
pub struct AssetId(pub i64);

/// The id of a category.
#[derive(Debug, Clone, Copy, PartialEq, Eq, Hash, Structural)]
pub struct CategoryId(pub i64);

/// The id of a field.
#[derive(Debug, Clone, Copy, PartialEq, Eq, Hash, Structural)]
pub struct FieldId(pub i64);

/// The id of an enumeration.
#[derive(Debug, Clone, Copy, PartialEq, Eq, Hash, Structural)]
pub struct EnumId(pub i64);

/// The id of a value of an enumeration.
#[derive(Debug, Clone, Copy, PartialEq, Eq, Hash, Structural)]
pub struct EnumValueId(pub i64);

/// The id that `s` spells as a decimal `i64`, wrapped by `wrap`.
pub open spec fn parse_id<T>(s: Seq<char>, wrap: spec_fn(i64) -> T) -> Option<T> {
    match parse_i64_spec(s) {
        Some(v) => Some(wrap(v)),
        None => None,
    }
}

impl CommaItem for AssetId {
    open spec fn item_text(&self) -> Seq<char> {
        int_text(self.0 as int)
    }

    open spec fn parse_item(s: Seq<char>) -> Option<AssetId> {
        parse_id(s, |v: i64| AssetId(v))
    }

    fn to_text(&self) -> (s: String) {
        i64_text(self.0)
    }

    fn from_text(s: &str) -> (r: Option<AssetId>) {
        match parse_i64(s) {
            Some(v) => Some(AssetId(v)),
            None => None,
        }
    }
}

impl CommaItem for CategoryId {
    open spec fn item_text(&self) -> Seq<char> {
        int_text(self.0 as int)
    }

    open spec fn parse_item(s: Seq<char>) -> Option<CategoryId> {
        parse_id(s, |v: i64| CategoryId(v))
    }

    fn to_text(&self) -> (s: String) {
        i64_text(self.0)
    }

    fn from_text(s: &str) -> (r: Option<CategoryId>) {
        match parse_i64(s) {
            Some(v) => Some(CategoryId(v)),
            None => None,
        }
    }
}

impl CommaItem for FieldId {
    open spec fn item_text(&self) -> Seq<char> {
        int_text(self.0 as int)
    }

    open spec fn parse_item(s: Seq<char>) -> Option<FieldId> {
        parse_id(s, |v: i64| FieldId(v))
    }

    fn to_text(&self) -> (s: String) {
        i64_text(self.0)
    }

    fn from_text(s: &str) -> (r: Option<FieldId>) {
        match parse_i64(s) {
            Some(v) => Some(FieldId(v)),
            None => None,
        }
    }
}

impl CommaItem for EnumId {
    open spec fn item_text(&self) -> Seq<char> {
        int_text(self.0 as int)
    }

    open spec fn parse_item(s: Seq<char>) -> Option<EnumId> {
        parse_id(s, |v: i64| EnumId(v))
    }

    fn to_text(&self) -> (s: String) {
        i64_text(self.0)
    }

    fn from_text(s: &str) -> (r: Option<EnumId>) {
        match parse_i64(s) {
            Some(v) => Some(EnumId(v)),
            None => None,
        }
    }
}

impl CommaItem for EnumValueId {
    open spec fn item_text(&self) -> Seq<char> {
        int_text(self.0 as int)
    }

    open spec fn parse_item(s: Seq<char>) -> Option<EnumValueId> {
        parse_id(s, |v: i64| EnumValueId(v))
    }

    fn to_text(&self) -> (s: String) {
        i64_text(self.0)
    }

    fn from_text(s: &str) -> (r: Option<EnumValueId>) {
        match parse_i64(s) {
            Some(v) => Some(EnumValueId(v)),
            None => None,
        }
    }
}

/// The texts of `items`, in order.
pub open spec fn item_texts<T: CommaItem>(items: Seq<T>) -> Seq<Seq<char>> {
    items.map_values(|t: T| t.item_text())
}

/// The values that the texts `parts` spell, in order, skipping those that
/// spell none.
pub open spec fn parsed_items<T: CommaItem>(parts: Seq<Seq<char>>) -> Seq<T>
    decreases parts.len(),
{
    if parts.len() == 0 {
        seq![]
    } else {
        let rest = parsed_items::<T>(parts.drop_last());
        match T::parse_item(parts.last()) {
            Some(v) => rest.push(v),
            None => rest,
        }
    }
}

/// A list of values carried as their texts joined with commas.
#[derive(Debug, PartialEq, Eq, Hash)]
pub struct CommaSeparated<T> {
    str: String,
    _phantom: PhantomData<T>,
}

impl<T: CommaItem> CommaSeparated<T> {
    /// The comma-separated text.
    pub closed spec fn text(&self) -> Seq<char> {
        self.str@
    }

    /// The texts of `slice` joined with commas.
    pub fn from_slice(slice: &[T]) -> (c: CommaSeparated<T>)
        ensures
            c.text() == join_with(item_texts(slice@), ','),
    {
        let mut s = String::new();
        let mut i: usize = 0;
        while i < slice.len()
            invariant
                i <= slice@.len(),
                s@ == join_with(item_texts(slice@.take(i as int)), ','),
            decreases slice.len() - i,
        {
            let t = slice[i].to_text();
            proof {
                lemma_join_push(item_texts(slice@.take(i as int)), slice@[i as int].item_text(), ',');
                assert(item_texts(slice@.take(i + 1)) == item_texts(slice@.take(i as int)).push(
                    slice@[i as int].item_text(),
                ));
            }
            if i > 0 {
                push_char(&mut s, ',');
            }
            s.append(t.as_str());
            i = i + 1;
        }
        assert(slice@.take(slice@.len() as int) == slice@);
        CommaSeparated { str: s, _phantom: PhantomData }
    }

    /// The comma-separated text.
    pub fn as_str(&self) -> (s: &str)
        ensures
            s@ == self.text(),
    {
        self.str.as_str()
    }

    /// The values spelled between the commas, skipping parts that spell none.
    pub fn to_vec(&self) -> (v: Vec<T>)
        ensures
            v@ == parsed_items::<T>(split_parts(self.text(), ',', 0)),
    {
        let chars = chars_of(self.str.as_str());
        let n = chars.len();
        let mut out: Vec<T> = Vec::new();
        let mut start: usize = 0;
        let ghost mut done: Seq<Seq<char>> = seq![];
        loop
            invariant
                start <= n,
                n == chars@.len(),
                chars@ == self.text(),
                split_parts(chars@, ',', 0) == done + split_parts(chars@, ',', start as int),
                out@ == parsed_items::<T>(done),
            decreases n - start,
        {
            let found = find_char(&chars, ',', start);
            proof {
                lemma_index_of_from_bounds(chars@, ',', start as int);
            }
            let end: usize = match found {
                Some(k) => k,
                None => n,
            };
            let part = slice_chars(&chars, start, end);
            let text = string_of(&part);
            let parsed = T::from_text(text.as_str());
            proof {
                assert(done.push(part@).drop_last() == done);
            }
            match parsed {
                Some(v) => out.push(v),
                None => {},
            }
            match found {
                Some(k) => {
                    proof {
                        assert(split_parts(chars@, ',', start as int) == seq![part@] + split_parts(
                            chars@,
                            ',',
                            k + 1,
                        ));
                        assert(done + (seq![part@] + split_parts(chars@, ',', k + 1)) == done.push(part@)
                            + split_parts(chars@, ',', k + 1));
                        done = done.push(part@);
                    }
                    start = k + 1;
                },
                None => {
                    proof {
                        assert(split_parts(chars@, ',', start as int) == seq![part@]);
                        assert(done + seq![part@] == done.push(part@));
                        done = done.push(part@);
                    }
                    return out;
                },
            }
        }
    }
}

/// Joining one more text after the others.
pub proof fn lemma_join_push(ts: Seq<Seq<char>>, t: Seq<char>, sep: char)
    ensures
        join_with(ts.push(t), sep) == if ts.len() == 0 {
            t
        } else {
            join_with(ts, sep) + seq![sep] + t
        },
    decreases ts.len(),
{
    if ts.len() == 0 {
        assert(ts.push(t) == seq![t]);
    } else if ts.len() == 1 {
        let u = ts.push(t);
        assert(u.drop_first() == seq![t]);
        assert(u[0] == ts[0]);
        assert(join_with(seq![t], sep) == t);
        assert(join_with(u, sep) == u[0] + seq![sep] + join_with(u.drop_first(), sep));
    } else {
        let u = ts.push(t);
        lemma_join_push(ts.drop_first(), t, sep);
        assert(u.drop_first() == ts.drop_first().push(t));
        assert(u[0] == ts[0]);
        assert(join_with(u, sep) == u[0] + seq![sep] + join_with(u.drop_first(), sep));
        assert(join_with(ts, sep) == ts[0] + seq![sep] + join_with(ts.drop_first(), sep));
        assert(join_with(u, sep) =~= join_with(ts, sep) + seq![sep] + t);
    }
}

} // verus!

verus! {

/// Reading back the texts of values that each read back to themselves gives
/// the values.
pub proof fn lemma_parsed_items_of_texts<T: CommaItem>(xs: Seq<T>)
    requires
        forall|i: int| 0 <= i < xs.len() ==> T::parse_item((#[trigger] xs[i]).item_text()) == Some(xs[i]),
    ensures
        parsed_items::<T>(item_texts(xs)) == xs,
    decreases xs.len(),
{
    if xs.len() > 0 {
        let init = xs.drop_last();
        assert(item_texts(xs).drop_last() == item_texts(init));
        assert forall|i: int| 0 <= i < init.len() implies T::parse_item((#[trigger] init[i]).item_text()) == Some(
            init[i],
        ) by {
            assert(init[i] == xs[i]);
        }
        lemma_parsed_items_of_texts(init);
        assert(item_texts(xs).last() == xs.last().item_text());
        assert(T::parse_item(xs[xs.len() - 1].item_text()) == Some(xs[xs.len() - 1]));
        assert(init.push(xs.last()) == xs);
    }
}

/// A comma-separated list reads back as the values it was made from, when
/// each value's text reads back to it and holds no comma, and the list is not
/// empty or the empty text reads as no value.
pub proof fn lemma_comma_separated_round_trip<T: CommaItem>(xs: Seq<T>)
    requires
        forall|i: int| 0 <= i < xs.len() ==> T::parse_item((#[trigger] xs[i]).item_text()) == Some(xs[i]),
        forall|i: int, k: int| 0 <= i < xs.len() && 0 <= k < xs[i].item_text().len() ==> (#[trigger] xs[i].item_text()[k])
            != ',',
        xs.len() > 0 || T::parse_item(Seq::<char>::empty()) is None,
    ensures
        parsed_items::<T>(split_parts(join_with(item_texts(xs), ','), ',', 0)) == xs,
{
    let s = join_with(item_texts(xs), ',');
    if xs.len() == 0 {
        assert(s == Seq::<char>::empty());
        assert(index_of_from(s, ',', 0) is None);
        assert(s.subrange(0, 0) == Seq::<char>::empty());
        assert(split_parts(s, ',', 0) == seq![Seq::<char>::empty()]);
        assert(seq![Seq::<char>::empty()].drop_last() == Seq::<Seq<char>>::empty());
        assert(parsed_items::<T>(seq![Seq::<char>::empty()]) == parsed_items::<T>(Seq::<Seq<char>>::empty()));
        assert(xs == Seq::<T>::empty());
    } else {
        let ts = item_texts(xs);
        assert forall|i: int, k: int| 0 <= i < ts.len() && 0 <= k < ts[i].len() implies (#[trigger] ts[i][k]) != ',' by {
            assert(ts[i] == xs[i].item_text());
        }
        assert(s.subrange(0, s.len() as int) == s);
        lemma_split_join(s, ',', 0, ts);
        lemma_parsed_items_of_texts(xs);
    }
}

/// Ids are written as decimal integers, which read back to them, hold no
/// comma, and the empty text is no id.
pub proof fn lemma_field_id_text(x: FieldId)
    ensures
        FieldId::parse_item(x.item_text()) == Some(x),
        forall|k: int| 0 <= k < x.item_text().len() ==> (#[trigger] x.item_text()[k]) != ',',
        FieldId::parse_item(Seq::<char>::empty()) is None,
{
    lemma_int_text_parses(x.0);
    assert forall|k: int| 0 <= k < x.item_text().len() implies (#[trigger] x.item_text()[k]) != ',' by {
        assert(is_digit(int_text(x.0 as int)[k]) || int_text(x.0 as int)[k] == '-');
    }
}

/// A comma-separated list of field ids reads back as the ids it was made from.
pub proof fn lemma_field_ids_round_trip(xs: Seq<FieldId>)
    ensures
        parsed_items::<FieldId>(split_parts(join_with(item_texts(xs), ','), ',', 0)) == xs,
{
    assert forall|i: int| 0 <= i < xs.len() implies FieldId::parse_item((#[trigger] xs[i]).item_text()) == Some(xs[i]) by {
        lemma_field_id_text(xs[i]);
    }
    assert forall|i: int, k: int| 0 <= i < xs.len() && 0 <= k < xs[i].item_text().len() implies (#[trigger] xs[i].item_text()[k])
        != ',' by {
        lemma_field_id_text(xs[i]);
    }
    lemma_field_id_text(FieldId(0));
    lemma_comma_separated_round_trip(xs);
}

} // verus!

verus! {

/// How precisely a date-time field is kept.
#[derive(Debug, Clone, Copy, PartialEq, Eq, Structural)]
pub enum DateTimePrecision {
    Year,
    Month,
    Day,
    Hour,
    Minute,
    Second,
}

/// The kind of value a field holds.
#[derive(Debug, Clone, Copy)]
pub enum FieldType {
    String,
    Int,
    Float,
    Money,
    Boolean,
    DateTime(DateTimePrecision),
    Enum(EnumId),
}

/// An asset with the values of its fields.
#[derive(Debug, Clone)]
pub struct Asset {
    pub id: AssetId,
    pub category_id: CategoryId,
    pub display_name: String,
    pub fields: Vec<AssetField>,
}

/// The value an asset has for one field.
#[derive(Debug, Clone)]
pub struct AssetField {
    pub field_id: FieldId,
    pub value: FieldValue,
}

/// A field value: text, an integer, a binary64 float by its bit pattern, an
/// amount of money in a currency, a boolean, a moment (seconds since the
/// Unix epoch, UTC) with its precision, or a value of an enumeration.
#[derive(Debug, Clone)]
pub enum FieldValue {
    String(String),
    Int(i64),
    Float(u64),
    Money { amount: String, currency: String },
    Boolean(bool),
    DateTime { timestamp: i64, precision: DateTimePrecision },
    Enum { enum_id: EnumId, value: EnumValueId },
}

impl FieldValue {
    /// The kind of the value.
    pub fn field_type(&self) -> (t: FieldType)
        ensures
            t == (match *self {
                FieldValue::String(_) => FieldType::String,
                FieldValue::Int(_) => FieldType::Int,
                FieldValue::Float(_) => FieldType::Float,
                FieldValue::Money { .. } => FieldType::Money,
                FieldValue::Boolean(_) => FieldType::Boolean,
                FieldValue::DateTime { precision, .. } => FieldType::DateTime(precision),
                FieldValue::Enum { enum_id, .. } => FieldType::Enum(enum_id),
            }),
    {
        match self {
            FieldValue::String(_) => FieldType::String,
            FieldValue::Int(_) => FieldType::Int,
            FieldValue::Float(_) => FieldType::Float,
            FieldValue::Money { .. } => FieldType::Money,
            FieldValue::Boolean(_) => FieldType::Boolean,
            FieldValue::DateTime { precision, .. } => FieldType::DateTime(*precision),
            FieldValue::Enum { enum_id, .. } => FieldType::Enum(*enum_id),
        }
    }
}

/// The parameters of an asset listing: which fields to include.
#[derive(Debug)]
pub struct ListAssetParams {
    pub field_ids: CommaSeparated<FieldId>,
}

/// The parameters of a new asset.
#[derive(Debug, Clone)]
pub struct CreateAssetParams {
    pub category_id: CategoryId,
    pub display_name: String,
}

/// A category, with the fields its assets have.
#[derive(Debug, Clone)]
pub struct Category {
    pub id: CategoryId,
    pub display_name: String,
    pub parent_id: Option<CategoryId>,
    pub field_ids: Vec<FieldId>,
}

/// A field definition.
#[derive(Debug, Clone)]
pub struct Field {
    pub id: FieldId,
    pub display_name: String,
    pub value_type: FieldType,
}

/// The parameters of a new category.
#[derive(Debug, Clone)]
pub struct CreateCategoryParams {
    pub display_name: String,
    pub parent_id: Option<CategoryId>,
    pub field_ids: Vec<FieldId>,
}

/// The parameters of a new field.
#[derive(Debug, Clone)]
pub struct CreateFieldParams {
    pub display_name: String,
    pub value_type: FieldType,
}

/// How many assets each category holds, category by category.
#[derive(Debug, Clone)]
pub struct Index {
    category_asset_counts: Vec<(CategoryId, usize)>,
}

/// How many of `asset_categories` are `c`.
pub open spec fn count_in(asset_categories: Seq<CategoryId>, c: CategoryId) -> nat
    decreases asset_categories.len(),
{
    if asset_categories.len() == 0 {
        0
    } else {
        count_in(asset_categories.drop_last(), c) + if asset_categories.last() == c {
            1nat
        } else {
            0nat
        }
    }
}

/// The index of the first pair of `counts` for category `c`, if any.
pub open spec fn count_position(counts: Seq<(CategoryId, usize)>, c: CategoryId, from: int) -> Option<int>
    decreases counts.len() - from,
{
    if from < 0 || from >= counts.len() {
        None
    } else if counts[from].0 == c {
        Some(from)
    } else {
        count_position(counts, c, from + 1)
    }
}

impl Index {
    /// The counted pairs, category by category.
    pub closed spec fn counts(&self) -> Seq<(CategoryId, usize)> {
        self.category_asset_counts@
    }

    /// Counts, for each of `categories` in order, how many of the assets'
    /// categories `asset_categories` are it.
    pub fn calculate(categories: &[CategoryId], asset_categories: &[CategoryId]) -> (ix: Index)
        ensures
            ix.counts().len() == categories@.len(),
            forall|i: int|
                0 <= i < categories@.len() ==> (#[trigger] ix.counts()[i]).0 == categories@[i] && ix.counts()[i].1
                    == count_in(asset_categories@, categories@[i]),
    {
        let mut out: Vec<(CategoryId, usize)> = Vec::new();
        let mut i: usize = 0;
        while i < categories.len()
            invariant
                i <= categories@.len(),
                out@.len() == i,
                forall|k: int|
                    0 <= k < i ==> (#[trigger] out@[k]).0 == categories@[k] && out@[k].1 == count_in(
                        asset_categories@,
                        categories@[k],
                    ),
            decreases categories.len() - i,
        {
            let c = categories[i];
            let mut n: usize = 0;
            let mut j: usize = 0;
            while j < asset_categories.len()
                invariant
                    j <= asset_categories@.len(),
                    n == count_in(asset_categories@.take(j as int), c),
                    n <= j,
                decreases asset_categories.len() - j,
            {
                assert(asset_categories@.take(j + 1).drop_last() == asset_categories@.take(j as int));
                if asset_categories[j] == c {
                    n = n + 1;
                }
                j = j + 1;
            }
            assert(asset_categories@.take(j as int) == asset_categories@);
            out.push((c, n));
            i = i + 1;
        }
        Index { category_asset_counts: out }
    }

    /// The count recorded for `category_id`, if it was counted.
    pub fn category_asset_count(&self, category_id: CategoryId) -> (r: Option<usize>)
        ensures
            match count_position(self.counts(), category_id, 0) {
                Some(i) => r == Some(self.counts()[i].1),
                None => r is None,
            },
    {
        let mut i: usize = 0;
        while i < self.category_asset_counts.len()
            invariant
                i <= self.category_asset_counts@.len(),
                count_position(self.counts(), category_id, 0) == count_position(self.counts(), category_id, i as int),
            decreases self.category_asset_counts.len() - i,
        {
            if self.category_asset_counts[i].0 == category_id {
                return Some(self.category_asset_counts[i].1);
            }
            i = i + 1;
        }
        None
    }
}

/// After counting, asking for a category that was counted gives the number of
/// assets in it.
pub proof fn lemma_index_counts_assets(
    categories: Seq<CategoryId>,
    asset_categories: Seq<CategoryId>,
    ix: Index,
    i: int,
)
    requires
        0 <= i < categories.len(),
        ix.counts().len() == categories.len(),
        forall|k: int|
            0 <= k < categories.len() ==> (#[trigger] ix.counts()[k]).0 == categories[k] && ix.counts()[k].1 == count_in(
                asset_categories,
                categories[k],
            ),
    ensures
        count_position(ix.counts(), categories[i], 0) matches Some(j) && ix.counts()[j].1 == count_in(
            asset_categories,
            categories[i],
        ),
{
    lemma_count_position_finds(ix.counts(), categories[i], 0, i);
}

/// A pair for `c` at or after `from` is found, at or before `i`, and holds `c`.
pub proof fn lemma_count_position_finds(counts: Seq<(CategoryId, usize)>, c: CategoryId, from: int, i: int)
    requires
        0 <= from <= i < counts.len(),
        counts[i].0 == c,
    ensures
        count_position(counts, c, from) matches Some(j) && from <= j <= i && counts[j].0 == c,
    decreases i - from,
{
    if counts[from].0 != c {
        lemma_count_position_finds(counts, c, from + 1, i);
    }
}

} // verus!
