//! JSON values as the HAM services exchange them: numbers keep the three
//! shapes a JSON number can have (non-negative integer, negative integer,
//! binary64 float held by its bit pattern), objects map unique keys to values.
use vstd::prelude::*;

verus! {

/// A JSON number: a non-negative integer, a negative integer, or a finite
/// binary64 float given by its IEEE-754 bit pattern.
#[derive(Clone, Copy, Debug, PartialEq, Eq, Structural)]
pub enum JsonNumber {
    PosInt(u64),
    NegInt(i64),
    Float(u64),
}

impl JsonNumber {
    /// The number as an `i64`, when it is an integer in range.
    pub open spec fn spec_as_i64(&self) -> Option<i64> {
        match *self {
            JsonNumber::PosInt(u) => if u <= i64::MAX as u64 {
                Some(u as i64)
            } else {
                None
            },
            JsonNumber::NegInt(i) => Some(i),
            JsonNumber::Float(_) => None,
        }
    }

    /// The number as a `u64`, when it is a non-negative integer.
    pub open spec fn spec_as_u64(&self) -> Option<u64> {
        match *self {
            JsonNumber::PosInt(u) => Some(u),
            _ => None,
        }
    }

    /// The number as an `i64`, when it is an integer in range.
    #[verifier::when_used_as_spec(spec_as_i64)]
    pub fn as_i64(&self) -> (r: Option<i64>)
        ensures
            r == self.spec_as_i64(),
    {
        match self {
            JsonNumber::PosInt(u) => if *u <= 9223372036854775807 {
                Some(*u as i64)
            } else {
                None
            },
            JsonNumber::NegInt(i) => Some(*i),
            JsonNumber::Float(_) => None,
        }
    }

    /// The number as a `u64`, when it is a non-negative integer.
    #[verifier::when_used_as_spec(spec_as_u64)]
    pub fn as_u64(&self) -> (r: Option<u64>)
        ensures
            r == self.spec_as_u64(),
    {
        match self {
            JsonNumber::PosInt(u) => Some(*u),
            _ => None,
        }
    }

    /// The JSON number for an `i64`.
    pub fn from_i64(i: i64) -> (n: JsonNumber)
        ensures
            n == (if i < 0 { JsonNumber::NegInt(i) } else { JsonNumber::PosInt(i as u64) }),
    {
        if i < 0 {
            JsonNumber::NegInt(i)
        } else {
            JsonNumber::PosInt(i as u64)
        }
    }
}

/// Whether two numbers are equal as JSON numbers: same shape and value, where
/// the two zero floats are equal.
pub open spec fn same_number(a: JsonNumber, b: JsonNumber) -> bool {
    match (a, b) {
        (JsonNumber::Float(x), JsonNumber::Float(y)) => x == y || ((x == 0 || x == 0x8000_0000_0000_0000)
            && (y == 0 || y == 0x8000_0000_0000_0000)),
        _ => a == b,
    }
}

/// A JSON value.
#[derive(Debug)]
pub enum JsonValue {
    Null,
    Bool(bool),
    Number(JsonNumber),
    String(String),
    Array(Vec<JsonValue>),
    Object(JsonObject),
}

/// A JSON object: keys, each present once, with their values.
#[derive(Debug)]
pub struct JsonObject {
    entries: Vec<(String, JsonValue)>,
}

/// Whether no key occurs twice among the entries.
pub open spec fn unique_keys(s: Seq<(String, JsonValue)>) -> bool {
    forall|i: int, j: int| 0 <= i < j < s.len() ==> (#[trigger] s[i]).0@ != (#[trigger] s[j]).0@
}

/// The keys of the entries map exactly the entries' keys.
pub proof fn lemma_entries_map_dom(s: Seq<(String, JsonValue)>, k: Seq<char>)
    ensures
        entries_view(s).contains_key(k) <==> exists|i: int| 0 <= i < s.len() && (#[trigger] s[i]).0@ == k,
    decreases s.len(),
{
    if s.len() > 0 {
        lemma_entries_map_dom(s.drop_last(), k);
        if entries_view(s.drop_last()).contains_key(k) {
            let i = choose|i: int| 0 <= i < s.drop_last().len() && (#[trigger] s.drop_last()[i]).0@ == k;
            assert(s[i].0@ == k);
        }
        if exists|i: int| 0 <= i < s.len() && (#[trigger] s[i]).0@ == k {
            let i = choose|i: int| 0 <= i < s.len() && (#[trigger] s[i]).0@ == k;
            if i < s.len() - 1 {
                assert(s.drop_last()[i].0@ == k);
            }
        }
    }
}

/// With unique keys, each entry's value is what the map holds for its key.
pub proof fn lemma_entries_map_value(s: Seq<(String, JsonValue)>, i: int)
    requires
        unique_keys(s),
        0 <= i < s.len(),
    ensures
        entries_view(s).contains_key(s[i].0@),
        entries_view(s)[s[i].0@] == json_view(s[i].1),
    decreases s.len(),
{
    if i < s.len() - 1 {
        let d = s.drop_last();
        assert(unique_keys(d)) by {
            assert forall|a: int, b: int| 0 <= a < b < d.len() implies (#[trigger] d[a]).0@ != (#[trigger] d[b]).0@ by {
                assert(d[a] == s[a] && d[b] == s[b]);
            }
        }
        assert(d[i] == s[i]);
        lemma_entries_map_value(d, i);
        assert(s[i].0@ != s[s.len() - 1].0@);
    }
}

impl JsonObject {
    /// The mapping from keys to values.
    pub closed spec fn view(&self) -> Map<Seq<char>, JsonView> {
        entries_view(self.entries@)
    }

    /// The object's entries are well formed: no key occurs twice.
    #[verifier::type_invariant]
    closed spec fn keys_unique(self) -> bool {
        unique_keys(self.entries@)
    }

    /// The entries, in the order in which they are kept.
    pub closed spec fn entry_seq(&self) -> Seq<(String, JsonValue)> {
        self.entries@
    }

    /// An empty object.
    pub fn new() -> (o: JsonObject)
        ensures
            o.view() == Map::<Seq<char>, JsonView>::empty(),
    {
        JsonObject { entries: Vec::new() }
    }

    /// The number of keys (one per entry; the entries determine the mapping).
    pub fn len(&self) -> (n: usize)
        ensures
            n == self.view().dom().len(),
            n == self.entry_seq().len(),
            self.view().dom().finite(),
            unique_keys(self.entry_seq()),
            self.view() == entries_view(self.entry_seq()),
    {
        proof {
            use_type_invariant(self);
            lemma_entries_map_finite(self.entries@);
        }
        self.entries.len()
    }

    /// The index of `key` among the entries, if present.
    pub fn position(&self, key: &str) -> (r: Option<usize>)
        ensures
            match r {
                Some(i) => i < self.entry_seq().len() && self.entry_seq()[i as int].0@ == key@,
                None => !self.view().contains_key(key@)
                    && forall|j: int| 0 <= j < self.entry_seq().len() ==> (#[trigger] self.entry_seq()[j]).0@ != key@,
            },
    {
        let mut i: usize = 0;
        while i < self.entries.len()
            invariant
                i <= self.entries@.len(),
                forall|k: int| 0 <= k < i ==> self.entries@[k].0@ != key@,
            decreases self.entries.len() - i,
        {
            if str_eq(self.entries[i].0.as_str(), key) {
                return Some(i);
            }
            i = i + 1;
        }
        proof {
            lemma_entries_map_dom(self.entries@, key@);
        }
        None
    }

    /// The value of `key`, if present.
    pub fn get(&self, key: &str) -> (r: Option<&JsonValue>)
        ensures
            match r {
                Some(v) => self.view().contains_key(key@) && json_view(*v) == self.view()[key@],
                None => !self.view().contains_key(key@),
            },
    {
        proof {
            use_type_invariant(self);
        }
        match self.position(key) {
            Some(i) => {
                proof {
                    lemma_entries_map_value(self.entries@, i as int);
                }
                Some(&self.entries[i].1)
            },
            None => None,
        }
    }

    /// Whether `key` is present.
    pub fn contains_key(&self, key: &str) -> (b: bool)
        ensures
            b == self.view().contains_key(key@),
    {
        self.get(key).is_some()
    }

    /// Sets `key` to `value`, replacing any earlier value.
    pub fn insert(&mut self, key: String, value: JsonValue)
        ensures
            final(self).view() == old(self).view().insert(key@, json_view(value)),
    {
        proof {
            use_type_invariant(&*self);
        }
        match self.position(key.as_str()) {
            Some(i) => {
                let ghost old_entries = self.entries@;
                let ghost k = key@;
                let mut entries: Vec<(String, JsonValue)> = Vec::new();
                std::mem::swap(&mut entries, &mut self.entries);
                entries.set(i, (key, value));
                proof {
                    lemma_replace_entry(old_entries, i as int, entries@[i as int]);
                }
                self.entries = entries;
            },
            None => {
                let ghost old_entries = self.entries@;
                proof {
                    assert forall|j: int| 0 <= j < old_entries.len() implies (#[trigger] old_entries[j]).0@ != key@ by {
                        if old_entries[j].0@ == key@ {
                            lemma_entries_map_dom(old_entries, key@);
                        }
                    }
                }
                let mut entries: Vec<(String, JsonValue)> = Vec::new();
                std::mem::swap(&mut entries, &mut self.entries);
                entries.push((key, value));
                assert(entries@.drop_last() == old_entries);
                proof {
                    assert(unique_keys(entries@)) by {
                        assert forall|a: int, b: int| 0 <= a < b < entries@.len() implies (#[trigger] entries@[a]).0@
                            != (#[trigger] entries@[b]).0@ by {
                            if b < old_entries.len() {
                                assert(entries@[a] == old_entries[a] && entries@[b] == old_entries[b]);
                            } else {
                                assert(entries@[a] == old_entries[a]);
                            }
                        }
                    }
                }
                self.entries = entries;
            },
        }
    }

    /// Removes `key`, returning its value if it was present.
    pub fn remove(&mut self, key: &str) -> (r: Option<JsonValue>)
        ensures
            final(self).view() == old(self).view().remove(key@),
            match r {
                Some(v) => old(self).view().contains_key(key@) && json_view(v) == old(self).view()[key@],
                None => !old(self).view().contains_key(key@),
            },
    {
        proof {
            use_type_invariant(&*self);
        }
        match self.position(key) {
            Some(i) => {
                let ghost old_entries = self.entries@;
                proof {
                    lemma_entries_map_value(old_entries, i as int);
                }
                let mut entries: Vec<(String, JsonValue)> = Vec::new();
                std::mem::swap(&mut entries, &mut self.entries);
                let removed = entries.remove(i);
                proof {
                    lemma_remove_entry(old_entries, i as int);
                }
                self.entries = entries;
                Some(removed.1)
            },
            None => {
                proof {
                    assert(old(self).view().remove(key@) =~= old(self).view());
                }
                None
            },
        }
    }

    /// The key and value of entry `i`, in the order in which entries are kept.
    pub fn entry(&self, i: usize) -> (r: (&String, &JsonValue))
        requires
            i < self.entry_seq().len(),
        ensures
            *r.0 == self.entry_seq()[i as int].0,
            *r.1 == self.entry_seq()[i as int].1,
    {
        (&self.entries[i].0, &self.entries[i].1)
    }

    /// The number of entries (the same as the number of keys).
    pub fn entry_count(&self) -> (n: usize)
        ensures
            n == self.entry_seq().len(),
    {
        self.entries.len()
    }
}

/// The entries' map has one key per entry.
pub proof fn lemma_entries_map_finite(s: Seq<(String, JsonValue)>)
    requires
        unique_keys(s),
    ensures
        entries_view(s).dom().finite(),
        entries_view(s).dom().len() == s.len(),
    decreases s.len(),
{
    if s.len() > 0 {
        let d = s.drop_last();
        assert(unique_keys(d)) by {
            assert forall|a: int, b: int| 0 <= a < b < d.len() implies (#[trigger] d[a]).0@ != (#[trigger] d[b]).0@ by {
                assert(d[a] == s[a] && d[b] == s[b]);
            }
        }
        lemma_entries_map_finite(d);
        lemma_entries_map_dom(d, s.last().0@);
        if entries_view(d).contains_key(s.last().0@) {
            let i = choose|i: int| 0 <= i < d.len() && (#[trigger] d[i]).0@ == s.last().0@;
            assert(s[i].0@ != s[s.len() - 1].0@);
        }
    }
}

/// Replacing the value of an entry, under the same key, updates the map.
proof fn lemma_replace_entry(s: Seq<(String, JsonValue)>, i: int, e: (String, JsonValue))
    requires
        unique_keys(s),
        0 <= i < s.len(),
        e.0@ == s[i].0@,
    ensures
        unique_keys(s.update(i, e)),
        entries_view(s.update(i, e)) == entries_view(s).insert(e.0@, json_view(e.1)),
    decreases s.len(),
{
    let u = s.update(i, e);
    assert(unique_keys(u)) by {
        assert forall|a: int, b: int| 0 <= a < b < u.len() implies (#[trigger] u[a]).0@ != (#[trigger] u[b]).0@ by {
            assert(u[a].0@ == s[a].0@ && u[b].0@ == s[b].0@);
        }
    }
    if i == s.len() - 1 {
        assert(u.drop_last() == s.drop_last());
        lemma_entries_map_dom(s.drop_last(), e.0@);
        assert(entries_view(s).insert(e.0@, json_view(e.1)) =~= entries_view(s.drop_last()).insert(e.0@, json_view(e.1)));
    } else {
        let d = s.drop_last();
        assert(unique_keys(d)) by {
            assert forall|a: int, b: int| 0 <= a < b < d.len() implies (#[trigger] d[a]).0@ != (#[trigger] d[b]).0@ by {
                assert(d[a] == s[a] && d[b] == s[b]);
            }
        }
        lemma_replace_entry(d, i, e);
        assert(u.drop_last() == d.update(i, e));
        assert(u.last() == s.last());
        assert(s.last().0@ != e.0@);
        assert(entries_view(u) =~= entries_view(s).insert(e.0@, json_view(e.1)));
    }
}

/// Removing an entry removes its key from the map.
proof fn lemma_remove_entry(s: Seq<(String, JsonValue)>, i: int)
    requires
        unique_keys(s),
        0 <= i < s.len(),
    ensures
        unique_keys(s.remove(i)),
        entries_view(s.remove(i)) == entries_view(s).remove(s[i].0@),
    decreases s.len(),
{
    let r = s.remove(i);
    assert(unique_keys(r)) by {
        assert forall|a: int, b: int| 0 <= a < b < r.len() implies (#[trigger] r[a]).0@ != (#[trigger] r[b]).0@ by {
            let a2 = if a < i { a } else { a + 1 };
            let b2 = if b < i { b } else { b + 1 };
            assert(r[a] == s[a2] && r[b] == s[b2]);
        }
    }
    let d = s.drop_last();
    assert(unique_keys(d)) by {
        assert forall|a: int, b: int| 0 <= a < b < d.len() implies (#[trigger] d[a]).0@ != (#[trigger] d[b]).0@ by {
            assert(d[a] == s[a] && d[b] == s[b]);
        }
    }
    if i == s.len() - 1 {
        assert(r == d);
        lemma_entries_map_dom(d, s[i].0@);
        if entries_view(d).contains_key(s[i].0@) {
            let j = choose|j: int| 0 <= j < d.len() && (#[trigger] d[j]).0@ == s[i].0@;
            assert(s[j].0@ != s[i].0@);
        }
        assert(entries_view(r) =~= entries_view(s).remove(s[i].0@));
    } else {
        lemma_remove_entry(d, i);
        assert(r.drop_last() == d.remove(i));
        assert(r.last() == s.last());
        assert(s.last().0@ != s[i].0@);
        assert(entries_view(r) =~= entries_view(s).remove(s[i].0@));
    }
}

/// Whether two strings are equal.
pub fn str_eq(a: &str, b: &str) -> (r: bool)
    ensures
        r == (a@ == b@),
{
    let x = crate::text::chars_of(a);
    let y = crate::text::chars_of(b);
    crate::text::eq_chars(&x, &y)
}

} // verus!

verus! {

/// The mathematical content of a JSON value: text as characters, arrays as
/// sequences, objects as maps from keys.
pub enum JsonView {
    Null,
    Bool(bool),
    Number(JsonNumber),
    String(Seq<char>),
    Array(Seq<JsonView>),
    Object(Map<Seq<char>, JsonView>),
}

broadcast use vstd::std_specs::vec::group_vec_axioms;

/// The content of a list of entries with unique keys.
pub open spec fn entries_view(s: Seq<(String, JsonValue)>) -> Map<Seq<char>, JsonView>
    decreases s,
{
    if s.len() == 0 {
        Map::empty()
    } else {
        entries_view(s.drop_last()).insert(s.last().0@, json_view(s.last().1))
    }
}

/// The content of a JSON value.
pub open spec fn json_view(v: JsonValue) -> JsonView
    decreases v,
{
    match v {
        JsonValue::Null => JsonView::Null,
        JsonValue::Bool(b) => JsonView::Bool(b),
        JsonValue::Number(n) => JsonView::Number(n),
        JsonValue::String(s) => JsonView::String(s@),
        JsonValue::Array(items) => JsonView::Array(
            Seq::new(
                items@.len(),
                |i: int|
                    if 0 <= i < items@.len() {
                        json_view(items@[i])
                    } else {
                        JsonView::Null
                    },
            ),
        ),
        JsonValue::Object(o) => JsonView::Object(entries_view(o.entry_seq())),
    }
}

} // verus!

verus! {

impl JsonValue {
    /// Whether the value is `null`.
    pub fn is_null(&self) -> (b: bool)
        ensures
            b == (*self is Null),
    {
        matches!(self, JsonValue::Null)
    }

    /// Whether the value is a string.
    pub fn is_string(&self) -> (b: bool)
        ensures
            b == (*self is String),
    {
        matches!(self, JsonValue::String(_))
    }

    /// Whether the value is a number.
    pub fn is_number(&self) -> (b: bool)
        ensures
            b == (*self is Number),
    {
        matches!(self, JsonValue::Number(_))
    }

    /// Whether the value is a boolean.
    pub fn is_boolean(&self) -> (b: bool)
        ensures
            b == (*self is Bool),
    {
        matches!(self, JsonValue::Bool(_))
    }

    /// The string, when the value is one.
    pub fn as_str(&self) -> (r: Option<&String>)
        ensures
            match *self {
                JsonValue::String(s) => r == Some(&s),
                _ => r is None,
            },
    {
        match self {
            JsonValue::String(s) => Some(s),
            _ => None,
        }
    }

    /// The boolean, when the value is one.
    pub fn as_bool(&self) -> (r: Option<bool>)
        ensures
            r == json_as_bool(*self),
    {
        match self {
            JsonValue::Bool(b) => Some(*b),
            _ => None,
        }
    }

    /// The number as an `i64`, when the value is an integer in range.
    pub fn as_i64(&self) -> (r: Option<i64>)
        ensures
            r == json_as_i64(*self),
    {
        match self {
            JsonValue::Number(n) => n.as_i64(),
            _ => None,
        }
    }

    /// The number as a `u64`, when the value is a non-negative integer.
    pub fn as_u64(&self) -> (r: Option<u64>)
        ensures
            r == json_as_u64(*self),
    {
        match self {
            JsonValue::Number(n) => n.as_u64(),
            _ => None,
        }
    }

    /// The number, when the value is one.
    pub fn as_number(&self) -> (r: Option<JsonNumber>)
        ensures
            r == (match *self {
                JsonValue::Number(n) => Some(n),
                _ => None,
            }),
    {
        match self {
            JsonValue::Number(n) => Some(*n),
            _ => None,
        }
    }

    /// A copy of the value with the same content.
    #[verifier::loop_isolation(false)]
    pub fn copy(&self) -> (r: JsonValue)
        ensures
            json_view(r) == json_view(*self),
        decreases *self,
    {
        match self {
            JsonValue::Null => JsonValue::Null,
            JsonValue::Bool(b) => JsonValue::Bool(*b),
            JsonValue::Number(n) => JsonValue::Number(*n),
            JsonValue::String(s) => JsonValue::String(s.clone()),
            JsonValue::Array(items) => {
                let mut out: Vec<JsonValue> = Vec::new();
                let mut i: usize = 0;
                while i < items.len()
                    invariant
                        i <= items.len(),
                        out@.len() == i,
                        forall|k: int| 0 <= k < i ==> json_view(#[trigger] out@[k]) == json_view(items@[k]),
                    decreases items.len() - i,
                {
                    let c = items[i].copy();
                    out.push(c);
                    i = i + 1;
                }
                let r = JsonValue::Array(out);
                assert(json_view(r)->Array_0 =~= json_view(*self)->Array_0);
                r
            },
            JsonValue::Object(o) => JsonValue::Object(o.copy()),
        }
    }
}

/// The boolean a value holds, if it is one.
pub open spec fn json_as_bool(v: JsonValue) -> Option<bool> {
    match v {
        JsonValue::Bool(b) => Some(b),
        _ => None,
    }
}

/// The `i64` a value holds, if it is an integer in range.
pub open spec fn json_as_i64(v: JsonValue) -> Option<i64> {
    match v {
        JsonValue::Number(n) => n.spec_as_i64(),
        _ => None,
    }
}

/// The `u64` a value holds, if it is a non-negative integer.
pub open spec fn json_as_u64(v: JsonValue) -> Option<u64> {
    match v {
        JsonValue::Number(n) => n.spec_as_u64(),
        _ => None,
    }
}

impl JsonObject {
    /// A copy of the object with the same content.
    pub fn copy(&self) -> (r: JsonObject)
        ensures
            r.view() == self.view(),
            entries_view(r.entry_seq()) == entries_view(self.entry_seq()),
        decreases *self,
    {
        proof {
            use_type_invariant(self);
        }
        let mut out: Vec<(String, JsonValue)> = Vec::new();
        let mut i: usize = 0;
        while i < self.entries.len()
            invariant
                i <= self.entries@.len(),
                out@.len() == i,
                unique_keys(self.entries@),
                forall|k: int| 0 <= k < i ==> (#[trigger] out@[k]).0@ == self.entries@[k].0@
                    && json_view(out@[k].1) == json_view(self.entries@[k].1),
            decreases self.entries.len() - i,
        {
            let key = self.entries[i].0.clone();
            let value = self.entries[i].1.copy();
            out.push((key, value));
            i = i + 1;
        }
        proof {
            assert(unique_keys(out@)) by {
                assert forall|a: int, b: int| 0 <= a < b < out@.len() implies (#[trigger] out@[a]).0@
                    != (#[trigger] out@[b]).0@ by {
                    assert(self.entries@[a].0@ != self.entries@[b].0@);
                }
            }
            lemma_entries_view_congruent(out@, self.entries@);
        }
        JsonObject { entries: out }
    }
}

/// Entries with the same keys and same-content values, position by position,
/// have the same content.
pub proof fn lemma_entries_view_congruent(a: Seq<(String, JsonValue)>, b: Seq<(String, JsonValue)>)
    requires
        a.len() == b.len(),
        forall|k: int| 0 <= k < a.len() ==> (#[trigger] a[k]).0@ == b[k].0@ && json_view(a[k].1) == json_view(b[k].1),
    ensures
        entries_view(a) == entries_view(b),
    decreases a.len(),
{
    if a.len() > 0 {
        assert forall|k: int| 0 <= k < a.drop_last().len() implies (#[trigger] a.drop_last()[k]).0@ == b.drop_last()[k].0@
            && json_view(a.drop_last()[k].1) == json_view(b.drop_last()[k].1) by {
            assert(a.drop_last()[k] == a[k] && b.drop_last()[k] == b[k]);
        }
        lemma_entries_view_congruent(a.drop_last(), b.drop_last());
        assert(a.last() == a[a.len() - 1]);
    }
}

} // verus!

verus! {

/// Whether two JSON values are equal as JSON: same shape, same scalars (the
/// two float zeros equal), arrays equal item by item, objects with the same
/// keys and equal values.
pub open spec fn json_equiv(a: JsonValue, b: JsonValue) -> bool
    decreases a,
{
    match (a, b) {
        (JsonValue::Null, JsonValue::Null) => true,
        (JsonValue::Bool(x), JsonValue::Bool(y)) => x == y,
        (JsonValue::Number(x), JsonValue::Number(y)) => same_number(x, y),
        (JsonValue::String(x), JsonValue::String(y)) => x@ == y@,
        (JsonValue::Array(x), JsonValue::Array(y)) => x@.len() == y@.len() && forall|i: int|
            0 <= i < x@.len() ==> json_equiv(x@[i], #[trigger] y@[i]),
        (JsonValue::Object(x), JsonValue::Object(y)) => {
            let xs = x.entry_seq();
            let ys = y.entry_seq();
            xs.len() == ys.len() && forall|i: int|
                #![trigger xs[i]]
                0 <= i < xs.len() ==> key_index(ys, xs[i].0@, 0) is Some && json_equiv(
                    xs[i].1,
                    ys[key_index(ys, xs[i].0@, 0)->0].1,
                )
        },
        _ => false,
    }
}

/// Whether two lists of entries hold the same keys with equal values.
pub open spec fn entries_equiv(xs: Seq<(String, JsonValue)>, ys: Seq<(String, JsonValue)>) -> bool {
    xs.len() == ys.len() && forall|i: int|
        #![trigger xs[i]]
        0 <= i < xs.len() ==> key_index(ys, xs[i].0@, 0) is Some && json_equiv(
            xs[i].1,
            ys[key_index(ys, xs[i].0@, 0)->0].1,
        )
}

/// The index of the first entry at or after `from` whose key is `k`.
pub open spec fn key_index(ys: Seq<(String, JsonValue)>, k: Seq<char>, from: int) -> Option<int>
    decreases ys.len() - from,
{
    if from < 0 || from >= ys.len() {
        None
    } else if ys[from].0@ == k {
        Some(from)
    } else {
        key_index(ys, k, from + 1)
    }
}

/// Where a key is found, and that it is found whenever present.
pub proof fn lemma_key_index(ys: Seq<(String, JsonValue)>, k: Seq<char>, from: int)
    requires
        0 <= from,
    ensures
        key_index(ys, k, from) matches Some(j) ==> from <= j < ys.len() && ys[j].0@ == k,
        key_index(ys, k, from) is None ==> forall|j: int| from <= j < ys.len() ==> (#[trigger] ys[j]).0@ != k,
        unique_keys(ys) ==> forall|j: int| from <= j < ys.len() && (#[trigger] ys[j]).0@ == k ==> key_index(ys, k, from) == Some(j),
    decreases ys.len() - from,
{
    if from < ys.len() {
        lemma_key_index(ys, k, from + 1);
        if unique_keys(ys) && ys[from].0@ == k {
            assert forall|j: int| from <= j < ys.len() && (#[trigger] ys[j]).0@ == k implies j == from by {
                if j > from {
                    assert(ys[from].0@ != ys[j].0@);
                }
            }
        }
    }
}

/// Whether every object inside a value (the value itself included) has
/// unique keys, as every object built by this crate has.
pub open spec fn json_wf(v: JsonValue) -> bool
    decreases v,
{
    match v {
        JsonValue::Array(items) => forall|i: int| 0 <= i < items@.len() ==> json_wf(#[trigger] items@[i]),
        JsonValue::Object(o) => unique_keys(o.entry_seq()) && forall|i: int|
            0 <= i < o.entry_seq().len() ==> json_wf(#[trigger] o.entry_seq()[i].1),
        _ => true,
    }
}

/// Every well-formed value is equal to itself as JSON.
pub proof fn lemma_json_equiv_reflexive(a: JsonValue)
    requires
        json_wf(a),
    ensures
        json_equiv(a, a),
    decreases a,
{
    match a {
        JsonValue::Array(x) => {
            assert forall|i: int| 0 <= i < x@.len() implies json_equiv(x@[i], #[trigger] x@[i]) by {
                assert(json_wf(x@[i]));
                lemma_json_equiv_reflexive(x@[i]);
            }
            assert(a == JsonValue::Array(x));
            assert(json_equiv(JsonValue::Array(x), JsonValue::Array(x)));
            assert(json_equiv(a, a));
        },
        JsonValue::Object(o) => {
            let s = o.entry_seq();
            assert forall|i: int| 0 <= i < s.len() implies #[trigger] key_index(s, s[i].0@, 0) == Some(i) by {
                lemma_key_index(s, s[i].0@, 0);
            }
            assert forall|i: int| 0 <= i < s.len() implies json_equiv(s[i].1, #[trigger] s[i].1) by {
                assert(json_wf(s[i].1));
                lemma_json_equiv_reflexive(s[i].1);
            }
            assert(entries_equiv(s, s));
            assert(json_equiv(a, a));
        },
        JsonValue::Number(n) => {
            assert(same_number(n, n));
        },
        _ => {},
    }
}

impl JsonValue {
    /// Walks the value down to its leaves; every object met keeps its keys
    /// unique, so the value is well formed.
    #[verifier::loop_isolation(false)]
    pub(crate) fn walk_well_formed(&self)
        ensures
            json_wf(*self),
        decreases *self,
    {
        match self {
            JsonValue::Array(items) => {
                let mut i: usize = 0;
                while i < items.len()
                    invariant
                        i <= items@.len(),
                        forall|k: int| 0 <= k < i ==> json_wf(#[trigger] items@[k]),
                    decreases items.len() - i,
                {
                    items[i].walk_well_formed();
                    i = i + 1;
                }
            },
            JsonValue::Object(o) => o.walk_well_formed(),
            _ => {},
        }
    }
}

impl JsonObject {
    /// Walks the object's values (see `JsonValue::walk_well_formed`).
    #[verifier::loop_isolation(false)]
    pub(crate) fn walk_well_formed(&self)
        ensures
            json_wf(JsonValue::Object(*self)),
        decreases *self,
    {
        proof {
            use_type_invariant(self);
        }
        let mut i: usize = 0;
        while i < self.entries.len()
            invariant
                i <= self.entries@.len(),
                forall|k: int| 0 <= k < i ==> json_wf(#[trigger] self.entries@[k].1),
            decreases self.entries.len() - i,
        {
            self.entries[i].1.walk_well_formed();
            i = i + 1;
        }
        assert(unique_keys(self.entry_seq()));
    }
}

/// Equality as JSON is symmetric on well-formed values: if `a` equals `b`,
/// then `b` equals `a`.
pub proof fn lemma_json_equiv_symmetric(a: JsonValue, b: JsonValue)
    requires
        json_wf(a),
        json_wf(b),
        json_equiv(a, b),
    ensures
        json_equiv(b, a),
    decreases a,
{
    match (a, b) {
        (JsonValue::Array(x), JsonValue::Array(y)) => {
            assert forall|i: int| 0 <= i < y@.len() implies json_equiv(y@[i], #[trigger] x@[i]) by {
                assert(json_equiv(x@[i], y@[i]));
                assert(json_wf(x@[i]) && json_wf(y@[i]));
                lemma_json_equiv_symmetric(x@[i], y@[i]);
            }
        },
        (JsonValue::Object(x), JsonValue::Object(y)) => {
            let xs = x.entry_seq();
            let ys = y.entry_seq();
            lemma_entries_map_finite(xs);
            lemma_entries_map_finite(ys);
            let dx = entries_view(xs).dom();
            let dy = entries_view(ys).dom();
            assert(dx.subset_of(dy)) by {
                assert forall|k: Seq<char>| dx.contains(k) implies dy.contains(k) by {
                    lemma_entries_map_dom(xs, k);
                    let i = choose|i: int| 0 <= i < xs.len() && (#[trigger] xs[i]).0@ == k;
                    assert(key_index(ys, xs[i].0@, 0) is Some);
                    lemma_key_index(ys, k, 0);
                    let j = key_index(ys, k, 0)->0;
                    lemma_entries_map_value(ys, j);
                }
            }
            vstd::set_lib::lemma_subset_equality(dx, dy);
            assert forall|j: int|
                #![trigger ys[j]]
                0 <= j < ys.len() implies key_index(xs, ys[j].0@, 0) is Some && json_equiv(
                    ys[j].1,
                    xs[key_index(xs, ys[j].0@, 0)->0].1,
                ) by {
                let k = ys[j].0@;
                lemma_entries_map_value(ys, j);
                assert(dx.contains(k));
                lemma_entries_map_dom(xs, k);
                let i = choose|i: int| 0 <= i < xs.len() && (#[trigger] xs[i]).0@ == k;
                lemma_key_index(xs, k, 0);
                assert(key_index(xs, k, 0) == Some(i));
                assert(key_index(ys, xs[i].0@, 0) is Some && json_equiv(xs[i].1, ys[key_index(ys, xs[i].0@, 0)->0].1));
                lemma_key_index(ys, k, 0);
                assert(key_index(ys, k, 0) == Some(j));
                assert(json_wf(xs[i].1) && json_wf(ys[j].1));
                lemma_json_equiv_symmetric(xs[i].1, ys[j].1);
            }
        },
        _ => {},
    }
}

/// Whether two numbers are equal as JSON numbers.
pub fn numbers_equal(a: JsonNumber, b: JsonNumber) -> (r: bool)
    ensures
        r == same_number(a, b),
{
    match (a, b) {
        (JsonNumber::Float(x), JsonNumber::Float(y)) => x == y || ((x == 0 || x == 0x8000_0000_0000_0000)
            && (y == 0 || y == 0x8000_0000_0000_0000)),
        _ => a == b,
    }
}

/// Whether two JSON values are equal as JSON.
#[verifier::loop_isolation(false)]
pub fn json_equal(a: &JsonValue, b: &JsonValue) -> (r: bool)
    ensures
        r == json_equiv(*a, *b),
    decreases *a,
{
    match (a, b) {
        (JsonValue::Null, JsonValue::Null) => true,
        (JsonValue::Bool(x), JsonValue::Bool(y)) => *x == *y,
        (JsonValue::Number(x), JsonValue::Number(y)) => numbers_equal(*x, *y),
        (JsonValue::String(x), JsonValue::String(y)) => str_eq(x.as_str(), y.as_str()),
        (JsonValue::Array(x), JsonValue::Array(y)) => {
            if x.len() != y.len() {
                return false;
            }
            let mut i: usize = 0;
            while i < x.len()
                invariant
                    i <= x@.len(),
                    x@.len() == y@.len(),
                    forall|k: int| 0 <= k < i ==> json_equiv(x@[k], #[trigger] y@[k]),
                decreases x.len() - i,
            {
                if !json_equal(&x[i], &y[i]) {
                    return false;
                }
                i = i + 1;
            }
            true
        },
        (JsonValue::Object(x), JsonValue::Object(y)) => {
            objects_equal(x, y)
        },
        _ => false,
    }
}

/// Whether two objects hold the same keys with equal values.
#[verifier::loop_isolation(false)]
pub fn objects_equal(x: &JsonObject, y: &JsonObject) -> (r: bool)
    ensures
        r == entries_equiv(x.entry_seq(), y.entry_seq()),
    decreases *x,
{
    let n = x.len();
    let m = y.len();
    if n != m {
        return false;
    }
    let ghost xs = x.entry_seq();
    let ghost ys = y.entry_seq();
    let mut i: usize = 0;
    while i < n
        invariant
            i <= n,
            n == xs.len(),
            m == ys.len(),
            n == m,
            unique_keys(ys),
            forall|k: int|
                #![trigger xs[k]]
                0 <= k < i ==> key_index(ys, xs[k].0@, 0) is Some && json_equiv(
                    xs[k].1,
                    ys[key_index(ys, xs[k].0@, 0)->0].1,
                ),
        decreases n - i,
    {
        let (key, value) = x.entry(i);
        proof {
            lemma_key_index(ys, key@, 0);
        }
        match y.position(key.as_str()) {
            None => {
                proof {
                    let k = xs[i as int].0@;
                    assert(key_index(ys, k, 0) is None);
                    assert(!(key_index(ys, k, 0) is Some && json_equiv(
                        xs[i as int].1,
                        ys[key_index(ys, k, 0)->0].1,
                    )));
                }
                return false;
            },
            Some(j) => {
                assert(key_index(ys, xs[i as int].0@, 0) == Some(j as int));
                let (_, other) = y.entry(j);
                if !json_equal(value, other) {
                    proof {
                        let k = xs[i as int].0@;
                        assert(!(key_index(ys, k, 0) is Some && json_equiv(
                            xs[i as int].1,
                            ys[key_index(ys, k, 0)->0].1,
                        )));
                    }
                    return false;
                }
            },
        }
        i = i + 1;
    }
    true
}

} // verus!


verus! {

impl Clone for JsonValue {
    fn clone(&self) -> (r: Self)
        ensures
            json_view(r) == json_view(*self),
    {
        self.copy()
    }
}

impl PartialEq for JsonValue {
    fn eq(&self, other: &Self) -> (r: bool) {
        json_equal(self, other)
    }
}

impl vstd::std_specs::cmp::PartialEqSpecImpl for JsonValue {
    open spec fn obeys_eq_spec() -> bool {
        true
    }

    open spec fn eq_spec(&self, other: &Self) -> bool {
        json_equiv(*self, *other)
    }
}

} // verus!

verus! {

impl Clone for JsonObject {
    fn clone(&self) -> (r: Self)
        ensures
            r.view() == self.view(),
    {
        self.copy()
    }
}

impl PartialEq for JsonObject {
    fn eq(&self, other: &Self) -> (r: bool) {
        objects_equal(self, other)
    }
}

impl vstd::std_specs::cmp::PartialEqSpecImpl for JsonObject {
    open spec fn obeys_eq_spec() -> bool {
        true
    }

    open spec fn eq_spec(&self, other: &Self) -> bool {
        entries_equiv(self.entry_seq(), other.entry_seq())
    }
}

} // verus!

verus! {

/// The content of an object value is the object's mapping.
pub broadcast proof fn lemma_object_value_view(o: JsonObject)
    ensures
        #[trigger] json_view(JsonValue::Object(o)) == JsonView::Object(o.view()),
{
}

} // verus!

verus! {

/// Whether the entries' keys strictly increase in lexicographic order.
pub open spec fn keys_increasing(s: Seq<(String, JsonValue)>) -> bool {
    forall|i: int, j: int|
        0 <= i < j < s.len() ==> crate::text::text_le((#[trigger] s[i]).0@, (#[trigger] s[j]).0@) && s[i].0@
            != s[j].0@
}

/// Whether every object inside a value (the value itself included) keeps
/// its keys in increasing order.
pub open spec fn json_canonical(v: JsonValue) -> bool
    decreases v,
{
    match v {
        JsonValue::Array(items) => forall|i: int| 0 <= i < items@.len() ==> json_canonical(#[trigger] items@[i]),
        JsonValue::Object(o) => keys_increasing(o.entry_seq()) && forall|i: int|
            0 <= i < o.entry_seq().len() ==> json_canonical(#[trigger] o.entry_seq()[i].1),
        _ => true,
    }
}

/// Inserting an entry under a new key, at any position among entries with
/// unique keys, adds that key to the mapping.
proof fn lemma_entries_view_insert(s: Seq<(String, JsonValue)>, p: int, e: (String, JsonValue))
    requires
        unique_keys(s),
        0 <= p <= s.len(),
        forall|i: int| 0 <= i < s.len() ==> (#[trigger] s[i]).0@ != e.0@,
    ensures
        unique_keys(s.insert(p, e)),
        entries_view(s.insert(p, e)) == entries_view(s).insert(e.0@, json_view(e.1)),
{
    let t = s.insert(p, e);
    assert(unique_keys(t)) by {
        assert forall|a: int, b: int| 0 <= a < b < t.len() implies (#[trigger] t[a]).0@ != (#[trigger] t[b]).0@ by {
            if a < p {
                assert(t[a] == s[a]);
            } else if a > p {
                assert(t[a] == s[a - 1]);
            }
            if b < p {
                assert(t[b] == s[b]);
            } else if b > p {
                assert(t[b] == s[b - 1]);
            }
        }
    }
    let m = entries_view(s).insert(e.0@, json_view(e.1));
    assert forall|k: Seq<char>| #[trigger] entries_view(t).contains_key(k) <==> m.contains_key(k) by {
        lemma_entries_map_dom(t, k);
        lemma_entries_map_dom(s, k);
        if exists|i: int| 0 <= i < t.len() && (#[trigger] t[i]).0@ == k {
            let i = choose|i: int| 0 <= i < t.len() && (#[trigger] t[i]).0@ == k;
            if i < p {
                assert(t[i] == s[i]);
            } else if i > p {
                assert(t[i] == s[i - 1]);
            }
        }
        if exists|i: int| 0 <= i < s.len() && (#[trigger] s[i]).0@ == k {
            let i = choose|i: int| 0 <= i < s.len() && (#[trigger] s[i]).0@ == k;
            if i < p {
                assert(t[i] == s[i]);
            } else {
                assert(t[i + 1] == s[i]);
            }
        }
        if k == e.0@ {
            assert(t[p] == e);
        }
    }
    assert forall|k: Seq<char>| #[trigger] entries_view(t).contains_key(k) implies entries_view(t)[k] == m[k] by {
        lemma_entries_map_dom(t, k);
        let i = choose|i: int| 0 <= i < t.len() && (#[trigger] t[i]).0@ == k;
        lemma_entries_map_value(t, i);
        if i == p {
            assert(t[i] == e);
        } else {
            let j = if i < p {
                i
            } else {
                i - 1
            };
            assert(t[i] == s[j]);
            lemma_entries_map_value(s, j);
        }
    }
    assert(entries_view(t) =~= m);
}

/// Inserting an entry at its place in order keeps the keys increasing.
proof fn lemma_insert_keeps_increasing(s: Seq<(String, JsonValue)>, p: int, e: (String, JsonValue))
    requires
        keys_increasing(s),
        0 <= p <= s.len(),
        forall|k: int| 0 <= k < p ==> crate::text::text_le((#[trigger] s[k]).0@, e.0@),
        p < s.len() ==> !crate::text::text_le(s[p].0@, e.0@),
        forall|k: int| 0 <= k < s.len() ==> (#[trigger] s[k]).0@ != e.0@,
    ensures
        keys_increasing(s.insert(p, e)),
{
    let t = s.insert(p, e);
    assert forall|a: int, b: int| 0 <= a < b < t.len() implies crate::text::text_le(
        (#[trigger] t[a]).0@,
        (#[trigger] t[b]).0@,
    ) && t[a].0@ != t[b].0@ by {
        if a < p && b < p {
            assert(t[a] == s[a] && t[b] == s[b]);
        } else if a < p && b == p {
            assert(t[a] == s[a] && t[b] == e);
        } else if a < p {
            assert(t[a] == s[a] && t[b] == s[b - 1]);
        } else if a == p {
            assert(t[a] == e && t[b] == s[b - 1]);
            crate::text::lemma_text_le_order(s[p].0@, e.0@, e.0@);
            if b - 1 > p {
                crate::text::lemma_text_le_order(e.0@, s[p].0@, s[b - 1].0@);
            }
        } else {
            assert(t[a] == s[a - 1] && t[b] == s[b - 1]);
        }
    }
}

/// `value` with the keys of every object inside it put in increasing order;
/// the content is unchanged.
#[verifier::loop_isolation(false)]
pub fn canonicalize_json_value(value: &JsonValue) -> (r: JsonValue)
    ensures
        json_view(r) == json_view(*value),
        json_canonical(r),
    decreases *value,
{
    match value {
        JsonValue::Null => JsonValue::Null,
        JsonValue::Bool(b) => JsonValue::Bool(*b),
        JsonValue::Number(n) => JsonValue::Number(*n),
        JsonValue::String(s) => JsonValue::String(s.clone()),
        JsonValue::Array(items) => {
            let mut out: Vec<JsonValue> = Vec::new();
            let mut i: usize = 0;
            while i < items.len()
                invariant
                    i <= items@.len(),
                    out@.len() == i,
                    forall|k: int| 0 <= k < i ==> json_view(#[trigger] out@[k]) == json_view(items@[k]),
                    forall|k: int| 0 <= k < i ==> json_canonical(#[trigger] out@[k]),
                decreases items.len() - i,
            {
                let c = canonicalize_json_value(&items[i]);
                out.push(c);
                i = i + 1;
            }
            let r = JsonValue::Array(out);
            assert(json_view(r)->Array_0 =~= json_view(*value)->Array_0);
            r
        },
        JsonValue::Object(o) => JsonValue::Object(o.canonical()),
    }
}

impl JsonObject {
    /// The object with its entries in increasing key order and each value
    /// canonical; the mapping is unchanged.
    pub fn canonical(&self) -> (r: JsonObject)
        ensures
            r.view() == self.view(),
            keys_increasing(r.entry_seq()),
            forall|i: int| 0 <= i < r.entry_seq().len() ==> json_canonical(#[trigger] r.entry_seq()[i].1),
        decreases *self,
    {
        proof {
            use_type_invariant(self);
        }
        let mut out: Vec<(String, JsonValue)> = Vec::new();
        let mut i: usize = 0;
        assert(self.entries@.take(0) =~= Seq::<(String, JsonValue)>::empty());
        while i < self.entries.len()
            invariant
                i <= self.entries@.len(),
                unique_keys(self.entries@),
                keys_increasing(out@),
                forall|k: int| 0 <= k < out@.len() ==> json_canonical(#[trigger] out@[k].1),
                entries_view(out@) == entries_view(self.entries@.take(i as int)),
            decreases self.entries.len() - i,
        {
            let key = self.entries[i].0.clone();
            let value = canonicalize_json_value(&self.entries[i].1);
            let kc = crate::text::chars_of(key.as_str());
            let mut p: usize = 0;
            while p < out.len() && crate::text::text_le_exec(&crate::text::chars_of(out[p].0.as_str()), &kc)
                invariant
                    p <= out@.len(),
                    kc@ == key@,
                    forall|k: int| 0 <= k < p ==> crate::text::text_le((#[trigger] out@[k]).0@, key@),
                decreases out.len() - p,
            {
                p = p + 1;
            }
            proof {
                let s = out@;
                let pre = self.entries@.take(i as int);
                assert(unique_keys(s)) by {
                    assert forall|a: int, b: int| 0 <= a < b < s.len() implies (#[trigger] s[a]).0@
                        != (#[trigger] s[b]).0@ by {}
                }
                assert(self.entries@[i as int].0@ == key@);
                lemma_entries_map_dom(pre, key@);
                if entries_view(pre).contains_key(key@) {
                    let j = choose|j: int| 0 <= j < pre.len() && (#[trigger] pre[j]).0@ == key@;
                    assert(pre[j] == self.entries@[j]);
                }
                lemma_entries_map_dom(s, key@);
                assert forall|k: int| 0 <= k < s.len() implies (#[trigger] s[k]).0@ != key@ by {
                    if s[k].0@ == key@ {
                        assert(entries_view(s).contains_key(key@));
                    }
                }
                lemma_entries_view_insert(s, p as int, (key, value));
                lemma_insert_keeps_increasing(s, p as int, (key, value));
                assert(self.entries@.take(i + 1).drop_last() =~= pre);
                assert(self.entries@.take(i + 1).last() == self.entries@[i as int]);
            }
            let ghost s0 = out@;
            out.insert(p, (key, value));
            proof {
                assert forall|k: int| 0 <= k < out@.len() implies json_canonical(#[trigger] out@[k].1) by {
                    if k < p {
                        assert(out@[k] == s0[k]);
                    } else if k > p {
                        assert(out@[k] == s0[k - 1]);
                    }
                }
            }
            i = i + 1;
        }
        assert(self.entries@.take(i as int) =~= self.entries@);
        proof {
            assert(unique_keys(out@)) by {
                assert forall|a: int, b: int| 0 <= a < b < out@.len() implies (#[trigger] out@[a]).0@
                    != (#[trigger] out@[b]).0@ by {}
            }
        }
        JsonObject { entries: out }
    }
}

} // verus!

verus! {

/// Whether two values are laid out alike: arrays item by item, objects with
/// the same keys at the same positions and values laid out alike, anything
/// else with the same content.
pub open spec fn same_layout(a: JsonValue, b: JsonValue) -> bool
    decreases a,
{
    match (a, b) {
        (JsonValue::Array(x), JsonValue::Array(y)) => x@.len() == y@.len() && forall|i: int|
            0 <= i < x@.len() ==> same_layout(x@[i], #[trigger] y@[i]),
        (JsonValue::Object(x), JsonValue::Object(y)) => {
            let xs = x.entry_seq();
            let ys = y.entry_seq();
            xs.len() == ys.len() && forall|i: int|
                #![trigger xs[i]]
                0 <= i < xs.len() ==> xs[i].0@ == ys[i].0@ && same_layout(xs[i].1, ys[i].1)
        },
        _ => json_view(a) == json_view(b),
    }
}

/// Increasing keys are unique.
proof fn lemma_increasing_unique(s: Seq<(String, JsonValue)>)
    requires
        keys_increasing(s),
    ensures
        unique_keys(s),
{
    assert forall|a: int, b: int| 0 <= a < b < s.len() implies (#[trigger] s[a]).0@ != (#[trigger] s[b]).0@ by {}
}

/// Two lists of entries with increasing keys and the same mapping hold the
/// same key at each position.
proof fn lemma_increasing_keys_agree(xs: Seq<(String, JsonValue)>, ys: Seq<(String, JsonValue)>, n: int)
    requires
        keys_increasing(xs),
        keys_increasing(ys),
        xs.len() == ys.len(),
        entries_view(xs) == entries_view(ys),
        0 <= n <= xs.len(),
    ensures
        forall|k: int| 0 <= k < n ==> (#[trigger] xs[k]).0@ == ys[k].0@,
    decreases n,
{
    if n > 0 {
        lemma_increasing_keys_agree(xs, ys, n - 1);
        let i = n - 1;
        let a = xs[i].0@;
        let b = ys[i].0@;
        lemma_increasing_unique(xs);
        lemma_increasing_unique(ys);
        lemma_entries_map_value(xs, i);
        lemma_entries_map_dom(ys, a);
        let j = choose|j: int| 0 <= j < ys.len() && (#[trigger] ys[j]).0@ == a;
        if j < i {
            assert(xs[j].0@ == ys[j].0@);
            assert(xs[j].0@ != xs[i].0@);
        }
        crate::text::lemma_text_le_order(b, b, b);
        assert(crate::text::text_le(b, a));
        lemma_entries_map_value(ys, i);
        lemma_entries_map_dom(xs, b);
        let h = choose|h: int| 0 <= h < xs.len() && (#[trigger] xs[h]).0@ == b;
        if h < i {
            assert(xs[h].0@ == ys[h].0@);
            assert(ys[h].0@ != ys[i].0@);
        }
        crate::text::lemma_text_le_order(a, a, a);
        assert(crate::text::text_le(a, b));
        crate::text::lemma_text_le_order(a, b, a);
    }
}

/// The canonical form depends on the content alone: two canonical values
/// with the same content are laid out alike, so they are written out alike.
pub proof fn lemma_canonical_layout_unique(a: JsonValue, b: JsonValue)
    requires
        json_canonical(a),
        json_canonical(b),
        json_view(a) == json_view(b),
    ensures
        same_layout(a, b),
    decreases a,
{
    match (a, b) {
        (JsonValue::Array(x), JsonValue::Array(y)) => {
            assert(json_view(a)->Array_0.len() == x@.len());
            assert(json_view(b)->Array_0.len() == y@.len());
            assert forall|i: int| 0 <= i < x@.len() implies same_layout(x@[i], #[trigger] y@[i]) by {
                assert(json_view(a)->Array_0[i] == json_view(x@[i]));
                assert(json_view(b)->Array_0[i] == json_view(y@[i]));
                lemma_canonical_layout_unique(x@[i], y@[i]);
            }
        },
        (JsonValue::Object(x), JsonValue::Object(y)) => {
            let xs = x.entry_seq();
            let ys = y.entry_seq();
            lemma_increasing_unique(xs);
            lemma_increasing_unique(ys);
            assert(entries_view(xs) == entries_view(ys));
            lemma_entries_map_finite(xs);
            lemma_entries_map_finite(ys);
            lemma_increasing_keys_agree(xs, ys, xs.len() as int);
            assert forall|i: int| #![trigger xs[i]] 0 <= i < xs.len() implies xs[i].0@ == ys[i].0@ && same_layout(
                xs[i].1,
                ys[i].1,
            ) by {
                lemma_entries_map_value(xs, i);
                lemma_entries_map_value(ys, i);
                lemma_canonical_layout_unique(xs[i].1, ys[i].1);
            }
        },
        _ => {},
    }
}

} // verus!
