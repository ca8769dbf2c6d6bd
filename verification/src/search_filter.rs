//! The predicates of an asset search: how a filter is checked against the
//! tag definitions, and whether an asset passes it.
//!
//! Numbers are compared as binary64 floats. The library holds such a number
//! as its IEEE-754 bit pattern, and the float work itself (reading a JSON
//! value as a float, ordering two floats, writing one as text) is handed in
//! through `NumberRules`.
use vstd::prelude::*;
use crate::json::{JsonNumber, JsonValue, json_as_bool, json_view};
use crate::search::{
    AssetRecord, AssetSearchError, AssetSearchFilter, AssetSearchFilterGroup, AssetSearchQuery, CategoryLink,
    TagDefinitionMeta, known_operator, refers_to_type,
    TagValueRecord, required_bool_value, required_integer_value, compare_bool, compare_missing, compare_ord,
    external_entity_field, filter_i64, match_external_entity_type_filter, parse_external_entity_type_id,
    refused_with, text_compare, value_as_i64,
};
use crate::text::{
    contains_chars, contains_text, ascii_lower, chars_of, eq_lit, i64_text, int_text, nat_text, string_of, text_le, text_le_exec,
    to_ascii_lower, u64_text,
};

verus! {

/// How two binary64 numbers compare: the four outcomes of `partial_cmp`.
#[derive(Debug, Clone, Copy, PartialEq, Eq, Structural)]
pub enum NumberOrder {
    Less,
    Equal,
    Greater,
    Unordered,
}

/// An order turned around.
pub open spec fn flipped(o: NumberOrder) -> NumberOrder {
    match o {
        NumberOrder::Less => NumberOrder::Greater,
        NumberOrder::Greater => NumberOrder::Less,
        other => other,
    }
}

/// The float work of a search, each a function of its arguments alone:
/// `read` gives the bit pattern of the binary64 a JSON value stands for (a
/// number, or a text that spells one), if any; `order` compares two bit
/// patterns as binary64 numbers; `text` writes the binary64 with the given
/// bits as a JSON number's text.
pub struct NumberRules<R, O, T> {
    pub read: R,
    pub order: O,
    pub text: T,
}

impl<R: Fn(&JsonValue) -> Option<u64>, O: Fn(u64, u64) -> NumberOrder, T: Fn(u64) -> String> NumberRules<
    R,
    O,
    T,
> {
    /// The number `read` gives for `v`.
    pub open spec fn number(self, v: JsonValue) -> Option<u64> {
        choose|r: Option<u64>| call_ensures(self.read, (&v,), r)
    }

    /// How `order` compares `a` with `b`.
    pub open spec fn order_of(self, a: u64, b: u64) -> NumberOrder {
        choose|r: NumberOrder| call_ensures(self.order, (a, b), r)
    }

    /// The text `text` writes for the float with bits `b`.
    pub open spec fn float_text(self, b: u64) -> Seq<char> {
        (choose|s: String| call_ensures(self.text, (b,), s))@
    }

    /// Whether `order` compares either way round alike: `b` against `a` is
    /// `a` against `b` turned around, as for `partial_cmp` on floats.
    pub open spec fn orders_consistently(self) -> bool {
        forall|a: u64, b: u64| #[trigger] self.order_of(a, b) == flipped(self.order_of(b, a))
    }

    /// The three may be called on any argument, and each gives one result
    /// for one argument.
    pub open spec fn wf(self) -> bool {
        &&& forall|v: &JsonValue| call_requires(self.read, (v,))
        &&& forall|v: &JsonValue, r1: Option<u64>, r2: Option<u64>|
            call_ensures(self.read, (v,), r1) && call_ensures(self.read, (v,), r2) ==> r1 == r2
        &&& forall|a: u64, b: u64| call_requires(self.order, (a, b))
        &&& forall|a: u64, b: u64, r1: NumberOrder, r2: NumberOrder|
            call_ensures(self.order, (a, b), r1) && call_ensures(self.order, (a, b), r2) ==> r1 == r2
        &&& forall|b: u64| call_requires(self.text, (b,))
        &&& forall|b: u64, s1: String, s2: String|
            call_ensures(self.text, (b,), s1) && call_ensures(self.text, (b,), s2) ==> s1@ == s2@
    }

    /// The number `v` stands for (see `number`).
    pub fn read_number(&self, v: &JsonValue) -> (r: Option<u64>)
        requires
            self.wf(),
        ensures
            r == self.number(*v),
    {
        let r = (self.read)(v);
        proof {
            assert(call_ensures(self.read, (v,), r));
        }
        r
    }

    /// The number an integer stands for: the reading of it as a JSON number.
    pub fn integer_number(&self, i: i64) -> (r: Option<u64>)
        requires
            self.wf(),
        ensures
            r == self.number(integer_json(i)),
    {
        let v = JsonValue::Number(JsonNumber::from_i64(i));
        self.read_number(&v)
    }

    /// How `a` compares with `b` (see `order_of`).
    pub fn compare_numbers(&self, a: u64, b: u64) -> (r: NumberOrder)
        requires
            self.wf(),
        ensures
            r == self.order_of(a, b),
    {
        (self.order)(a, b)
    }

    /// The text of the float with bits `b` (see `float_text`).
    pub fn write_float(&self, b: u64) -> (s: String)
        requires
            self.wf(),
        ensures
            s@ == self.float_text(b),
    {
        (self.text)(b)
    }
}

/// The JSON number an integer is written as.
pub open spec fn integer_json(i: i64) -> JsonValue {
    JsonValue::Number(if i < 0 { JsonNumber::NegInt(i) } else { JsonNumber::PosInt(i as u64) })
}

/// The text a JSON value stands for: a text itself, a number as JSON writes
/// it, `true` or `false`; nothing for other values.
pub open spec fn value_text<R: Fn(&JsonValue) -> Option<u64>, O: Fn(u64, u64) -> NumberOrder, T: Fn(u64) -> String>(
    rules: NumberRules<R, O, T>,
    v: JsonValue,
) -> Option<Seq<char>> {
    match v {
        JsonValue::String(s) => Some(s@),
        JsonValue::Number(JsonNumber::PosInt(u)) => Some(nat_text(u as nat)),
        JsonValue::Number(JsonNumber::NegInt(i)) => Some(int_text(i as int)),
        JsonValue::Number(JsonNumber::Float(b)) => Some(rules.float_text(b)),
        JsonValue::Bool(b) => Some(
            if b {
                "true"@
            } else {
                "false"@
            },
        ),
        _ => None,
    }
}

/// The text a JSON value stands for (see `value_text`).
pub fn value_as_string<R: Fn(&JsonValue) -> Option<u64>, O: Fn(u64, u64) -> NumberOrder, T: Fn(u64) -> String>(
    value: &JsonValue,
    rules: &NumberRules<R, O, T>,
) -> (r: Option<String>)
    requires
        rules.wf(),
    ensures
        match r {
            Some(s) => value_text(*rules, *value) == Some(s@),
            None => value_text(*rules, *value) is None,
        },
{
    match value {
        JsonValue::String(s) => Some(s.clone()),
        JsonValue::Number(n) => match n {
            JsonNumber::PosInt(u) => Some(u64_text(*u)),
            JsonNumber::NegInt(i) => Some(i64_text(*i)),
            JsonNumber::Float(b) => Some(rules.write_float(*b)),
        },
        JsonValue::Bool(b) => {
            proof {
                reveal_strlit("true");
                reveal_strlit("false");
            }
            if *b {
                Some(String::from_str("true"))
            } else {
                Some(String::from_str("false"))
            }
        },
        _ => None,
    }
}


/// The text a filter compares with under operator `op`: its value, which
/// must stand for a text; the refusal message otherwise.
pub open spec fn filter_text<R: Fn(&JsonValue) -> Option<u64>, O: Fn(u64, u64) -> NumberOrder, T: Fn(u64) -> String>(
    rules: NumberRules<R, O, T>,
    filter: AssetSearchFilter,
    op: Seq<char>,
) -> Result<Seq<char>, Seq<char>> {
    match filter.value {
        None => Err("operator `"@ + op + "` requires `value`"@),
        Some(v) => match value_text(rules, v) {
            Some(t) => Ok(t),
            None => Err("operator `"@ + op + "` requires text-compatible `value`"@),
        },
    }
}

/// The text a filter compares with under operator `op` (see `filter_text`).
pub fn required_text_value<R: Fn(&JsonValue) -> Option<u64>, O: Fn(u64, u64) -> NumberOrder, T: Fn(u64) -> String>(
    filter: &AssetSearchFilter,
    op_name: &str,
    rules: &NumberRules<R, O, T>,
) -> (r: Result<Option<String>, AssetSearchError>)
    requires
        rules.wf(),
    ensures
        match filter_text(*rules, *filter, op_name@) {
            Ok(t) => r matches Ok(Some(s)) && s@ == t,
            Err(m) => refused_with(r, m),
        },
{
    match &filter.value {
        None => {
            let mut m = String::from_str("operator `");
            m.append(op_name);
            m.append("` requires `value`");
            Err(AssetSearchError::InvalidRequest(m))
        },
        Some(v) => match value_as_string(v, rules) {
            Some(t) => Ok(Some(t)),
            None => {
                let mut m = String::from_str("operator `");
                m.append(op_name);
                m.append("` requires text-compatible `value`");
                Err(AssetSearchError::InvalidRequest(m))
            },
        },
    }
}

/// The two texts a `between` filter compares with: its two values, each
/// standing for a text; the refusal message otherwise.
pub open spec fn filter_text_bounds<R: Fn(&JsonValue) -> Option<u64>, O: Fn(u64, u64) -> NumberOrder, T: Fn(u64) -> String>(
    rules: NumberRules<R, O, T>,
    filter: AssetSearchFilter,
) -> Result<(Seq<char>, Seq<char>), Seq<char>> {
    match filter.values {
        None => Err("operator `between` requires `values`"@),
        Some(vs) => if vs@.len() != 2 {
            Err("operator `between` requires exactly 2 values"@)
        } else {
            match (value_text(rules, vs@[0]), value_text(rules, vs@[1])) {
                (Some(lo), Some(hi)) => Ok((lo, hi)),
                _ => Err("operator `between` requires text-compatible bounds"@),
            }
        },
    }
}

/// The two texts a `between` filter compares with (see `filter_text_bounds`).
pub fn required_text_between_values<R: Fn(&JsonValue) -> Option<u64>, O: Fn(u64, u64) -> NumberOrder, T: Fn(u64) -> String>(
    filter: &AssetSearchFilter,
    rules: &NumberRules<R, O, T>,
) -> (r: Result<(Option<String>, Option<String>), AssetSearchError>)
    requires
        rules.wf(),
    ensures
        match filter_text_bounds(*rules, *filter) {
            Ok((lo, hi)) => r matches Ok((Some(a), Some(b))) && a@ == lo && b@ == hi,
            Err(m) => refused_with(r, m),
        },
{
    match &filter.values {
        None => Err(AssetSearchError::InvalidRequest(String::from_str("operator `between` requires `values`"))),
        Some(vs) => {
            if vs.len() != 2 {
                return Err(
                    AssetSearchError::InvalidRequest(String::from_str("operator `between` requires exactly 2 values")),
                );
            }
            let lo = value_as_string(&vs[0], rules);
            let hi = value_as_string(&vs[1], rules);
            match (lo, hi) {
                (Some(a), Some(b)) => Ok((Some(a), Some(b))),
                _ => Err(
                    AssetSearchError::InvalidRequest(
                        String::from_str("operator `between` requires text-compatible bounds"),
                    ),
                ),
            }
        },
    }
}

/// The number a filter compares with under operator `op`: its value, which
/// must stand for a number; the refusal message otherwise.
pub open spec fn filter_number<R: Fn(&JsonValue) -> Option<u64>, O: Fn(u64, u64) -> NumberOrder, T: Fn(u64) -> String>(
    rules: NumberRules<R, O, T>,
    filter: AssetSearchFilter,
    op: Seq<char>,
) -> Result<u64, Seq<char>> {
    match filter.value {
        None => Err("operator `"@ + op + "` requires `value`"@),
        Some(v) => match rules.number(v) {
            Some(n) => Ok(n),
            None => Err("operator `"@ + op + "` requires numeric `value`"@),
        },
    }
}

/// The number a filter compares with under operator `op` (see
/// `filter_number`).
pub fn required_numeric_value<R: Fn(&JsonValue) -> Option<u64>, O: Fn(u64, u64) -> NumberOrder, T: Fn(u64) -> String>(
    filter: &AssetSearchFilter,
    op_name: &str,
    rules: &NumberRules<R, O, T>,
) -> (r: Result<Option<u64>, AssetSearchError>)
    requires
        rules.wf(),
    ensures
        match filter_number(*rules, *filter, op_name@) {
            Ok(n) => r == Ok::<Option<u64>, AssetSearchError>(Some(n)),
            Err(m) => refused_with(r, m),
        },
{
    match &filter.value {
        None => {
            let mut m = String::from_str("operator `");
            m.append(op_name);
            m.append("` requires `value`");
            Err(AssetSearchError::InvalidRequest(m))
        },
        Some(v) => match rules.read_number(v) {
            Some(n) => Ok(Some(n)),
            None => {
                let mut m = String::from_str("operator `");
                m.append(op_name);
                m.append("` requires numeric `value`");
                Err(AssetSearchError::InvalidRequest(m))
            },
        },
    }
}

/// The two numbers a `between` filter compares with: its two values, each
/// standing for a number; the refusal message otherwise.
pub open spec fn filter_number_bounds<R: Fn(&JsonValue) -> Option<u64>, O: Fn(u64, u64) -> NumberOrder, T: Fn(u64) -> String>(
    rules: NumberRules<R, O, T>,
    filter: AssetSearchFilter,
) -> Result<(u64, u64), Seq<char>> {
    match filter.values {
        None => Err("operator `between` requires `values`"@),
        Some(vs) => if vs@.len() != 2 {
            Err("operator `between` requires exactly 2 values"@)
        } else {
            match (rules.number(vs@[0]), rules.number(vs@[1])) {
                (Some(lo), Some(hi)) => Ok((lo, hi)),
                _ => Err("operator `between` requires numeric bounds"@),
            }
        },
    }
}

/// The two numbers a `between` filter compares with (see
/// `filter_number_bounds`).
pub fn required_numeric_between_values<R: Fn(&JsonValue) -> Option<u64>, O: Fn(u64, u64) -> NumberOrder, T: Fn(u64) -> String>(
    filter: &AssetSearchFilter,
    rules: &NumberRules<R, O, T>,
) -> (r: Result<(Option<u64>, Option<u64>), AssetSearchError>)
    requires
        rules.wf(),
    ensures
        match filter_number_bounds(*rules, *filter) {
            Ok((lo, hi)) => r == Ok::<(Option<u64>, Option<u64>), AssetSearchError>((Some(lo), Some(hi))),
            Err(m) => refused_with(r, m),
        },
{
    match &filter.values {
        None => Err(AssetSearchError::InvalidRequest(String::from_str("operator `between` requires `values`"))),
        Some(vs) => {
            if vs.len() != 2 {
                return Err(
                    AssetSearchError::InvalidRequest(String::from_str("operator `between` requires exactly 2 values")),
                );
            }
            let lo = rules.read_number(&vs[0]);
            let hi = rules.read_number(&vs[1]);
            match (lo, hi) {
                (Some(a), Some(b)) => Ok((Some(a), Some(b))),
                _ => Err(
                    AssetSearchError::InvalidRequest(String::from_str("operator `between` requires numeric bounds")),
                ),
            }
        },
    }
}


/// The refusal an `Err` carries, if any.
pub open spec fn problem_of<A>(r: Result<A, Seq<char>>) -> Option<Seq<char>> {
    match r {
        Ok(_) => None,
        Err(m) => Some(m),
    }
}

/// The operators that compare with one value.
pub open spec fn is_order_op(op: Seq<char>) -> bool {
    op == "eq"@ || op == "lt"@ || op == "lte"@ || op == "gt"@ || op == "gte"@
}

/// The operators that ask whether a value is there.
pub open spec fn is_null_op(op: Seq<char>) -> bool {
    op == "is_null"@ || op == "is_not_null"@
}

/// The refusal of an operator a field does not know.
pub open spec fn unsupported_operator(op: Seq<char>) -> Seq<char> {
    "unsupported operator `"@ + op + "`"@
}

/// Why a filter on a numeric field is refused, if it is.
pub open spec fn numeric_filter_problem<R: Fn(&JsonValue) -> Option<u64>, O: Fn(u64, u64) -> NumberOrder, T: Fn(u64) -> String>(
    rules: NumberRules<R, O, T>,
    filter: AssetSearchFilter,
) -> Option<Seq<char>> {
    let op = ascii_lower(filter.op@);
    if is_order_op(op) {
        problem_of(filter_number(rules, filter, op))
    } else if op == "between"@ {
        problem_of(filter_number_bounds(rules, filter))
    } else if is_null_op(op) {
        None
    } else {
        Some(unsupported_operator(filter.op@))
    }
}

/// Checks a filter on a numeric field (see `numeric_filter_problem`).
pub fn validate_numeric_filter<R: Fn(&JsonValue) -> Option<u64>, O: Fn(u64, u64) -> NumberOrder, T: Fn(u64) -> String>(
    filter: &AssetSearchFilter,
    rules: &NumberRules<R, O, T>,
) -> (r: Result<(), AssetSearchError>)
    requires
        rules.wf(),
    ensures
        match numeric_filter_problem(*rules, *filter) {
            Some(m) => refused_with(r, m),
            None => r is Ok,
        },
{
    let op = to_ascii_lower(filter.op.as_str());
    let op_s = string_of(&op);
    if eq_lit(&op, "eq") || eq_lit(&op, "lt") || eq_lit(&op, "lte") || eq_lit(&op, "gt") || eq_lit(&op, "gte") {
        match required_numeric_value(filter, op_s.as_str(), rules) {
            Ok(_) => Ok(()),
            Err(e) => Err(e),
        }
    } else if eq_lit(&op, "between") {
        match required_numeric_between_values(filter, rules) {
            Ok(_) => Ok(()),
            Err(e) => Err(e),
        }
    } else if eq_lit(&op, "is_null") || eq_lit(&op, "is_not_null") {
        Ok(())
    } else {
        let mut m = String::from_str("unsupported operator `");
        m.append(filter.op.as_str());
        m.append("`");
        Err(AssetSearchError::InvalidRequest(m))
    }
}

/// The operators that compare texts with one value.
pub open spec fn is_text_op(op: Seq<char>) -> bool {
    op == "eq"@ || op == "contains"@ || op == "lt"@ || op == "lte"@ || op == "gt"@ || op == "gte"@
}

/// Why a filter on a text field is refused, if it is.
pub open spec fn text_filter_problem<R: Fn(&JsonValue) -> Option<u64>, O: Fn(u64, u64) -> NumberOrder, T: Fn(u64) -> String>(
    rules: NumberRules<R, O, T>,
    filter: AssetSearchFilter,
) -> Option<Seq<char>> {
    let op = ascii_lower(filter.op@);
    if is_text_op(op) {
        problem_of(filter_text(rules, filter, op))
    } else if op == "between"@ {
        problem_of(filter_text_bounds(rules, filter))
    } else if is_null_op(op) {
        None
    } else {
        Some(unsupported_operator(filter.op@))
    }
}

/// Checks a filter on a text field (see `text_filter_problem`).
pub fn validate_text_filter<R: Fn(&JsonValue) -> Option<u64>, O: Fn(u64, u64) -> NumberOrder, T: Fn(u64) -> String>(
    filter: &AssetSearchFilter,
    rules: &NumberRules<R, O, T>,
) -> (r: Result<(), AssetSearchError>)
    requires
        rules.wf(),
    ensures
        match text_filter_problem(*rules, *filter) {
            Some(m) => refused_with(r, m),
            None => r is Ok,
        },
{
    let op = to_ascii_lower(filter.op.as_str());
    let op_s = string_of(&op);
    if eq_lit(&op, "eq") || eq_lit(&op, "contains") || eq_lit(&op, "lt") || eq_lit(&op, "lte") || eq_lit(&op, "gt")
        || eq_lit(&op, "gte") {
        match required_text_value(filter, op_s.as_str(), rules) {
            Ok(_) => Ok(()),
            Err(e) => Err(e),
        }
    } else if eq_lit(&op, "between") {
        match required_text_between_values(filter, rules) {
            Ok(_) => Ok(()),
            Err(e) => Err(e),
        }
    } else if eq_lit(&op, "is_null") || eq_lit(&op, "is_not_null") {
        Ok(())
    } else {
        let mut m = String::from_str("unsupported operator `");
        m.append(filter.op.as_str());
        m.append("`");
        Err(AssetSearchError::InvalidRequest(m))
    }
}

/// The position of the first definition of tag `key` among `defs` from `i`
/// on.
pub open spec fn definition_index(defs: Seq<TagDefinitionMeta>, key: Seq<char>, i: int) -> Option<int>
    decreases defs.len() - i,
{
    if i < 0 || i >= defs.len() {
        None
    } else if defs[i].tag_key@ == key {
        Some(i)
    } else {
        definition_index(defs, key, i + 1)
    }
}

/// The definition of tag `key`: the first among `defs` with that key.
pub open spec fn definition_of(defs: Seq<TagDefinitionMeta>, key: Seq<char>) -> Option<TagDefinitionMeta> {
    match definition_index(defs, key, 0) {
        Some(i) => Some(defs[i]),
        None => None,
    }
}

/// A position found by `definition_index` holds a definition of the key.
proof fn lemma_definition_index(defs: Seq<TagDefinitionMeta>, key: Seq<char>, i: int)
    ensures
        definition_index(defs, key, i) matches Some(j) ==> i <= j < defs.len() && defs[j].tag_key@ == key,
    decreases defs.len() - i,
{
    if 0 <= i < defs.len() && defs[i].tag_key@ != key {
        lemma_definition_index(defs, key, i + 1);
    }
}

/// The position of the definition of tag `key` (see `definition_of`).
fn find_tag_definition(defs: &[TagDefinitionMeta], key: &str) -> (r: Option<usize>)
    ensures
        match r {
            Some(j) => definition_index(defs@, key@, 0) == Some(j as int) && j < defs@.len(),
            None => definition_index(defs@, key@, 0) is None,
        },
{
    let k = chars_of(key);
    let mut i: usize = 0;
    while i < defs.len()
        invariant
            i <= defs@.len(),
            k@ == key@,
            definition_index(defs@, key@, 0) == definition_index(defs@, key@, i as int),
        decreases defs.len() - i,
    {
        let t = chars_of(defs[i].tag_key.as_str());
        if crate::text::eq_chars(&t, &k) {
            return Some(i);
        }
        i = i + 1;
    }
    None
}

/// Whether definition `d` is a reference to entities of type `type_id`.
pub open spec fn is_external_definition(d: TagDefinitionMeta, type_id: i64) -> bool {
    d.value_type@ == "external_entity"@ && d.external_entity_type_id == Some(type_id)
}

/// Whether some definition refers to entities of type `type_id`.
fn has_external_definition(defs: &[TagDefinitionMeta], type_id: i64) -> (b: bool)
    ensures
        b == exists|i: int| 0 <= i < defs@.len() && is_external_definition(#[trigger] defs@[i], type_id),
{
    let mut i: usize = 0;
    while i < defs.len()
        invariant
            i <= defs@.len(),
            forall|k: int| 0 <= k < i ==> !is_external_definition(#[trigger] defs@[k], type_id),
        decreases defs.len() - i,
    {
        let t = chars_of(defs[i].value_type.as_str());
        if eq_lit(&t, "external_entity") && defs[i].external_entity_type_id == Some(type_id) {
            assert(is_external_definition(defs@[i as int], type_id));
            return true;
        }
        i = i + 1;
    }
    false
}

/// The integer a filter compares with under operator `op`: its value, which
/// must stand for an integer; the refusal message otherwise.
pub open spec fn filter_integer(filter: AssetSearchFilter, op: Seq<char>) -> Result<i64, Seq<char>> {
    match filter.value {
        None => Err("operator `"@ + op + "` requires `value`"@),
        Some(v) => match filter_i64(json_view(v)) {
            Some(i) => Ok(i),
            None => Err("operator `"@ + op + "` requires integer `value`"@),
        },
    }
}

/// Why a boolean `eq` filter is refused, if it is.
pub open spec fn bool_value_problem(filter: AssetSearchFilter) -> Option<Seq<char>> {
    match filter.value {
        None => Some("operator `eq` requires `value` for boolean field"@),
        Some(JsonValue::Bool(_)) => None,
        Some(_) => Some("boolean eq filter requires boolean `value`"@),
    }
}

/// Whether tags of type `t` are compared as numbers.
pub open spec fn numeric_tag_type(t: Seq<char>) -> bool {
    t == "integer"@ || t == "decimal"@ || t == "money"@ || t == "external_entity"@
}

/// Why a filter on a tag with definition `meta` is refused, if it is.
pub open spec fn tag_filter_problem<R: Fn(&JsonValue) -> Option<u64>, O: Fn(u64, u64) -> NumberOrder, T: Fn(u64) -> String>(
    rules: NumberRules<R, O, T>,
    filter: AssetSearchFilter,
    meta: TagDefinitionMeta,
) -> Option<Seq<char>> {
    let op = ascii_lower(filter.op@);
    if meta.value_type@ == "boolean"@ {
        if op == "eq"@ {
            bool_value_problem(filter)
        } else if is_null_op(op) {
            None
        } else {
            Some("boolean filters only support eq/is_null/is_not_null"@)
        }
    } else if numeric_tag_type(meta.value_type@) {
        numeric_filter_problem(rules, filter)
    } else {
        text_filter_problem(rules, filter)
    }
}

/// Whether `f` is an asset field compared as a number.
pub open spec fn numeric_asset_field(f: Seq<char>) -> bool {
    f == "id"@ || f == "category_id"@
}

/// Whether `f` is an asset field compared as a text.
pub open spec fn text_asset_field(f: Seq<char>) -> bool {
    f == "asset_tag"@ || f == "display_name"@ || f == "deleted_at"@ || f == "created_at"@
}

/// Why a filter is refused against the tag definitions `defs`, if it is:
/// the free-text predicate only searches with `contains` and a text; an
/// `external_entity(<id>)` field needs a definition referring to that type
/// and takes `eq` with an integer, `is_null` or `is_not_null`; the asset's
/// own fields and defined tags take the operators of their kind with values
/// of their kind; any other field is unknown.
pub open spec fn filter_problem<R: Fn(&JsonValue) -> Option<u64>, O: Fn(u64, u64) -> NumberOrder, T: Fn(u64) -> String>(
    rules: NumberRules<R, O, T>,
    filter: AssetSearchFilter,
    defs: Seq<TagDefinitionMeta>,
) -> Option<Seq<char>> {
    let op = ascii_lower(filter.op@);
    let field = filter.field@;
    if field == "text"@ {
        if op != "contains"@ {
            Some("text predicate only supports contains"@)
        } else {
            problem_of(filter_text(rules, filter, "contains"@))
        }
    } else {
        match external_entity_field(field) {
            Some(type_id) => if !(exists|i: int| 0 <= i < defs.len() && is_external_definition(#[trigger] defs[i], type_id)) {
                Some("unknown external entity type id `"@ + int_text(type_id as int) + "`"@)
            } else if op == "eq"@ {
                problem_of(filter_integer(filter, "eq"@))
            } else if is_null_op(op) {
                None
            } else {
                Some("external_entity(type_id) only supports eq/is_null/is_not_null"@)
            },
            None => if numeric_asset_field(field) {
                numeric_filter_problem(rules, filter)
            } else if text_asset_field(field) {
                text_filter_problem(rules, filter)
            } else {
                match definition_of(defs, field) {
                    None => Some("unknown filter field `"@ + field + "`"@),
                    Some(meta) => tag_filter_problem(rules, filter, meta),
                }
            },
        }
    }
}

/// Checks a filter on a defined tag (see `tag_filter_problem`).
fn validate_tag_filter<R: Fn(&JsonValue) -> Option<u64>, O: Fn(u64, u64) -> NumberOrder, T: Fn(u64) -> String>(
    filter: &AssetSearchFilter,
    meta: &TagDefinitionMeta,
    rules: &NumberRules<R, O, T>,
) -> (r: Result<(), AssetSearchError>)
    requires
        rules.wf(),
    ensures
        match tag_filter_problem(*rules, *filter, *meta) {
            Some(m) => refused_with(r, m),
            None => r is Ok,
        },
{
    let op = to_ascii_lower(filter.op.as_str());
    let t = chars_of(meta.value_type.as_str());
    if eq_lit(&t, "boolean") {
        if eq_lit(&op, "eq") {
            match required_bool_value(filter) {
                Ok(_) => Ok(()),
                Err(e) => Err(e),
            }
        } else if eq_lit(&op, "is_null") || eq_lit(&op, "is_not_null") {
            Ok(())
        } else {
            Err(AssetSearchError::InvalidRequest(String::from_str("boolean filters only support eq/is_null/is_not_null")))
        }
    } else if eq_lit(&t, "integer") || eq_lit(&t, "decimal") || eq_lit(&t, "money") || eq_lit(&t, "external_entity") {
        validate_numeric_filter(filter, rules)
    } else {
        validate_text_filter(filter, rules)
    }
}

/// Checks a filter against the tag definitions `defs` (see
/// `filter_problem`).
pub fn validate_filter<R: Fn(&JsonValue) -> Option<u64>, O: Fn(u64, u64) -> NumberOrder, T: Fn(u64) -> String>(
    filter: &AssetSearchFilter,
    defs: &[TagDefinitionMeta],
    rules: &NumberRules<R, O, T>,
) -> (r: Result<(), AssetSearchError>)
    requires
        rules.wf(),
    ensures
        match filter_problem(*rules, *filter, defs@) {
            Some(m) => refused_with(r, m),
            None => r is Ok,
        },
{
    let op = to_ascii_lower(filter.op.as_str());
    let field = chars_of(filter.field.as_str());
    if eq_lit(&field, "text") {
        if !eq_lit(&op, "contains") {
            return Err(AssetSearchError::InvalidRequest(String::from_str("text predicate only supports contains")));
        }
        return match required_text_value(filter, "contains", rules) {
            Ok(_) => Ok(()),
            Err(e) => Err(e),
        };
    }
    match parse_external_entity_type_id(filter.field.as_str()) {
        Some(type_id) => {
            if !has_external_definition(defs, type_id) {
                let mut m = String::from_str("unknown external entity type id `");
                let t = i64_text(type_id);
                m.append(t.as_str());
                m.append("`");
                return Err(AssetSearchError::InvalidRequest(m));
            }
            if eq_lit(&op, "eq") {
                match required_integer_value(filter, "eq") {
                    Ok(_) => Ok(()),
                    Err(e) => Err(e),
                }
            } else if eq_lit(&op, "is_null") || eq_lit(&op, "is_not_null") {
                Ok(())
            } else {
                Err(
                    AssetSearchError::InvalidRequest(
                        String::from_str("external_entity(type_id) only supports eq/is_null/is_not_null"),
                    ),
                )
            }
        },
        None => {
            if eq_lit(&field, "id") || eq_lit(&field, "category_id") {
                validate_numeric_filter(filter, rules)
            } else if eq_lit(&field, "asset_tag") || eq_lit(&field, "display_name") || eq_lit(&field, "deleted_at")
                || eq_lit(&field, "created_at") {
                validate_text_filter(filter, rules)
            } else {
                match find_tag_definition(defs, filter.field.as_str()) {
                    None => {
                        let mut m = String::from_str("unknown filter field `");
                        m.append(filter.field.as_str());
                        m.append("`");
                        Err(AssetSearchError::InvalidRequest(m))
                    },
                    Some(j) => {
                        proof {
                            lemma_definition_index(defs@, filter.field@, 0);
                        }
                        validate_tag_filter(filter, &defs[j], rules)
                    },
                }
            }
        },
    }
}

/// The refusal of the first refused filter among `filters` from `i` on.
pub open spec fn first_filter_problem<R: Fn(&JsonValue) -> Option<u64>, O: Fn(u64, u64) -> NumberOrder, T: Fn(u64) -> String>(
    rules: NumberRules<R, O, T>,
    filters: Seq<AssetSearchFilter>,
    defs: Seq<TagDefinitionMeta>,
    i: int,
) -> Option<Seq<char>>
    decreases filters.len() - i,
{
    if i < 0 || i >= filters.len() {
        None
    } else {
        match filter_problem(rules, filters[i], defs) {
            Some(p) => Some(p),
            None => first_filter_problem(rules, filters, defs, i + 1),
        }
    }
}

/// The refusal of the first refused filter in the groups from `g` on.
pub open spec fn first_group_problem<R: Fn(&JsonValue) -> Option<u64>, O: Fn(u64, u64) -> NumberOrder, T: Fn(u64) -> String>(
    rules: NumberRules<R, O, T>,
    groups: Seq<AssetSearchFilterGroup>,
    defs: Seq<TagDefinitionMeta>,
    g: int,
) -> Option<Seq<char>>
    decreases groups.len() - g,
{
    if g < 0 || g >= groups.len() {
        None
    } else {
        match first_filter_problem(rules, groups[g].filters@, defs, 0) {
            Some(p) => Some(p),
            None => first_group_problem(rules, groups, defs, g + 1),
        }
    }
}

/// Why a search's filters are refused, if they are: the first refused
/// filter, those every result passes first, then those of the groups in
/// order.
pub open spec fn query_filter_problem<R: Fn(&JsonValue) -> Option<u64>, O: Fn(u64, u64) -> NumberOrder, T: Fn(u64) -> String>(
    rules: NumberRules<R, O, T>,
    query: AssetSearchQuery,
    defs: Seq<TagDefinitionMeta>,
) -> Option<Seq<char>> {
    match first_filter_problem(rules, query.filters@, defs, 0) {
        Some(p) => Some(p),
        None => first_group_problem(rules, query.or_groups@, defs, 0),
    }
}

/// Checks the filters of a list from its start (see `first_filter_problem`).
fn validate_filter_list<R: Fn(&JsonValue) -> Option<u64>, O: Fn(u64, u64) -> NumberOrder, T: Fn(u64) -> String>(
    filters: &Vec<AssetSearchFilter>,
    defs: &[TagDefinitionMeta],
    rules: &NumberRules<R, O, T>,
) -> (r: Result<(), AssetSearchError>)
    requires
        rules.wf(),
    ensures
        match first_filter_problem(*rules, filters@, defs@, 0) {
            Some(m) => refused_with(r, m),
            None => r is Ok,
        },
{
    let mut i: usize = 0;
    while i < filters.len()
        invariant
            i <= filters@.len(),
            rules.wf(),
            first_filter_problem(*rules, filters@, defs@, 0) == first_filter_problem(*rules, filters@, defs@, i as int),
        decreases filters.len() - i,
    {
        match validate_filter(&filters[i], defs, rules) {
            Ok(()) => {},
            Err(e) => {
                return Err(e);
            },
        }
        i = i + 1;
    }
    Ok(())
}

/// Checks every filter of a search (see `query_filter_problem`).
pub fn validate_filters<R: Fn(&JsonValue) -> Option<u64>, O: Fn(u64, u64) -> NumberOrder, T: Fn(u64) -> String>(
    query: &AssetSearchQuery,
    defs: &[TagDefinitionMeta],
    rules: &NumberRules<R, O, T>,
) -> (r: Result<(), AssetSearchError>)
    requires
        rules.wf(),
    ensures
        match query_filter_problem(*rules, *query, defs@) {
            Some(m) => refused_with(r, m),
            None => r is Ok,
        },
{
    match validate_filter_list(&query.filters, defs, rules) {
        Ok(()) => {},
        Err(e) => {
            return Err(e);
        },
    }
    let mut g: usize = 0;
    while g < query.or_groups.len()
        invariant
            g <= query.or_groups@.len(),
            rules.wf(),
            first_filter_problem(*rules, query.filters@, defs@, 0) is None,
            first_group_problem(*rules, query.or_groups@, defs@, 0) == first_group_problem(
                *rules,
                query.or_groups@,
                defs@,
                g as int,
            ),
        decreases query.or_groups.len() - g,
    {
        match validate_filter_list(&query.or_groups[g].filters, defs, rules) {
            Ok(()) => {},
            Err(e) => {
                return Err(e);
            },
        }
        g = g + 1;
    }
    Ok(())
}


/// Whether `r` is the outcome `s`: the same answer, or a refusal with the
/// same message.
pub open spec fn answers(r: Result<bool, AssetSearchError>, s: Result<bool, Seq<char>>) -> bool {
    match s {
        Ok(b) => r == Ok::<bool, AssetSearchError>(b),
        Err(m) => refused_with(r, m),
    }
}

/// The text of an optional string.
pub open spec fn opt_text(o: Option<String>) -> Option<Seq<char>> {
    match o {
        Some(s) => Some(s@),
        None => None,
    }
}

/// Whether text `lhs` passes the predicate `op` (lower case) of `filter`:
/// presence for `is_null` and `is_not_null`; otherwise an absent text passes
/// nothing but `eq` is still checked for its value; `eq` is equality,
/// `contains` a search ignoring ASCII case, `lt` to `gte` lexicographic
/// order, `between` lexicographic order within both bounds.
pub open spec fn text_outcome<R: Fn(&JsonValue) -> Option<u64>, O: Fn(u64, u64) -> NumberOrder, T: Fn(u64) -> String>(
    rules: NumberRules<R, O, T>,
    lhs: Option<Seq<char>>,
    op: Seq<char>,
    filter: AssetSearchFilter,
) -> Result<bool, Seq<char>> {
    if op == "is_null"@ {
        Ok(lhs is None)
    } else if op == "is_not_null"@ {
        Ok(lhs is Some)
    } else if op == "eq"@ {
        match filter_text(rules, filter, "eq"@) {
            Err(m) => Err(m),
            Ok(t) => Ok(lhs == Some(t)),
        }
    } else if op == "contains"@ {
        match lhs {
            None => Ok(false),
            Some(l) => match filter_text(rules, filter, "contains"@) {
                Err(m) => Err(m),
                Ok(t) => Ok(contains_text(ascii_lower(l), ascii_lower(t))),
            },
        }
    } else if op == "lt"@ || op == "lte"@ || op == "gt"@ || op == "gte"@ {
        match lhs {
            None => Ok(false),
            Some(l) => match filter_text(rules, filter, op) {
                Err(m) => Err(m),
                Ok(t) => Ok(text_compare(l, t, op)),
            },
        }
    } else if op == "between"@ {
        match lhs {
            None => Ok(false),
            Some(l) => match filter_text_bounds(rules, filter) {
                Err(m) => Err(m),
                Ok((lo, hi)) => Ok(text_le(lo, l) && text_le(l, hi)),
            },
        }
    } else {
        Err(unsupported_operator(op))
    }
}

/// Whether text `lhs` passes the predicate `op` of `filter` (see
/// `text_outcome`).
pub fn compare_text_or_null<R: Fn(&JsonValue) -> Option<u64>, O: Fn(u64, u64) -> NumberOrder, T: Fn(u64) -> String>(
    lhs: Option<String>,
    op: &str,
    filter: &AssetSearchFilter,
    rules: &NumberRules<R, O, T>,
) -> (r: Result<bool, AssetSearchError>)
    requires
        rules.wf(),
    ensures
        answers(r, text_outcome(*rules, opt_text(lhs), op@, *filter)),
{
    let o = chars_of(op);
    proof {
        reveal_strlit("is_null");
        reveal_strlit("is_not_null");
        reveal_strlit("eq");
        reveal_strlit("contains");
        reveal_strlit("between");
    }
    if eq_lit(&o, "is_null") {
        Ok(lhs.is_none())
    } else if eq_lit(&o, "is_not_null") {
        Ok(lhs.is_some())
    } else if eq_lit(&o, "eq") {
        match required_text_value(filter, "eq", rules) {
            Err(e) => Err(e),
            Ok(rhs) => {
                let same = match (&lhs, &rhs) {
                    (Some(a), Some(b)) => {
                        let x = chars_of(a.as_str());
                        let y = chars_of(b.as_str());
                        crate::text::eq_chars(&x, &y)
                    },
                    _ => false,
                };
                Ok(same)
            },
        }
    } else if eq_lit(&o, "contains") {
        match lhs {
            None => Ok(false),
            Some(l) => match required_text_value(filter, "contains", rules) {
                Err(e) => Err(e),
                Ok(rhs) => match rhs {
                    Some(t) => {
                        let h = to_ascii_lower(l.as_str());
                        let n = to_ascii_lower(t.as_str());
                        Ok(contains_chars(&h, &n))
                    },
                    None => Ok(false),
                },
            },
        }
    } else if eq_lit(&o, "lt") || eq_lit(&o, "lte") || eq_lit(&o, "gt") || eq_lit(&o, "gte") {
        match lhs {
            None => Ok(false),
            Some(l) => match required_text_value(filter, op, rules) {
                Err(e) => Err(e),
                Ok(rhs) => match rhs {
                    Some(t) => Ok(compare_ord(l.as_str(), t.as_str(), op)),
                    None => Ok(false),
                },
            },
        }
    } else if eq_lit(&o, "between") {
        match lhs {
            None => Ok(false),
            Some(l) => match required_text_between_values(filter, rules) {
                Err(e) => Err(e),
                Ok(bounds) => match bounds {
                    (Some(lo), Some(hi)) => {
                        let x = chars_of(l.as_str());
                        let a = chars_of(lo.as_str());
                        let b = chars_of(hi.as_str());
                        Ok(text_le_exec(&a, &x) && text_le_exec(&x, &b))
                    },
                    _ => Ok(false),
                },
            },
        }
    } else {
        let mut m = String::from_str("unsupported operator `");
        m.append(op);
        m.append("`");
        Err(AssetSearchError::InvalidRequest(m))
    }
}

/// Whether an order `o` of a number with another satisfies operator `op`.
pub open spec fn order_satisfies(o: NumberOrder, op: Seq<char>) -> bool {
    if op == "eq"@ {
        o == NumberOrder::Equal
    } else if op == "lt"@ {
        o == NumberOrder::Less
    } else if op == "lte"@ {
        o == NumberOrder::Less || o == NumberOrder::Equal
    } else if op == "gt"@ {
        o == NumberOrder::Greater
    } else if op == "gte"@ {
        o == NumberOrder::Greater || o == NumberOrder::Equal
    } else {
        false
    }
}

/// Whether an order says "no less than".
pub open spec fn at_least(o: NumberOrder) -> bool {
    o == NumberOrder::Greater || o == NumberOrder::Equal
}

/// Whether an order says "no more than".
pub open spec fn at_most(o: NumberOrder) -> bool {
    o == NumberOrder::Less || o == NumberOrder::Equal
}

/// Whether number `lhs` passes the predicate `op` (lower case) of `filter`:
/// presence for `is_null` and `is_not_null`; otherwise an absent number
/// passes nothing; `eq` to `gte` compare with the filter's number, `between`
/// asks for both bounds.
pub open spec fn numeric_outcome<R: Fn(&JsonValue) -> Option<u64>, O: Fn(u64, u64) -> NumberOrder, T: Fn(u64) -> String>(
    rules: NumberRules<R, O, T>,
    lhs: Option<u64>,
    op: Seq<char>,
    filter: AssetSearchFilter,
) -> Result<bool, Seq<char>> {
    if op == "is_null"@ {
        Ok(lhs is None)
    } else if op == "is_not_null"@ {
        Ok(lhs is Some)
    } else if is_order_op(op) {
        match lhs {
            None => Ok(false),
            Some(l) => match filter_number(rules, filter, op) {
                Err(m) => Err(m),
                Ok(n) => Ok(order_satisfies(rules.order_of(l, n), op)),
            },
        }
    } else if op == "between"@ {
        match lhs {
            None => Ok(false),
            Some(l) => match filter_number_bounds(rules, filter) {
                Err(m) => Err(m),
                Ok((lo, hi)) => Ok(at_least(rules.order_of(l, lo)) && at_most(rules.order_of(l, hi))),
            },
        }
    } else {
        Err(unsupported_operator(op))
    }
}

/// Whether number `lhs` passes the predicate `op` of `filter` (see
/// `numeric_outcome`).
pub fn compare_numeric_or_null<R: Fn(&JsonValue) -> Option<u64>, O: Fn(u64, u64) -> NumberOrder, T: Fn(u64) -> String>(
    lhs: Option<u64>,
    op: &str,
    filter: &AssetSearchFilter,
    rules: &NumberRules<R, O, T>,
) -> (r: Result<bool, AssetSearchError>)
    requires
        rules.wf(),
    ensures
        answers(r, numeric_outcome(*rules, lhs, op@, *filter)),
{
    let o = chars_of(op);
    proof {
        reveal_strlit("is_null");
        reveal_strlit("is_not_null");
        reveal_strlit("eq");
        reveal_strlit("lt");
        reveal_strlit("lte");
        reveal_strlit("gt");
        reveal_strlit("gte");
        reveal_strlit("between");
    }
    if eq_lit(&o, "is_null") {
        Ok(lhs.is_none())
    } else if eq_lit(&o, "is_not_null") {
        Ok(lhs.is_some())
    } else if eq_lit(&o, "eq") || eq_lit(&o, "lt") || eq_lit(&o, "lte") || eq_lit(&o, "gt") || eq_lit(&o, "gte") {
        match lhs {
            None => Ok(false),
            Some(l) => match required_numeric_value(filter, op, rules) {
                Err(e) => Err(e),
                Ok(rhs) => match rhs {
                    Some(n) => {
                        let ord = rules.compare_numbers(l, n);
                        let b = if eq_lit(&o, "eq") {
                            ord == NumberOrder::Equal
                        } else if eq_lit(&o, "lt") {
                            ord == NumberOrder::Less
                        } else if eq_lit(&o, "lte") {
                            ord == NumberOrder::Less || ord == NumberOrder::Equal
                        } else if eq_lit(&o, "gt") {
                            ord == NumberOrder::Greater
                        } else {
                            ord == NumberOrder::Greater || ord == NumberOrder::Equal
                        };
                        Ok(b)
                    },
                    None => Ok(false),
                },
            },
        }
    } else if eq_lit(&o, "between") {
        match lhs {
            None => Ok(false),
            Some(l) => match required_numeric_between_values(filter, rules) {
                Err(e) => Err(e),
                Ok(bounds) => match bounds {
                    (Some(lo), Some(hi)) => {
                        let a = rules.compare_numbers(l, lo);
                        let b = rules.compare_numbers(l, hi);
                        Ok((a == NumberOrder::Greater || a == NumberOrder::Equal) && (b == NumberOrder::Less || b
                            == NumberOrder::Equal))
                    },
                    _ => Ok(false),
                },
            },
        }
    } else {
        let mut m = String::from_str("unsupported operator `");
        m.append(op);
        m.append("`");
        Err(AssetSearchError::InvalidRequest(m))
    }
}

/// Whether boolean `lhs` passes the predicate `op` (lower case) of `filter`:
/// presence for `is_null` and `is_not_null`, equality with the filter's
/// boolean for `eq`; other operators are refused.
pub open spec fn bool_outcome(lhs: Option<bool>, op: Seq<char>, filter: AssetSearchFilter) -> Result<bool, Seq<char>> {
    if op == "is_null"@ {
        Ok(lhs is None)
    } else if op == "is_not_null"@ {
        Ok(lhs is Some)
    } else if op == "eq"@ {
        match filter.value {
            Some(JsonValue::Bool(b)) => Ok(lhs == Some(b)),
            None => Err("operator `eq` requires `value` for boolean field"@),
            _ => Err("boolean eq filter requires boolean `value`"@),
        }
    } else {
        Err("boolean filters only support eq/is_null/is_not_null"@)
    }
}

/// The number a reference to entity `id` is compared as.
pub open spec fn reference_number<R: Fn(&JsonValue) -> Option<u64>, O: Fn(u64, u64) -> NumberOrder, T: Fn(u64) -> String>(
    rules: NumberRules<R, O, T>,
    id: Option<i64>,
) -> Option<u64> {
    match id {
        Some(i) => rules.number(integer_json(i)),
        None => None,
    }
}

/// Whether an asset's current value `record` of a tag with definition `meta`
/// passes the predicate `op` (lower case) of `filter`: `is_null` and
/// `is_not_null` ask whether the value is JSON null; otherwise the value is
/// compared by the tag's type: as a boolean, as a number (integers,
/// decimals, money, and the referenced entity of a reference), or as a text.
pub open spec fn tag_outcome<R: Fn(&JsonValue) -> Option<u64>, O: Fn(u64, u64) -> NumberOrder, T: Fn(u64) -> String>(
    rules: NumberRules<R, O, T>,
    record: TagValueRecord,
    meta: TagDefinitionMeta,
    op: Seq<char>,
    filter: AssetSearchFilter,
) -> Result<bool, Seq<char>> {
    let t = meta.value_type@;
    if op == "is_null"@ {
        Ok(record.value_json is Null)
    } else if op == "is_not_null"@ {
        Ok(!(record.value_json is Null))
    } else if t == "boolean"@ {
        bool_outcome(json_as_bool(record.value_json), op, filter)
    } else if t == "integer"@ || t == "decimal"@ || t == "money"@ {
        numeric_outcome(rules, rules.number(record.value_json), op, filter)
    } else if t == "external_entity"@ {
        numeric_outcome(rules, reference_number(rules, record.external_entity_id), op, filter)
    } else {
        text_outcome(rules, value_text(rules, record.value_json), op, filter)
    }
}

/// Whether a tag value passes a predicate (see `tag_outcome`).
pub fn compare_tag_value<R: Fn(&JsonValue) -> Option<u64>, O: Fn(u64, u64) -> NumberOrder, T: Fn(u64) -> String>(
    record: &TagValueRecord,
    meta: &TagDefinitionMeta,
    op: &str,
    filter: &AssetSearchFilter,
    rules: &NumberRules<R, O, T>,
) -> (r: Result<bool, AssetSearchError>)
    requires
        rules.wf(),
    ensures
        answers(r, tag_outcome(*rules, *record, *meta, op@, *filter)),
{
    let o = chars_of(op);
    if eq_lit(&o, "is_null") {
        return Ok(record.value_json.is_null());
    }
    if eq_lit(&o, "is_not_null") {
        return Ok(!record.value_json.is_null());
    }
    let t = chars_of(meta.value_type.as_str());
    if eq_lit(&t, "boolean") {
        let lhs = record.value_json.as_bool();
        let r = compare_bool(lhs, op, filter);
        proof {
            reveal_strlit("is_null");
            reveal_strlit("is_not_null");
            reveal_strlit("eq");
        }
        r
    } else if eq_lit(&t, "integer") || eq_lit(&t, "decimal") || eq_lit(&t, "money") {
        let lhs = rules.read_number(&record.value_json);
        compare_numeric_or_null(lhs, op, filter, rules)
    } else if eq_lit(&t, "external_entity") {
        let lhs = match record.external_entity_id {
            Some(i) => rules.integer_number(i),
            None => None,
        };
        compare_numeric_or_null(lhs, op, filter, rules)
    } else {
        let lhs = value_as_string(&record.value_json, rules);
        compare_text_or_null(lhs, op, filter, rules)
    }
}


/// Whether category `child` has `parent` as its parent among `cats`.
pub open spec fn is_child(cats: Seq<CategoryLink>, parent: i64, child: i64) -> bool {
    exists|j: int|
        #![trigger cats[j]]
        0 <= j < cats.len() && cats[j].id == child && cats[j].parent_category_id == Some(parent)
}

/// Whether the `k`-th step of `path` goes from a category to one of its
/// children.
pub open spec fn descends_at(cats: Seq<CategoryLink>, path: Seq<i64>, k: int) -> bool {
    is_child(cats, path[k], path[k + 1])
}

/// Whether each category of `path` is a child of the one before it.
pub open spec fn is_descent(cats: Seq<CategoryLink>, path: Seq<i64>) -> bool {
    forall|k: int| 0 <= k < path.len() - 1 ==> #[trigger] descends_at(cats, path, k)
}

/// Whether category `c` is `root` or lies below it: a path of children
/// leads from `root` to `c`.
pub open spec fn in_subtree(cats: Seq<CategoryLink>, root: i64, c: i64) -> bool {
    exists|path: Seq<i64>|
        #![trigger is_descent(cats, path)]
        path.len() > 0 && path[0] == root && path.last() == c && is_descent(cats, path)
}

/// Whether link `l` names a parent that `ids` holds.
pub open spec fn parent_among(l: CategoryLink, ids: Seq<i64>) -> bool {
    match l.parent_category_id {
        Some(p) => ids.contains(p),
        None => false,
    }
}

/// Whether `ids` holds the children of every category it holds.
pub open spec fn closed_under_children(cats: Seq<CategoryLink>, ids: Seq<i64>) -> bool {
    forall|j: int| 0 <= j < cats.len() && #[trigger] parent_among(cats[j], ids) ==> ids.contains(cats[j].id)
}

/// The number of `false` among `s`.
pub open spec fn count_false(s: Seq<bool>) -> nat
    decreases s.len(),
{
    if s.len() == 0 {
        0
    } else {
        count_false(s.drop_last()) + if s.last() {
            0nat
        } else {
            1nat
        }
    }
}

/// Turning a `false` into `true` lowers the count by one.
proof fn lemma_count_false_set(s: Seq<bool>, j: int)
    requires
        0 <= j < s.len(),
        !s[j],
    ensures
        count_false(s.update(j, true)) + 1 == count_false(s),
    decreases s.len(),
{
    let t = s.update(j, true);
    if j < s.len() - 1 {
        assert(t.drop_last() =~= s.drop_last().update(j, true));
        lemma_count_false_set(s.drop_last(), j);
    } else {
        assert(t.drop_last() =~= s.drop_last());
    }
}

/// Every category on a descent from a held category is held, when `ids` is
/// closed under children.
proof fn lemma_descent_held(cats: Seq<CategoryLink>, ids: Seq<i64>, path: Seq<i64>, k: int)
    requires
        closed_under_children(cats, ids),
        is_descent(cats, path),
        path.len() > 0,
        ids.contains(path[0]),
        0 <= k < path.len(),
    ensures
        ids.contains(path[k]),
    decreases k,
{
    if k > 0 {
        lemma_descent_held(cats, ids, path, k - 1);
        assert(descends_at(cats, path, k - 1));
        let j = choose|j: int|
            #![trigger cats[j]]
            0 <= j < cats.len() && cats[j].id == path[k] && cats[j].parent_category_id == Some(path[k - 1]);
        assert(parent_among(cats[j], ids));
    }
}

/// A child of a category in the subtree is in the subtree.
proof fn lemma_subtree_child(cats: Seq<CategoryLink>, root: i64, j: int)
    requires
        0 <= j < cats.len(),
        cats[j].parent_category_id matches Some(p) && in_subtree(cats, root, p),
    ensures
        in_subtree(cats, root, cats[j].id),
{
    let p = cats[j].parent_category_id->0;
    let path = choose|path: Seq<i64>|
        #![trigger is_descent(cats, path)]
        path.len() > 0 && path[0] == root && path.last() == p && is_descent(cats, path);
    let longer = path.push(cats[j].id);
    assert forall|k: int| 0 <= k < longer.len() - 1 implies #[trigger] descends_at(cats, longer, k) by {
        if k < path.len() - 1 {
            assert(descends_at(cats, path, k));
        } else {
            assert(cats[j].id == longer[k + 1]);
        }
    }
    assert(is_descent(cats, longer));
}

/// Whether `ids` holds `x`.
fn holds_id(ids: &Vec<i64>, x: i64) -> (b: bool)
    ensures
        b == ids@.contains(x),
{
    let mut i: usize = 0;
    while i < ids.len()
        invariant
            i <= ids@.len(),
            forall|k: int| 0 <= k < i ==> ids@[k] != x,
        decreases ids.len() - i,
    {
        if ids[i] == x {
            return true;
        }
        i = i + 1;
    }
    false
}

/// The categories in the subtree of `root`: `root` and every category below
/// it through the parent links `cats`.
pub fn category_subtree(cats: &[CategoryLink], root: i64) -> (ids: Vec<i64>)
    ensures
        forall|c: i64| ids@.contains(c) <==> in_subtree(cats@, root, c),
{
    let n = cats.len();
    let mut ids: Vec<i64> = Vec::new();
    ids.push(root);
    proof {
        let single = seq![root];
        assert(is_descent(cats@, single));
        assert(single.last() == root);
        assert(ids@[0] == root);
    }
    let mut taken: Vec<bool> = Vec::new();
    while taken.len() < n
        invariant
            taken@.len() <= n,
            forall|j: int| 0 <= j < taken@.len() ==> !taken@[j],
        decreases n - taken.len(),
    {
        taken.push(false);
    }
    loop
        invariant
            n == cats@.len(),
            taken@.len() == n,
            ids@.contains(root),
            forall|c: i64| ids@.contains(c) ==> in_subtree(cats@, root, c),
            forall|j: int| 0 <= j < n && #[trigger] taken@[j] ==> parent_among(cats@[j], ids@) && ids@.contains(cats@[j].id),
        ensures
            ids@.contains(root),
            forall|c: i64| ids@.contains(c) ==> in_subtree(cats@, root, c),
            closed_under_children(cats@, ids@),
        decreases count_false(taken@),
    {
        let ghost before = taken@;
        let ghost ids_before = ids@;
        let mut changed = false;
        let mut j: usize = 0;
        while j < n
            invariant
                n == cats@.len(),
                taken@.len() == n,
                j <= n,
                ids@.contains(root),
                forall|c: i64| ids@.contains(c) ==> in_subtree(cats@, root, c),
                forall|q: int| 0 <= q < n && #[trigger] taken@[q] ==> parent_among(cats@[q], ids@) && ids@.contains(cats@[q].id),
                count_false(taken@) <= count_false(before),
                changed ==> count_false(taken@) < count_false(before),
                !changed ==> taken@ == before && ids@ == ids_before,
                !changed ==> forall|q: int| 0 <= q < j && !taken@[q] ==> !#[trigger] parent_among(cats@[q], ids@),
            decreases n - j,
        {
            if !taken[j] {
                match cats[j].parent_category_id {
                    Some(p) => {
                        if holds_id(&ids, p) {
                            let c = cats[j].id;
                            proof {
                                lemma_subtree_child(cats@, root, j as int);
                                lemma_count_false_set(taken@, j as int);
                            }
                            let ghost old_ids = ids@;
                            let ghost old_taken = taken@;
                            taken.set(j, true);
                            if !holds_id(&ids, c) {
                                ids.push(c);
                                assert(ids@[ids@.len() - 1] == c);
                            }
                            proof {
                                assert forall|x: i64| old_ids.contains(x) implies ids@.contains(x) by {
                                    let k = choose|k: int| 0 <= k < old_ids.len() && old_ids[k] == x;
                                    assert(ids@[k] == x);
                                }
                                assert(ids@.contains(c));
                                assert forall|x: i64| ids@.contains(x) implies in_subtree(cats@, root, x) by {
                                    let k = choose|k: int| 0 <= k < ids@.len() && ids@[k] == x;
                                    if k < old_ids.len() {
                                        assert(old_ids[k] == x);
                                        assert(old_ids.contains(x));
                                    }
                                }
                                assert forall|q: int| 0 <= q < n && #[trigger] taken@[q] implies parent_among(
                                    cats@[q],
                                    ids@,
                                ) && ids@.contains(cats@[q].id) by {
                                    if q != j {
                                        assert(old_taken[q]);
                                        if let Some(pq) = cats@[q].parent_category_id {
                                            assert(old_ids.contains(pq));
                                        }
                                        assert(old_ids.contains(cats@[q].id));
                                    } else {
                                        assert(old_ids.contains(p));
                                    }
                                }
                            }
                            changed = true;
                        }
                    },
                    None => {},
                }
            }
            j = j + 1;
        }
        if !changed {
            proof {
                assert forall|q: int| 0 <= q < cats@.len() && #[trigger] parent_among(cats@[q], ids@) implies ids@.contains(
                    cats@[q].id,
                ) by {
                    if !taken@[q] {
                    }
                }
            }
            break;
        }
    }
    proof {
        assert forall|c: i64| in_subtree(cats@, root, c) implies ids@.contains(c) by {
            let path = choose|path: Seq<i64>|
                #![trigger is_descent(cats@, path)]
                path.len() > 0 && path[0] == root && path.last() == c && is_descent(cats@, path);
            lemma_descent_held(cats@, ids@, path, path.len() - 1);
        }
    }
    ids
}


/// The lower-case text a free-text search looks for: the filter's value as
/// a text, empty without one.
pub open spec fn search_needle<R: Fn(&JsonValue) -> Option<u64>, O: Fn(u64, u64) -> NumberOrder, T: Fn(u64) -> String>(
    rules: NumberRules<R, O, T>,
    filter: AssetSearchFilter,
) -> Seq<char> {
    ascii_lower(
        match filter.value {
            Some(v) => match value_text(rules, v) {
                Some(t) => t,
                None => Seq::empty(),
            },
            None => Seq::empty(),
        },
    )
}

/// Whether tag value `r` mentions `needle`, ignoring ASCII case.
pub open spec fn value_mentions<R: Fn(&JsonValue) -> Option<u64>, O: Fn(u64, u64) -> NumberOrder, T: Fn(u64) -> String>(
    rules: NumberRules<R, O, T>,
    r: TagValueRecord,
    needle: Seq<char>,
) -> bool {
    match value_text(rules, r.value_json) {
        Some(t) => contains_text(ascii_lower(t), needle),
        None => false,
    }
}

/// Whether `o` holds a text that mentions `needle`, ignoring ASCII case.
pub open spec fn opt_mentions(o: Option<String>, needle: Seq<char>) -> bool {
    match o {
        Some(d) => contains_text(ascii_lower(d@), needle),
        None => false,
    }
}

/// The free-text predicate on an asset with current tag values `values`:
/// only `contains` is known; an empty needle passes every asset; otherwise
/// the asset passes when its tag, its display name or one of its values
/// mentions the needle, ignoring ASCII case.
pub open spec fn text_search_outcome<R: Fn(&JsonValue) -> Option<u64>, O: Fn(u64, u64) -> NumberOrder, T: Fn(u64) -> String>(
    rules: NumberRules<R, O, T>,
    asset: AssetRecord,
    values: Seq<TagValueRecord>,
    filter: AssetSearchFilter,
) -> Result<bool, Seq<char>> {
    if ascii_lower(filter.op@) != "contains"@ {
        Err("unsupported op `"@ + filter.op@ + "` for text predicate"@)
    } else {
        let needle = search_needle(rules, filter);
        if needle.len() == 0 {
            Ok(true)
        } else {
            Ok(
                contains_text(ascii_lower(asset.asset_tag@), needle) || opt_mentions(asset.display_name, needle)
                    || exists|i: int| 0 <= i < values.len() && value_mentions(rules, #[trigger] values[i], needle),
            )
        }
    }
}

/// The free-text predicate (see `text_search_outcome`).
fn text_search_matches<R: Fn(&JsonValue) -> Option<u64>, O: Fn(u64, u64) -> NumberOrder, T: Fn(u64) -> String>(
    asset: &AssetRecord,
    filter: &AssetSearchFilter,
    values: &[TagValueRecord],
    rules: &NumberRules<R, O, T>,
) -> (r: Result<bool, AssetSearchError>)
    requires
        rules.wf(),
    ensures
        answers(r, text_search_outcome(*rules, *asset, values@, *filter)),
{
    let op = to_ascii_lower(filter.op.as_str());
    if !eq_lit(&op, "contains") {
        let mut m = String::from_str("unsupported op `");
        m.append(filter.op.as_str());
        m.append("` for text predicate");
        return Err(AssetSearchError::InvalidRequest(m));
    }
    let text = match &filter.value {
        Some(v) => match value_as_string(v, rules) {
            Some(t) => t,
            None => String::new(),
        },
        None => String::new(),
    };
    let needle = to_ascii_lower(text.as_str());
    let ghost nd = search_needle(*rules, *filter);
    assert(needle@ == nd);
    if needle.len() == 0 {
        return Ok(true);
    }
    let tag = to_ascii_lower(asset.asset_tag.as_str());
    if contains_chars(&tag, &needle) {
        return Ok(true);
    }
    match &asset.display_name {
        Some(d) => {
            let dl = to_ascii_lower(d.as_str());
            if contains_chars(&dl, &needle) {
                return Ok(true);
            }
        },
        None => {},
    }
    let mut i: usize = 0;
    while i < values.len()
        invariant
            i <= values@.len(),
            rules.wf(),
            needle@ == nd,
            nd == search_needle(*rules, *filter),
            nd.len() > 0,
            ascii_lower(filter.op@) == "contains"@,
            !contains_text(ascii_lower(asset.asset_tag@), nd),
            !opt_mentions(asset.display_name, nd),
            forall|k: int| 0 <= k < i ==> !value_mentions(*rules, #[trigger] values@[k], nd),
        decreases values.len() - i,
    {
        match value_as_string(&values[i].value_json, rules) {
            Some(t) => {
                let tl = to_ascii_lower(t.as_str());
                if contains_chars(&tl, &needle) {
                    assert(value_mentions(*rules, values@[i as int], nd));
                    return Ok(true);
                }
            },
            None => {},
        }
        i = i + 1;
    }
    Ok(false)
}

/// The position of the value of tag `key` among `values` from `i` on.
pub open spec fn value_index(values: Seq<TagValueRecord>, key: Seq<char>, i: int) -> Option<int>
    decreases values.len() - i,
{
    if i < 0 || i >= values.len() {
        None
    } else if values[i].tag_key@ == key {
        Some(i)
    } else {
        value_index(values, key, i + 1)
    }
}

/// The value of tag `key`: the first among `values` with that key.
pub open spec fn value_of(values: Seq<TagValueRecord>, key: Seq<char>) -> Option<TagValueRecord> {
    match value_index(values, key, 0) {
        Some(i) => Some(values[i]),
        None => None,
    }
}

/// A position found by `value_index` holds a value of the key.
proof fn lemma_value_index(values: Seq<TagValueRecord>, key: Seq<char>, i: int)
    ensures
        value_index(values, key, i) matches Some(j) ==> i <= j < values.len() && values[j].tag_key@ == key,
    decreases values.len() - i,
{
    if 0 <= i < values.len() && values[i].tag_key@ != key {
        lemma_value_index(values, key, i + 1);
    }
}

/// The position of the value of tag `key` (see `value_of`).
fn find_tag_value(values: &[TagValueRecord], key: &str) -> (r: Option<usize>)
    ensures
        match r {
            Some(j) => value_index(values@, key@, 0) == Some(j as int) && j < values@.len(),
            None => value_index(values@, key@, 0) is None,
        },
{
    let k = chars_of(key);
    let mut i: usize = 0;
    while i < values.len()
        invariant
            i <= values@.len(),
            k@ == key@,
            value_index(values@, key@, 0) == value_index(values@, key@, i as int),
        decreases values.len() - i,
    {
        let t = chars_of(values[i].tag_key.as_str());
        if crate::text::eq_chars(&t, &k) {
            return Some(i);
        }
        i = i + 1;
    }
    None
}

/// The predicate `op` (lower case) on a tag the asset has no value of:
/// only `is_null` passes; an unknown operator is refused.
pub open spec fn missing_outcome(op: Seq<char>) -> Result<bool, Seq<char>> {
    if op == "is_null"@ {
        Ok(true)
    } else if op == "is_not_null"@ {
        Ok(false)
    } else if known_operator(op) {
        Ok(false)
    } else {
        Err(unsupported_operator(op))
    }
}

/// An `external_entity(<type_id>)` predicate on an asset with current tag
/// values `values`: `eq` when one of its references of that type is the
/// filter's entity, `is_null` when none is of that type, `is_not_null` when
/// one is.
pub open spec fn external_outcome(values: Seq<TagValueRecord>, filter: AssetSearchFilter, type_id: i64) -> Result<
    bool,
    Seq<char>,
> {
    let op = ascii_lower(filter.op@);
    let any = exists|i: int| 0 <= i < values.len() && refers_to_type(#[trigger] values[i], type_id);
    let expected = match filter.value {
        Some(v) => filter_i64(json_view(v)),
        None => None,
    };
    let eq = exists|i: int|
        0 <= i < values.len() && refers_to_type(#[trigger] values[i], type_id) && expected is Some
            && values[i].external_entity_id == expected;
    if op == "eq"@ {
        Ok(eq)
    } else if op == "is_null"@ {
        Ok(!any)
    } else if op == "is_not_null"@ {
        Ok(any)
    } else {
        Err("external_entity(type_id) only supports eq/is_null/is_not_null"@)
    }
}

/// The integer a filter's value stands for, if any.
pub open spec fn filter_value_i64(filter: AssetSearchFilter) -> Option<i64> {
    match filter.value {
        Some(v) => filter_i64(json_view(v)),
        None => None,
    }
}

/// Whether an asset with current tag values `values` passes `filter`, given
/// the tag definitions `defs` and the category links `cats`: the free-text
/// predicate; a category filter over the subtree of a category; an
/// `external_entity(<id>)` predicate; a predicate on one of the asset's own
/// fields, numbers and texts each by their kind; or a predicate on a defined
/// tag, on its value when the asset has one.
pub open spec fn filter_outcome<R: Fn(&JsonValue) -> Option<u64>, O: Fn(u64, u64) -> NumberOrder, T: Fn(u64) -> String>(
    rules: NumberRules<R, O, T>,
    asset: AssetRecord,
    filter: AssetSearchFilter,
    defs: Seq<TagDefinitionMeta>,
    values: Seq<TagValueRecord>,
    cats: Seq<CategoryLink>,
) -> Result<bool, Seq<char>> {
    let op = ascii_lower(filter.op@);
    let field = filter.field@;
    if field == "text"@ {
        text_search_outcome(rules, asset, values, filter)
    } else if field == "category_id"@ && filter.include_subtree {
        match filter_value_i64(filter) {
            None => Err("category subtree filter requires integer value"@),
            Some(root) => if op == "eq"@ {
                Ok(in_subtree(cats, root, asset.category_id))
            } else {
                Err("category subtree filter only supports eq"@)
            },
        }
    } else {
        match external_entity_field(field) {
            Some(t) => external_outcome(values, filter, t),
            None => if field == "id"@ {
                numeric_outcome(rules, rules.number(integer_json(asset.id)), op, filter)
            } else if field == "asset_tag"@ {
                text_outcome(rules, Some(asset.asset_tag@), op, filter)
            } else if field == "display_name"@ {
                text_outcome(rules, opt_text(asset.display_name), op, filter)
            } else if field == "category_id"@ {
                numeric_outcome(rules, rules.number(integer_json(asset.category_id)), op, filter)
            } else if field == "deleted_at"@ {
                text_outcome(rules, opt_text(asset.deleted_at), op, filter)
            } else if field == "created_at"@ {
                text_outcome(rules, Some(asset.created_at@), op, filter)
            } else {
                match definition_of(defs, field) {
                    None => Err("unknown filter field `"@ + field + "`"@),
                    Some(meta) => match value_of(values, field) {
                        None => missing_outcome(op),
                        Some(rec) => tag_outcome(rules, rec, meta, op, filter),
                    },
                }
            },
        }
    }
}

/// A copy of an optional text.
pub(crate) fn copy_text(o: &Option<String>) -> (r: Option<String>)
    ensures
        opt_text(r) == opt_text(*o),
{
    match o {
        Some(s) => Some(s.clone()),
        None => None,
    }
}

/// Whether an asset passes a filter (see `filter_outcome`).
pub fn matches_filter<R: Fn(&JsonValue) -> Option<u64>, O: Fn(u64, u64) -> NumberOrder, T: Fn(u64) -> String>(
    asset: &AssetRecord,
    filter: &AssetSearchFilter,
    defs: &[TagDefinitionMeta],
    values: &[TagValueRecord],
    cats: &[CategoryLink],
    rules: &NumberRules<R, O, T>,
) -> (r: Result<bool, AssetSearchError>)
    requires
        rules.wf(),
    ensures
        answers(r, filter_outcome(*rules, *asset, *filter, defs@, values@, cats@)),
{
    let op = to_ascii_lower(filter.op.as_str());
    let op_s = string_of(&op);
    let field = chars_of(filter.field.as_str());
    if eq_lit(&field, "text") {
        return text_search_matches(asset, filter, values, rules);
    }
    if eq_lit(&field, "category_id") && filter.include_subtree {
        let root = match &filter.value {
            Some(v) => value_as_i64(v),
            None => None,
        };
        return match root {
            None => Err(AssetSearchError::InvalidRequest(String::from_str("category subtree filter requires integer value"))),
            Some(root) => {
                let ids = category_subtree(cats, root);
                if eq_lit(&op, "eq") {
                    Ok(holds_id(&ids, asset.category_id))
                } else {
                    Err(AssetSearchError::InvalidRequest(String::from_str("category subtree filter only supports eq")))
                }
            },
        };
    }
    match parse_external_entity_type_id(filter.field.as_str()) {
        Some(t) => match_external_entity_type_filter(values, filter, t),
        None => {
            if eq_lit(&field, "id") {
                let lhs = rules.integer_number(asset.id);
                compare_numeric_or_null(lhs, op_s.as_str(), filter, rules)
            } else if eq_lit(&field, "asset_tag") {
                compare_text_or_null(Some(asset.asset_tag.clone()), op_s.as_str(), filter, rules)
            } else if eq_lit(&field, "display_name") {
                compare_text_or_null(copy_text(&asset.display_name), op_s.as_str(), filter, rules)
            } else if eq_lit(&field, "category_id") {
                let lhs = rules.integer_number(asset.category_id);
                compare_numeric_or_null(lhs, op_s.as_str(), filter, rules)
            } else if eq_lit(&field, "deleted_at") {
                compare_text_or_null(copy_text(&asset.deleted_at), op_s.as_str(), filter, rules)
            } else if eq_lit(&field, "created_at") {
                compare_text_or_null(Some(asset.created_at.clone()), op_s.as_str(), filter, rules)
            } else {
                match find_tag_definition(defs, filter.field.as_str()) {
                    None => {
                        let mut m = String::from_str("unknown filter field `");
                        m.append(filter.field.as_str());
                        m.append("`");
                        Err(AssetSearchError::InvalidRequest(m))
                    },
                    Some(j) => {
                        proof {
                            lemma_definition_index(defs@, filter.field@, 0);
                        }
                        match find_tag_value(values, filter.field.as_str()) {
                            None => compare_missing(op_s.as_str()),
                            Some(k) => {
                                proof {
                                    lemma_value_index(values@, filter.field@, 0);
                                }
                                compare_tag_value(&values[k], &defs[j], op_s.as_str(), filter, rules)
                            },
                        }
                    },
                }
            }
        },
    }
}

/// Whether an asset passes every filter of `filters` from `i` on, checked
/// in order: the first refusal or failure decides.
pub open spec fn all_pass<R: Fn(&JsonValue) -> Option<u64>, O: Fn(u64, u64) -> NumberOrder, T: Fn(u64) -> String>(
    rules: NumberRules<R, O, T>,
    asset: AssetRecord,
    filters: Seq<AssetSearchFilter>,
    defs: Seq<TagDefinitionMeta>,
    values: Seq<TagValueRecord>,
    cats: Seq<CategoryLink>,
    i: int,
) -> Result<bool, Seq<char>>
    decreases filters.len() - i,
{
    if i < 0 || i >= filters.len() {
        Ok(true)
    } else {
        match filter_outcome(rules, asset, filters[i], defs, values, cats) {
            Err(m) => Err(m),
            Ok(false) => Ok(false),
            Ok(true) => all_pass(rules, asset, filters, defs, values, cats, i + 1),
        }
    }
}

/// Whether an asset passes all filters of one of the groups from `g` on,
/// checked in order.
pub open spec fn some_group_passes<R: Fn(&JsonValue) -> Option<u64>, O: Fn(u64, u64) -> NumberOrder, T: Fn(u64) -> String>(
    rules: NumberRules<R, O, T>,
    asset: AssetRecord,
    groups: Seq<AssetSearchFilterGroup>,
    defs: Seq<TagDefinitionMeta>,
    values: Seq<TagValueRecord>,
    cats: Seq<CategoryLink>,
    g: int,
) -> Result<bool, Seq<char>>
    decreases groups.len() - g,
{
    if g < 0 || g >= groups.len() {
        Ok(false)
    } else {
        match all_pass(rules, asset, groups[g].filters@, defs, values, cats, 0) {
            Err(m) => Err(m),
            Ok(true) => Ok(true),
            Ok(false) => some_group_passes(rules, asset, groups, defs, values, cats, g + 1),
        }
    }
}

/// Whether an asset is a result of a search: it passes every filter, and
/// all filters of some group when the search has groups.
pub open spec fn asset_outcome<R: Fn(&JsonValue) -> Option<u64>, O: Fn(u64, u64) -> NumberOrder, T: Fn(u64) -> String>(
    rules: NumberRules<R, O, T>,
    asset: AssetRecord,
    query: AssetSearchQuery,
    defs: Seq<TagDefinitionMeta>,
    values: Seq<TagValueRecord>,
    cats: Seq<CategoryLink>,
) -> Result<bool, Seq<char>> {
    match all_pass(rules, asset, query.filters@, defs, values, cats, 0) {
        Err(m) => Err(m),
        Ok(false) => Ok(false),
        Ok(true) => if query.or_groups@.len() == 0 {
            Ok(true)
        } else {
            some_group_passes(rules, asset, query.or_groups@, defs, values, cats, 0)
        },
    }
}

/// Whether an asset passes every filter of a list (see `all_pass`).
fn passes_all<R: Fn(&JsonValue) -> Option<u64>, O: Fn(u64, u64) -> NumberOrder, T: Fn(u64) -> String>(
    asset: &AssetRecord,
    filters: &Vec<AssetSearchFilter>,
    defs: &[TagDefinitionMeta],
    values: &[TagValueRecord],
    cats: &[CategoryLink],
    rules: &NumberRules<R, O, T>,
) -> (r: Result<bool, AssetSearchError>)
    requires
        rules.wf(),
    ensures
        answers(r, all_pass(*rules, *asset, filters@, defs@, values@, cats@, 0)),
{
    let mut i: usize = 0;
    while i < filters.len()
        invariant
            i <= filters@.len(),
            rules.wf(),
            all_pass(*rules, *asset, filters@, defs@, values@, cats@, 0) == all_pass(
                *rules,
                *asset,
                filters@,
                defs@,
                values@,
                cats@,
                i as int,
            ),
        decreases filters.len() - i,
    {
        match matches_filter(asset, &filters[i], defs, values, cats, rules) {
            Err(e) => {
                return Err(e);
            },
            Ok(false) => {
                return Ok(false);
            },
            Ok(true) => {},
        }
        i = i + 1;
    }
    Ok(true)
}

/// Whether an asset is a result of a search (see `asset_outcome`).
pub fn matches_asset<R: Fn(&JsonValue) -> Option<u64>, O: Fn(u64, u64) -> NumberOrder, T: Fn(u64) -> String>(
    asset: &AssetRecord,
    query: &AssetSearchQuery,
    defs: &[TagDefinitionMeta],
    values: &[TagValueRecord],
    cats: &[CategoryLink],
    rules: &NumberRules<R, O, T>,
) -> (r: Result<bool, AssetSearchError>)
    requires
        rules.wf(),
    ensures
        answers(r, asset_outcome(*rules, *asset, *query, defs@, values@, cats@)),
{
    match passes_all(asset, &query.filters, defs, values, cats, rules) {
        Err(e) => {
            return Err(e);
        },
        Ok(false) => {
            return Ok(false);
        },
        Ok(true) => {},
    }
    if query.or_groups.len() == 0 {
        return Ok(true);
    }
    let mut g: usize = 0;
    while g < query.or_groups.len()
        invariant
            g <= query.or_groups@.len(),
            rules.wf(),
            query.or_groups@.len() > 0,
            all_pass(*rules, *asset, query.filters@, defs@, values@, cats@, 0) == Ok::<bool, Seq<char>>(true),
            some_group_passes(*rules, *asset, query.or_groups@, defs@, values@, cats@, 0) == some_group_passes(
                *rules,
                *asset,
                query.or_groups@,
                defs@,
                values@,
                cats@,
                g as int,
            ),
        decreases query.or_groups.len() - g,
    {
        match passes_all(asset, &query.or_groups[g].filters, defs, values, cats, rules) {
            Err(e) => {
                return Err(e);
            },
            Ok(true) => {
                return Ok(true);
            },
            Ok(false) => {},
        }
        g = g + 1;
    }
    Ok(false)
}


/// A position as a mathematical integer.
pub open spec fn index_int(i: usize) -> int {
    i as int
}

/// The definition of tag `key` (see `definition_of`).
pub(crate) fn find_tag_definition_at<'a>(defs: &'a [TagDefinitionMeta], key: &str) -> (r: Option<&'a TagDefinitionMeta>)
    ensures
        match r {
            Some(d) => definition_of(defs@, key@) == Some(*d),
            None => definition_of(defs@, key@) is None,
        },
{
    match find_tag_definition(defs, key) {
        Some(j) => Some(&defs[j]),
        None => None,
    }
}

/// The value of tag `key` (see `value_of`).
pub(crate) fn find_tag_value_at<'a>(values: &'a [TagValueRecord], key: &str) -> (r: Option<&'a TagValueRecord>)
    ensures
        match r {
            Some(v) => value_of(values@, key@) == Some(*v),
            None => value_of(values@, key@) is None,
        },
{
    match find_tag_value(values, key) {
        Some(j) => Some(&values[j]),
        None => None,
    }
}

/// Whether `h` contains `n` once ASCII case is ignored on both sides.
pub open spec fn mentions_ignoring_case(h: Seq<char>, n: Seq<char>) -> bool {
    contains_text(ascii_lower(h), ascii_lower(n))
}

/// The free-text search looks in the asset's tag, its display name and
/// every one of its current tag values: a `text` filter with operator
/// `contains` (in any ASCII case) whose value reads as the text `n` passes
/// every asset whose tag, display name, or some tag value read as text
/// contains `n`, ASCII case ignored.
pub proof fn lemma_text_search_finds_mentions<R: Fn(&JsonValue) -> Option<u64>, O: Fn(u64, u64) -> NumberOrder, T: Fn(u64) -> String>(
    rules: NumberRules<R, O, T>,
    asset: AssetRecord,
    filter: AssetSearchFilter,
    defs: Seq<TagDefinitionMeta>,
    values: Seq<TagValueRecord>,
    cats: Seq<CategoryLink>,
    n: Seq<char>,
)
    requires
        filter.field@ == "text"@,
        ascii_lower(filter.op@) == "contains"@,
        filter.value matches Some(fv) && value_text(rules, fv) == Some(n),
        mentions_ignoring_case(asset.asset_tag@, n) || (asset.display_name matches Some(d)
            && mentions_ignoring_case(d@, n)) || exists|i: int|
            0 <= i < values.len() && (value_text(rules, #[trigger] values[i].value_json) matches Some(t)
                && mentions_ignoring_case(t, n)),
    ensures
        filter_outcome(rules, asset, filter, defs, values, cats) == Ok::<bool, Seq<char>>(true),
{
    let needle = search_needle(rules, filter);
    assert(needle == ascii_lower(n));
    if needle.len() > 0 && !mentions_ignoring_case(asset.asset_tag@, n) && !(asset.display_name matches Some(
        d,
    ) && mentions_ignoring_case(d@, n)) {
        let i = choose|i: int|
            0 <= i < values.len() && (value_text(rules, #[trigger] values[i].value_json) matches Some(t)
                && mentions_ignoring_case(t, n));
        assert(value_mentions(rules, values[i], needle));
    }
}

/// A free-text search for a non-empty text passes only assets that mention
/// it: when neither the asset's tag, nor its display name, nor any of its
/// current tag values read as text contains `n` (ASCII case ignored), the
/// `text` filter does not pass the asset.
pub proof fn lemma_text_search_needs_a_mention<R: Fn(&JsonValue) -> Option<u64>, O: Fn(u64, u64) -> NumberOrder, T: Fn(u64) -> String>(
    rules: NumberRules<R, O, T>,
    asset: AssetRecord,
    filter: AssetSearchFilter,
    defs: Seq<TagDefinitionMeta>,
    values: Seq<TagValueRecord>,
    cats: Seq<CategoryLink>,
    n: Seq<char>,
)
    requires
        filter.field@ == "text"@,
        ascii_lower(filter.op@) == "contains"@,
        filter.value matches Some(fv) && value_text(rules, fv) == Some(n),
        n.len() > 0,
        !mentions_ignoring_case(asset.asset_tag@, n),
        asset.display_name matches Some(d) ==> !mentions_ignoring_case(d@, n),
        forall|i: int|
            0 <= i < values.len() ==> (value_text(rules, #[trigger] values[i].value_json) matches Some(t)
                ==> !mentions_ignoring_case(t, n)),
    ensures
        filter_outcome(rules, asset, filter, defs, values, cats) == Ok::<bool, Seq<char>>(false),
{
    let needle = search_needle(rules, filter);
    assert(needle == ascii_lower(n));
    assert(needle.len() == n.len());
    assert forall|i: int| 0 <= i < values.len() implies !value_mentions(rules, #[trigger] values[i], needle) by {
        assert(value_text(rules, values[i].value_json) matches Some(t) ==> !mentions_ignoring_case(t, n));
    }
}

/// A free-text search with an empty text passes every asset, and one with
/// an operator other than `contains` (in any ASCII case) is refused.
pub proof fn lemma_text_search_empty_and_refused<R: Fn(&JsonValue) -> Option<u64>, O: Fn(u64, u64) -> NumberOrder, T: Fn(u64) -> String>(
    rules: NumberRules<R, O, T>,
    asset: AssetRecord,
    filter: AssetSearchFilter,
    defs: Seq<TagDefinitionMeta>,
    values: Seq<TagValueRecord>,
    cats: Seq<CategoryLink>,
)
    requires
        filter.field@ == "text"@,
    ensures
        ascii_lower(filter.op@) != "contains"@ ==> filter_outcome(rules, asset, filter, defs, values, cats) is Err,
        ascii_lower(filter.op@) == "contains"@ && (filter.value is None || (filter.value matches Some(fv) && value_text(
            rules,
            fv,
        ) == Some(Seq::<char>::empty()))) ==> filter_outcome(rules, asset, filter, defs, values, cats) == Ok::<
            bool,
            Seq<char>,
        >(true),
{
}

/// How a JSON value reads as text for a search: a string as itself, a
/// boolean as `true` or `false`, an integer as its decimal digits (with a
/// sign when negative), and `null`, arrays and objects as no text.
pub proof fn lemma_value_text_kinds<R: Fn(&JsonValue) -> Option<u64>, O: Fn(u64, u64) -> NumberOrder, T: Fn(u64) -> String>(
    rules: NumberRules<R, O, T>,
    v: JsonValue,
)
    ensures
        v matches JsonValue::String(s) ==> value_text(rules, v) == Some(s@),
        v matches JsonValue::Bool(b) ==> value_text(rules, v) == Some(if b { "true"@ } else { "false"@ }),
        v matches JsonValue::Number(JsonNumber::PosInt(u)) ==> value_text(rules, v) == Some(nat_text(u as nat)),
        v matches JsonValue::Number(JsonNumber::NegInt(i)) ==> value_text(rules, v) == Some(int_text(i as int)),
        v is Null || v is Array || v is Object ==> value_text(rules, v) is None,
{
}

} // verus!
