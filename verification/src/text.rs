//! Character-level helpers shared by the parsers and formatters of the crate:
//! conversion between strings and character vectors, ASCII case folding,
//! trimming, and decimal integer formatting and parsing.
use vstd::prelude::*;

verus! {

/// `std::string::String::push`: appends one character to the string.
#[verifier::external_body]
pub(crate) fn push_char(s: &mut String, c: char)
    ensures
        final(s)@ == old(s)@.push(c),
{
    s.push(c);
}

/// The characters of `s`, in order.
pub fn chars_of(s: &str) -> (v: Vec<char>)
    ensures
        v@ == s@,
{
    let mut v: Vec<char> = Vec::new();
    for c in it: s.chars()
        invariant
            v@ == it.seq().take(it.index() as int),
    {
        v.push(c);
    }
    v
}

} // verus!

verus! {

/// The string made of the characters `v`.
pub fn string_of(v: &Vec<char>) -> (s: String)
    ensures
        s@ == v@,
{
    let mut s = String::new();
    let mut i: usize = 0;
    while i < v.len()
        invariant
            i <= v.len(),
            s@ == v@.take(i as int),
        decreases v.len() - i,
    {
        push_char(&mut s, v[i]);
        i = i + 1;
        assert(v@.take(i as int) == v@.take((i - 1) as int).push(v@[i - 1]));
    }
    assert(v@.take(v.len() as int) == v@);
    s
}

/// Whether `c` is an ASCII decimal digit.
pub open spec fn is_digit(c: char) -> bool {
    '0' <= c && c <= '9'
}

/// The value of the ASCII decimal digit `c`.
pub open spec fn digit_value(c: char) -> int {
    (c as int) - ('0' as int)
}

/// The digit character for `d`, for `0 <= d < 10`.
pub open spec fn digit_char(d: int) -> char {
    (d + ('0' as int)) as char
}

/// Whether every character of `s` is an ASCII decimal digit.
pub open spec fn all_digits(s: Seq<char>) -> bool {
    forall|i: int| 0 <= i < s.len() ==> is_digit(#[trigger] s[i])
}

/// The number written by the decimal digits `s` (most significant first).
pub open spec fn digits_value(s: Seq<char>) -> nat
    decreases s.len(),
{
    if s.len() == 0 {
        0
    } else {
        (digits_value(s.drop_last()) * 10 + digit_value(s.last())) as nat
    }
}

/// The shortest decimal spelling of `n`.
pub open spec fn nat_text(n: nat) -> Seq<char>
    decreases n,
{
    if n < 10 {
        seq![digit_char(n as int)]
    } else {
        nat_text(n / 10).push(digit_char((n % 10) as int))
    }
}

/// The decimal spelling of `i`, with a leading `-` for negative numbers.
pub open spec fn int_text(i: int) -> Seq<char> {
    if i < 0 {
        seq!['-'] + nat_text((-i) as nat)
    } else {
        nat_text(i as nat)
    }
}

/// The integer that `s` spells as an optionally signed run of decimal digits
/// (the grammar of the standard library's integer parser), if it is one.
pub open spec fn signed_digits_value(s: Seq<char>) -> Option<int> {
    if s.len() > 0 && (s[0] == '+' || s[0] == '-') {
        let body = s.drop_first();
        if body.len() > 0 && all_digits(body) {
            if s[0] == '-' {
                Some(-(digits_value(body) as int))
            } else {
                Some(digits_value(body) as int)
            }
        } else {
            None
        }
    } else if s.len() > 0 && all_digits(s) {
        Some(digits_value(s) as int)
    } else {
        None
    }
}

/// What parsing `s` as an `i64` yields: the value, when `s` spells one in range.
pub open spec fn parse_i64_spec(s: Seq<char>) -> Option<i64> {
    match signed_digits_value(s) {
        Some(v) => if i64::MIN <= v <= i64::MAX {
            Some(v as i64)
        } else {
            None
        },
        None => None,
    }
}

/// A longer digit prefix never spells a smaller number.
pub proof fn lemma_digits_value_prefix_mono(s: Seq<char>, i: int, j: int)
    requires
        0 <= i <= j <= s.len(),
        all_digits(s),
    ensures
        digits_value(s.take(i)) <= digits_value(s.take(j)),
    decreases j - i,
{
    if i < j {
        lemma_digits_value_prefix_mono(s, i, j - 1);
        assert(s.take(j).drop_last() == s.take(j - 1));
        assert(is_digit(s[j - 1]));
    }
}

/// The digits of `n`, as characters.
pub fn u64_text(n: u64) -> (s: String)
    ensures
        s@ == nat_text(n as nat),
{
    let mut digits: Vec<char> = Vec::new();
    let mut m: u64 = n;
    // digits holds the low-order digits of n in reverse order
    while m >= 10
        invariant
            nat_text(n as nat) == nat_text(m as nat) + digits@.reverse(),
        decreases m,
    {
        let d: u64 = m % 10;
        proof {
            assert(nat_text(m as nat) == nat_text((m / 10) as nat).push(digit_char((m % 10) as int)));
            assert(digits@.push(digit_char(d as int)).reverse()
                == seq![digit_char(d as int)] + digits@.reverse());
            assert(nat_text(m as nat) + digits@.reverse()
                == nat_text((m / 10) as nat) + digits@.push(digit_char(d as int)).reverse());
        }
        digits.push(((d as u8) + 48u8) as char);
        m = m / 10;
    }
    let mut out: Vec<char> = Vec::new();
    out.push(((m as u8) + 48u8) as char);
    let mut k: usize = digits.len();
    while k > 0
        invariant
            k <= digits.len(),
            out@ + digits@.take(k as int).reverse() == nat_text(n as nat),
        decreases k,
    {
        k = k - 1;
        proof {
            assert(digits@.take((k + 1) as int).reverse()
                == seq![digits@[k as int]] + digits@.take(k as int).reverse());
        }
        out.push(digits[k]);
        proof {
            assert(out@ + digits@.take(k as int).reverse()
                == (out@.drop_last() + seq![digits@[k as int]]) + digits@.take(k as int).reverse());
        }
    }
    proof {
        assert(digits@.take(0).reverse() == Seq::<char>::empty());
        assert(out@ + Seq::<char>::empty() == out@);
    }
    string_of(&out)
}

/// The decimal spelling of `i`.
pub fn i64_text(i: i64) -> (s: String)
    ensures
        s@ == int_text(i as int),
{
    if i < 0 {
        let magnitude: u64 = (-(i as i128)) as u64;
        let digits = u64_text(magnitude);
        let mut s = String::from_str("-");
        proof {
            reveal_strlit("-");
        }
        s.append(digits.as_str());
        s
    } else {
        u64_text(i as u64)
    }
}

} // verus!

verus! {

/// Parses `s` as the standard library parses an `i64`: an optional sign and at
/// least one ASCII digit, with a value in range.
pub fn parse_i64_chars(s: &Vec<char>) -> (r: Option<i64>)
    ensures
        r == parse_i64_spec(s@),
{
    let n = s.len();
    if n == 0 {
        return None;
    }
    let mut start: usize = 0;
    let mut negative = false;
    if s[0] == '+' || s[0] == '-' {
        negative = s[0] == '-';
        start = 1;
        if n == 1 {
            return None;
        }
    }
    let ghost body = s@.subrange(start as int, n as int);
    proof {
        if start == 1 {
            assert(body == s@.drop_first());
        } else {
            assert(body == s@);
        }
    }
    let mut acc: u128 = 0;
    let mut overflow = false;
    let mut i: usize = start;
    while i < n
        invariant
            start <= i <= n,
            n == s.len(),
            body == s@.subrange(start as int, n as int),
            start == 1 ==> body == s@.drop_first() && (s@[0] == '+' || s@[0] == '-'),
            start == 0 ==> body == s@ && !(s@[0] == '+' || s@[0] == '-'),
            start <= 1,
            negative == (start == 1 && s@[0] == '-'),
            all_digits(body.take(i - start)),
            !overflow ==> acc == digits_value(body.take(i - start)),
            !overflow ==> acc <= 9223372036854775808,
            overflow ==> digits_value(body.take(i - start)) > 9223372036854775808,
        decreases n - i,
    {
        let c = s[i];
        if !('0' <= c && c <= '9') {
            proof {
                assert(body[i - start] == c);
                assert(!all_digits(body));
                if start == 0 {
                    assert(!(s@.len() > 0 && all_digits(s@)));
                }
            }
            return None;
        }
        proof {
            assert(body.take(i - start + 1).drop_last() == body.take(i - start));
            assert(body.take(i - start + 1).last() == c);
        }
        if !overflow {
            let d: u128 = ((c as u32) - ('0' as u32)) as u128;
            acc = acc * 10 + d;
            if acc > 9223372036854775808 {
                overflow = true;
            }
        }
        i = i + 1;
    }
    proof {
        assert(body.take(n - start) == body);
        if start == 1 {
            assert(s@[0] == '+' || s@[0] == '-');
        } else {
            assert(!(s@[0] == '+' || s@[0] == '-'));
        }
    }
    if overflow {
        return None;
    }
    if negative {
        let v: i128 = -(acc as i128);
        if v < -9223372036854775808 {
            None
        } else {
            Some(v as i64)
        }
    } else {
        if acc > 9223372036854775807 {
            None
        } else {
            Some(acc as i64)
        }
    }
}

/// Parses `s` as the standard library parses an `i64`.
pub fn parse_i64(s: &str) -> (r: Option<i64>)
    ensures
        r == parse_i64_spec(s@),
{
    let v = chars_of(s);
    parse_i64_chars(&v)
}

} // verus!

verus! {

/// Whether the characters `t` spell exactly `lit`.
pub fn eq_lit(t: &Vec<char>, lit: &str) -> (b: bool)
    ensures
        b == (t@ == lit@),
{
    let l = chars_of(lit);
    eq_chars(t, &l)
}

/// Whether two character vectors are equal.
pub fn eq_chars(a: &Vec<char>, b: &Vec<char>) -> (r: bool)
    ensures
        r == (a@ == b@),
{
    if a.len() != b.len() {
        return false;
    }
    let mut i: usize = 0;
    while i < a.len()
        invariant
            i <= a.len(),
            a.len() == b.len(),
            forall|k: int| 0 <= k < i ==> a@[k] == b@[k],
        decreases a.len() - i,
    {
        if a[i] != b[i] {
            return false;
        }
        i = i + 1;
    }
    assert(a@ =~= b@);
    true
}

/// Appends the characters `v` to `s`.
pub fn append_chars(s: &mut String, v: &Vec<char>)
    ensures
        final(s)@ == old(s)@ + v@,
{
    let mut i: usize = 0;
    while i < v.len()
        invariant
            i <= v.len(),
            s@ == old(s)@ + v@.take(i as int),
        decreases v.len() - i,
    {
        push_char(s, v[i]);
        i = i + 1;
        assert(v@.take(i as int) == v@.take((i - 1) as int).push(v@[i - 1]));
    }
    assert(v@.take(v.len() as int) == v@);
}

/// The index of the first `c` in `s` at or after `i`, if any.
pub open spec fn index_of_from(s: Seq<char>, c: char, i: int) -> Option<int>
    decreases s.len() - i,
{
    if i < 0 || i >= s.len() {
        None
    } else if s[i] == c {
        Some(i)
    } else {
        index_of_from(s, c, i + 1)
    }
}

/// Where a found index lies.
pub proof fn lemma_index_of_from_bounds(s: Seq<char>, c: char, i: int)
    ensures
        index_of_from(s, c, i) matches Some(k) ==> i <= k < s.len() && s[k] == c,
    decreases s.len() - i,
{
    if 0 <= i < s.len() && s[i] != c {
        lemma_index_of_from_bounds(s, c, i + 1);
    }
}

/// The index of the first `c` in `s` at or after `from`, if any.
pub fn find_char(s: &Vec<char>, c: char, from: usize) -> (r: Option<usize>)
    ensures
        r matches Some(k) ==> index_of_from(s@, c, from as int) == Some(k as int),
        r is None ==> index_of_from(s@, c, from as int) is None,
{
    let mut i: usize = from;
    while i < s.len()
        invariant
            from <= i,
            index_of_from(s@, c, from as int) == index_of_from(s@, c, i as int),
        decreases s.len() - i,
    {
        if s[i] == c {
            return Some(i);
        }
        i = i + 1;
    }
    None
}

/// The characters of `v` from `lo` up to (not including) `hi`.
pub fn slice_chars(v: &Vec<char>, lo: usize, hi: usize) -> (r: Vec<char>)
    requires
        lo <= hi <= v.len(),
    ensures
        r@ == v@.subrange(lo as int, hi as int),
{
    let mut r: Vec<char> = Vec::new();
    let mut i: usize = lo;
    while i < hi
        invariant
            lo <= i <= hi,
            hi <= v.len(),
            r@ == v@.subrange(lo as int, i as int),
        decreases hi - i,
    {
        r.push(v[i]);
        i = i + 1;
        assert(v@.subrange(lo as int, i as int) == v@.subrange(lo as int, (i - 1) as int).push(v@[i - 1]));
    }
    r
}

} // verus!

verus! {

/// Whether `s` is an optionally signed, non-empty run of ASCII digits.
pub fn signed_digits_ok(s: &Vec<char>) -> (b: bool)
    ensures
        b == (signed_digits_value(s@) is Some),
{
    let n = s.len();
    if n == 0 {
        return false;
    }
    let start: usize = if s[0] == '+' || s[0] == '-' { 1 } else { 0 };
    if start == n {
        return false;
    }
    let ghost body = s@.subrange(start as int, n as int);
    proof {
        if start == 1 {
            assert(body == s@.drop_first());
        } else {
            assert(body == s@);
        }
    }
    let mut i: usize = start;
    while i < n
        invariant
            start <= i <= n,
            n == s.len(),
            body == s@.subrange(start as int, n as int),
            start <= 1,
            start == 1 ==> body == s@.drop_first() && (s@[0] == '+' || s@[0] == '-'),
            start == 0 ==> body == s@ && !(s@[0] == '+' || s@[0] == '-'),
            forall|k: int| start <= k < i ==> is_digit(s@[k]),
        decreases n - i,
    {
        if !('0' <= s[i] && s[i] <= '9') {
            assert(!is_digit(body[i - start]));
            return false;
        }
        i = i + 1;
    }
    assert(all_digits(body)) by {
        assert forall|k: int| 0 <= k < body.len() implies is_digit(#[trigger] body[k]) by {
            assert(body[k] == s@[k + start]);
        }
    }
    true
}

} // verus!

verus! {

/// `n` zero digits.
pub open spec fn zeros(n: int) -> Seq<char> {
    Seq::new(if n > 0 { n as nat } else { 0 }, |i: int| '0')
}

/// The decimal spelling of `v`, padded with zeros after the sign to at least
/// `width` characters.
pub open spec fn padded_int_text(v: int, width: int) -> Seq<char> {
    let digits = if v < 0 { nat_text((-v) as nat) } else { nat_text(v as nat) };
    let sign: Seq<char> = if v < 0 { seq!['-'] } else { seq![] };
    sign + zeros(width - sign.len() - digits.len()) + digits
}

/// The decimal spelling of `v`, zero-padded after the sign to `width`.
pub fn zero_padded(v: i64, width: usize) -> (s: String)
    ensures
        s@ == padded_int_text(v as int, width as int),
{
    let magnitude: u64 = if v < 0 { (0i128 - v as i128) as u64 } else { v as u64 };
    let digits = u64_text(magnitude);
    let mut s = String::new();
    let mut used: usize = 0;
    if v < 0 {
        push_char(&mut s, '-');
        used = 1;
    }
    let dlen = digits.as_str().unicode_len();
    let ghost sign: Seq<char> = if v < 0 { seq!['-'] } else { seq![] };
    assert(s@ == sign);
    let mut k: usize = 0;
    let pad: usize = if width > dlen && width - dlen > used { width - dlen - used } else { 0 };
    while k < pad
        invariant
            k <= pad,
            s@ == sign + zeros(k as int),
        decreases pad - k,
    {
        push_char(&mut s, '0');
        k = k + 1;
        assert(zeros(k as int) == zeros((k - 1) as int).push('0'));
    }
    s.append(digits.as_str());
    assert(zeros(pad as int) == zeros(width - sign.len() - digits@.len()));
    s
}

} // verus!

verus! {

/// The parts of `s` from index `start` on, cut at each `sep`.
pub open spec fn split_parts(s: Seq<char>, sep: char, start: int) -> Seq<Seq<char>>
    decreases s.len() - start,
{
    if start < 0 || start > s.len() {
        seq![]
    } else {
        match index_of_from(s, sep, start) {
            Some(k) => if start <= k < s.len() {
                seq![s.subrange(start, k)] + split_parts(s, sep, k + 1)
            } else {
                seq![]
            },
            None => seq![s.subrange(start, s.len() as int)],
        }
    }
}

/// The texts `ts` joined with `sep` between each two.
pub open spec fn join_with(ts: Seq<Seq<char>>, sep: char) -> Seq<char>
    decreases ts.len(),
{
    if ts.len() == 0 {
        seq![]
    } else if ts.len() == 1 {
        ts[0]
    } else {
        ts[0] + seq![sep] + join_with(ts.drop_first(), sep)
    }
}

/// Searching from `i` for a character that does not occur before `j`, where
/// `j` holds it, finds `j`.
pub proof fn lemma_index_of_from_skips(s: Seq<char>, c: char, i: int, j: int)
    requires
        0 <= i <= j <= s.len(),
        forall|k: int| i <= k < j ==> s[k] != c,
    ensures
        index_of_from(s, c, i) == index_of_from(s, c, j),
    decreases j - i,
{
    if i < j {
        lemma_index_of_from_skips(s, c, i + 1, j);
    }
}

/// Cutting a text made by joining parts that do not hold the separator gives
/// the parts back.
pub proof fn lemma_split_join(s: Seq<char>, sep: char, start: int, ts: Seq<Seq<char>>)
    requires
        ts.len() > 0,
        0 <= start <= s.len(),
        s.subrange(start, s.len() as int) == join_with(ts, sep),
        forall|i: int, k: int| 0 <= i < ts.len() && 0 <= k < ts[i].len() ==> (#[trigger] ts[i][k]) != sep,
    ensures
        split_parts(s, sep, start) == ts,
    decreases ts.len(),
{
    let t0 = ts[0];
    let e = start + t0.len();
    let whole = s.subrange(start, s.len() as int);
    if ts.len() > 1 {
        assert(join_with(ts, sep) == t0 + seq![sep] + join_with(ts.drop_first(), sep));
    } else {
        assert(join_with(ts, sep) == t0);
    }
    assert(e <= s.len());
    assert forall|k: int| start <= k < e implies s[k] != sep by {
        assert(s[k] == whole[k - start]);
        assert(whole[k - start] == t0[k - start]);
        assert(ts[0][k - start] != sep);
    }
    lemma_index_of_from_skips(s, sep, start, e);
    if ts.len() == 1 {
        assert(e == s.len());
        assert(index_of_from(s, sep, e) is None);
        assert(s.subrange(start, s.len() as int) == t0);
        assert(split_parts(s, sep, start) == seq![t0]);
        assert(seq![t0] == ts);
    } else {
        let rest = ts.drop_first();
        assert(join_with(ts, sep) == t0 + seq![sep] + join_with(rest, sep));
        assert(s[e] == sep) by {
            assert(s[e] == s.subrange(start, s.len() as int)[e - start]);
        }
        assert(index_of_from(s, sep, e) == Some(e));
        assert(s.subrange(start, e) == t0) by {
            assert forall|k: int| 0 <= k < t0.len() implies s.subrange(start, e)[k] == t0[k] by {
                assert(s.subrange(start, e)[k] == s.subrange(start, s.len() as int)[k]);
            }
        }
        assert(s.subrange(e + 1, s.len() as int) == join_with(rest, sep)) by {
            assert forall|k: int| 0 <= k < s.len() - (e + 1) implies s.subrange(e + 1, s.len() as int)[k]
                == join_with(rest, sep)[k] by {
                assert(s.subrange(e + 1, s.len() as int)[k] == whole[t0.len() + 1 + k]);
            }
        }
        assert forall|i: int, k: int| 0 <= i < rest.len() && 0 <= k < rest[i].len() implies (#[trigger] rest[i][k])
            != sep by {
            assert(rest[i] == ts[i + 1]);
        }
        lemma_split_join(s, sep, e + 1, rest);
        assert(split_parts(s, sep, start) == seq![t0] + rest);
        assert(seq![t0] + rest == ts);
    }
}

} // verus!

verus! {

/// The spelling of a number is a non-empty run of digits that spells it.
pub proof fn lemma_nat_text(n: nat)
    ensures
        nat_text(n).len() > 0,
        all_digits(nat_text(n)),
        digits_value(nat_text(n)) == n,
    decreases n,
{
    if n < 10 {
        let c = digit_char(n as int);
        assert(c as int == n + 48);
        assert(nat_text(n) == seq![c]);
        assert(nat_text(n).drop_last() == Seq::<char>::empty());
        assert(nat_text(n).last() == c);
        assert(digit_value(c) == n);
        assert(digits_value(Seq::<char>::empty()) == 0);
        assert(digits_value(nat_text(n)) == digits_value(nat_text(n).drop_last()) * 10 + digit_value(
            nat_text(n).last(),
        ));
    } else {
        lemma_nat_text(n / 10);
        let c = digit_char((n % 10) as int);
        assert(c as int == (n % 10) + 48);
        assert(nat_text(n).drop_last() == nat_text(n / 10));
        assert(nat_text(n).last() == c);
        assert(digit_value(c) == n % 10);
        assert((n / 10) * 10 + n % 10 == n) by (nonlinear_arith);
        assert(digits_value(nat_text(n)) == digits_value(nat_text(n).drop_last()) * 10 + digit_value(
            nat_text(n).last(),
        ));
        assert(all_digits(nat_text(n))) by {
            assert forall|i: int| 0 <= i < nat_text(n).len() implies is_digit(#[trigger] nat_text(n)[i]) by {
                if i < nat_text(n).len() - 1 {
                    assert(nat_text(n)[i] == nat_text(n / 10)[i]);
                }
            }
        }
    }
}

/// The spelling of an `i64` parses back to it, and holds only digits and a
/// leading `-`.
pub proof fn lemma_int_text_parses(v: i64)
    ensures
        parse_i64_spec(int_text(v as int)) == Some(v),
        int_text(v as int).len() > 0,
        forall|k: int| 0 <= k < int_text(v as int).len() ==> (is_digit(#[trigger] int_text(v as int)[k]) || int_text(v as int)[k] == '-'),
{
    let s = int_text(v as int);
    if v < 0 {
        let body = nat_text((-v) as nat);
        lemma_nat_text((-v) as nat);
        assert(s == seq!['-'] + body);
        assert(s.drop_first() == body);
        assert forall|k: int| 0 <= k < s.len() implies (is_digit(#[trigger] s[k]) || s[k] == '-') by {
            if k > 0 {
                assert(s[k] == body[k - 1]);
            }
        }
    } else {
        lemma_nat_text(v as nat);
        assert(is_digit(s[0]));
    }
}

} // verus!

verus! {

/// `c` with ASCII upper-case letters made lower-case.
pub open spec fn ascii_lower_char(c: char) -> char {
    if 'A' <= c && c <= 'Z' {
        ((c as int) + 32) as char
    } else {
        c
    }
}

/// `s` with ASCII upper-case letters made lower-case.
pub open spec fn ascii_lower(s: Seq<char>) -> Seq<char> {
    s.map_values(|c: char| ascii_lower_char(c))
}

/// The characters of `s` with ASCII upper-case letters made lower-case.
pub fn to_ascii_lower(s: &str) -> (v: Vec<char>)
    ensures
        v@ == ascii_lower(s@),
{
    let chars = chars_of(s);
    let mut out: Vec<char> = Vec::new();
    let mut i: usize = 0;
    while i < chars.len()
        invariant
            i <= chars@.len(),
            chars@ == s@,
            out@ == ascii_lower(s@).take(i as int),
        decreases chars.len() - i,
    {
        let c = chars[i];
        let l = if 'A' <= c && c <= 'Z' {
            ((c as u32) + 32) as u8 as char
        } else {
            c
        };
        proof {
            if 'A' <= c && c <= 'Z' {
                assert(l as int == (c as int) + 32);
            }
            assert(l == ascii_lower_char(c));
        }
        out.push(l);
        i = i + 1;
        assert(out@ == ascii_lower(s@).take(i as int));
    }
    assert(ascii_lower(s@).take(i as int) == ascii_lower(s@));
    out
}

} // verus!

verus! {

/// Whether `c` is white space in Unicode's sense (the `White_Space`
/// property, which `char::is_whitespace` follows).
pub open spec fn is_white_space(c: char) -> bool {
    ||| '\u{9}' <= c && c <= '\u{d}'
    ||| c == ' '
    ||| c == '\u{85}'
    ||| c == '\u{a0}'
    ||| c == '\u{1680}'
    ||| '\u{2000}' <= c && c <= '\u{200a}'
    ||| c == '\u{2028}'
    ||| c == '\u{2029}'
    ||| c == '\u{202f}'
    ||| c == '\u{205f}'
    ||| c == '\u{3000}'
}

/// How many white-space characters `s` starts with.
pub open spec fn leading_white_space(s: Seq<char>) -> nat
    decreases s.len(),
{
    if s.len() > 0 && is_white_space(s[0]) {
        1 + leading_white_space(s.drop_first())
    } else {
        0
    }
}

/// How many white-space characters `s` ends with.
pub open spec fn trailing_white_space(s: Seq<char>) -> nat
    decreases s.len(),
{
    if s.len() > 0 && is_white_space(s.last()) {
        1 + trailing_white_space(s.drop_last())
    } else {
        0
    }
}

/// `s` without its leading and trailing white space.
pub open spec fn trimmed_text(s: Seq<char>) -> Seq<char> {
    let rest = s.skip(leading_white_space(s) as int);
    rest.take(rest.len() - trailing_white_space(rest))
}

/// `str::trim`: the text of `s` without leading and trailing white space,
/// white space being what Unicode's `White_Space` property names.
#[verifier::external_body]
pub(crate) fn trim_str(s: &str) -> (r: &str)
    ensures
        r@ == trimmed_text(s@),
{
    s.trim()
}

} // verus!

verus! {

/// Whether `a` comes no later than `b` in lexicographic order of characters.
pub open spec fn text_le(a: Seq<char>, b: Seq<char>) -> bool
    decreases a.len(),
{
    if a.len() == 0 {
        true
    } else if b.len() == 0 {
        false
    } else if a[0] != b[0] {
        a[0] < b[0]
    } else {
        text_le(a.drop_first(), b.drop_first())
    }
}

/// Lexicographic order is total, antisymmetric and transitive.
pub proof fn lemma_text_le_order(a: Seq<char>, b: Seq<char>, c: Seq<char>)
    ensures
        text_le(a, a),
        text_le(a, b) || text_le(b, a),
        text_le(a, b) && text_le(b, a) ==> a == b,
        text_le(a, b) && text_le(b, c) ==> text_le(a, c),
    decreases a.len(),
{
    if a.len() > 0 {
        lemma_text_le_order(a.drop_first(), a.drop_first(), a.drop_first());
        if b.len() > 0 {
            if c.len() > 0 {
                lemma_text_le_order(a.drop_first(), b.drop_first(), c.drop_first());
            } else {
                lemma_text_le_order(a.drop_first(), b.drop_first(), b.drop_first());
            }
            if text_le(a, b) && text_le(b, a) {
                assert(a[0] == b[0]);
                assert(a.drop_first() == b.drop_first());
                assert(a == seq![a[0]] + a.drop_first());
                assert(b == seq![b[0]] + b.drop_first());
            }
        }
    } else {
        if text_le(b, a) {
            assert(b.len() == 0);
            assert(a =~= b);
        }
    }
}

/// Whether `a` comes no later than `b` in lexicographic order.
pub fn text_le_exec(a: &Vec<char>, b: &Vec<char>) -> (r: bool)
    ensures
        r == text_le(a@, b@),
{
    let mut i: usize = 0;
    assert(a@.skip(0) == a@ && b@.skip(0) == b@);
    while i < a.len() && i < b.len() && a[i] == b[i]
        invariant
            i <= a@.len(),
            i <= b@.len(),
            text_le(a@, b@) == text_le(a@.skip(i as int), b@.skip(i as int)),
        decreases a.len() - i,
    {
        assert(a@.skip(i as int).drop_first() == a@.skip(i + 1));
        assert(b@.skip(i as int).drop_first() == b@.skip(i + 1));
        i = i + 1;
    }
    if i == a.len() {
        assert(a@.skip(i as int).len() == 0);
        true
    } else if i == b.len() {
        assert(b@.skip(i as int).len() == 0);
        false
    } else {
        assert(a@.skip(i as int)[0] == a@[i as int]);
        assert(b@.skip(i as int)[0] == b@[i as int]);
        a[i] < b[i]
    }
}


/// Whether `n` occurs in `h` starting at position `i`.
pub open spec fn occurs_at(h: Seq<char>, n: Seq<char>, i: int) -> bool {
    0 <= i && i + n.len() <= h.len() && h.subrange(i, i + n.len()) == n
}

/// Whether `n` occurs in `h` as a run of consecutive characters (the empty
/// text occurs in every text).
pub open spec fn contains_text(h: Seq<char>, n: Seq<char>) -> bool {
    exists|i: int| #[trigger] occurs_at(h, n, i)
}

/// Whether `n` occurs in `h` (see `contains_text`).
pub fn contains_chars(h: &Vec<char>, n: &Vec<char>) -> (b: bool)
    ensures
        b == contains_text(h@, n@),
{
    if n.len() > h.len() {
        return false;
    }
    let hl: usize = h.len();
    let last = hl - n.len();
    let mut i: usize = 0;
    loop
        invariant
            hl == h@.len(),
            i <= last,
            last == h@.len() - n@.len(),
            n@.len() <= h@.len(),
            forall|k: int| 0 <= k < i ==> !#[trigger] occurs_at(h@, n@, k),
        ensures
            forall|k: int| 0 <= k <= last ==> !#[trigger] occurs_at(h@, n@, k),
        decreases last - i,
    {
        let mut j: usize = 0;
        let mut same = true;
        while j < n.len()
            invariant
                hl == h@.len(),
                i <= last,
                last == h@.len() - n@.len(),
                i + n@.len() <= h@.len(),
                j <= n@.len(),
                same ==> forall|q: int| 0 <= q < j ==> h@[i + q] == n@[q],
                !same ==> !occurs_at(h@, n@, i as int),
            decreases n.len() - j,
        {
            assert(i + j < hl);
            let at: usize = i + j;
            if same && h[at] != n[j] {
                same = false;
                assert(h@.subrange(i as int, i + n@.len())[j as int] == h@[i + j]);
            }
            j = j + 1;
        }
        if same {
            assert(h@.subrange(i as int, i + n@.len()) =~= n@);
            assert(occurs_at(h@, n@, i as int));
            return true;
        }
        if i == last {
            break;
        }
        i = i + 1;
    }
    proof {
        assert forall|k: int| !#[trigger] occurs_at(h@, n@, k) by {
            if 0 <= k <= last {
            }
        }
    }
    false
}

} // verus!
