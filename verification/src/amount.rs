//! The decimal-string model of monetary amounts, and the amount normalizer:
//! trim surrounding whitespace and quotes, keep what stands before a decimal
//! point, and round-trip the rest through an arbitrary-precision integer.

use vstd::prelude::*;
use crate::strutil::{is_digit_char, digit_val, is_ws_char, is_ws};
use crate::bigint::{big_from_str, big_to_string};

verus! {

/// Value of a digit string in which '_' separators are skipped.
pub open spec fn digits_value(s: Seq<char>) -> int
    decreases s.len(),
{
    if s.len() == 0 {
        0
    } else if s.last() == '_' {
        digits_value(s.drop_last())
    } else {
        digits_value(s.drop_last()) * 10 + digit_val(s.last())
    }
}

/// A digit string: non-empty, led by a digit, holding digits and '_'
/// separators only.
pub open spec fn valid_digits_body(s: Seq<char>) -> bool {
    s.len() > 0 && is_digit_char(s[0])
    && forall|i: int| 0 <= i < s.len() ==> is_digit_char(s[i]) || s[i] == '_'
}

/// What `BigInt::from_str` accepts: an optional single sign, then a digit
/// string.
pub open spec fn valid_bigint_str(s: Seq<char>) -> bool {
    if s.len() > 0 && (s[0] == '-' || s[0] == '+') {
        valid_digits_body(s.skip(1))
    } else {
        valid_digits_body(s)
    }
}

/// The signed value of such a string.
pub open spec fn bigint_str_value(s: Seq<char>) -> int {
    if s.len() > 0 && s[0] == '-' {
        -digits_value(s.skip(1))
    } else if s.len() > 0 && s[0] == '+' {
        digits_value(s.skip(1))
    } else {
        digits_value(s)
    }
}

/// The value of a decimal string, or zero where it does not parse.
pub open spec fn str_value_or_zero(s: Seq<char>) -> int {
    if valid_bigint_str(s) {
        bigint_str_value(s)
    } else {
        0
    }
}

/// Digits with no leading zero (a lone "0" is allowed).
pub open spec fn canonical_digits(s: Seq<char>) -> bool {
    &&& s.len() > 0
    &&& (forall|i: int| 0 <= i < s.len() ==> is_digit_char(s[i]))
    &&& (s.len() > 1 ==> s[0] != '0')
}

/// The canonical decimal rendering of an integer: digits with no leading
/// zero, with a '-' in front for a negative value (never "-0").
pub open spec fn canonical_dec_str(s: Seq<char>) -> bool {
    if s.len() > 0 && s[0] == '-' {
        canonical_digits(s.skip(1)) && s.skip(1)[0] != '0'
    } else {
        canonical_digits(s)
    }
}

proof fn lemma_digits_pos(s: Seq<char>)
    requires
        s.len() > 0,
        forall|i: int| 0 <= i < s.len() ==> is_digit_char(s[i]),
        s[0] != '0',
    ensures
        digits_value(s) >= 1,
    decreases s.len(),
{
    if s.len() == 1 {
        assert(s.drop_last() =~= Seq::<char>::empty());
        assert(s.last() == s[0]);
    } else {
        lemma_digits_pos(s.drop_last());
        assert(digits_value(s.drop_last()) * 10 >= 10) by (nonlinear_arith)
            requires
                digits_value(s.drop_last()) >= 1,
        ;
        assert(digit_val(s.last()) >= 0);
    }
}

proof fn lemma_canonical_ge_ten(s: Seq<char>)
    requires
        canonical_digits(s),
        s.len() >= 2,
    ensures
        digits_value(s) >= 10,
{
    assert(s.drop_last()[0] == s[0]);
    lemma_digits_pos(s.drop_last());
    assert(digits_value(s.drop_last()) * 10 >= 10) by (nonlinear_arith)
        requires
            digits_value(s.drop_last()) >= 1,
    ;
    assert(digit_val(s.last()) >= 0);
}

proof fn lemma_single_digit_value(s: Seq<char>)
    requires
        s.len() == 1,
        is_digit_char(s[0]),
    ensures
        digits_value(s) == digit_val(s[0]),
        0 <= digits_value(s) <= 9,
{
    assert(s.last() == s[0]);
    assert(s.last() != '_');
    assert(s.drop_last() =~= Seq::<char>::empty());
    assert(digits_value(s.drop_last()) == 0);
    assert(digits_value(s) == digits_value(s.drop_last()) * 10 + digit_val(s.last()));
}

/// Two canonical digit strings with one value are one string.
proof fn lemma_canonical_digits_unique(a: Seq<char>, b: Seq<char>)
    requires
        canonical_digits(a),
        canonical_digits(b),
        digits_value(a) == digits_value(b),
    ensures
        a == b,
    decreases a.len(),
{
    let v = digits_value(a);
    if a.len() == 1 && b.len() == 1 {
        lemma_single_digit_value(a);
        lemma_single_digit_value(b);
        assert(digit_val(a[0]) == digit_val(b[0]));
        assert(a[0] == b[0]);
        assert(a =~= b);
    } else if a.len() == 1 {
        lemma_single_digit_value(a);
        lemma_canonical_ge_ten(b);
        assert(false);
    } else if b.len() == 1 {
        lemma_single_digit_value(b);
        lemma_canonical_ge_ten(a);
        assert(false);
    } else {
        let qa = digits_value(a.drop_last());
        let da = digit_val(a.last());
        let qb = digits_value(b.drop_last());
        let db = digit_val(b.last());
        vstd::arithmetic::div_mod::lemma_fundamental_div_mod_converse(v, 10, qa, da);
        vstd::arithmetic::div_mod::lemma_fundamental_div_mod_converse(v, 10, qb, db);
        assert(qa == qb && da == db);
        assert(a.drop_last()[0] == a[0]);
        assert(b.drop_last()[0] == b[0]);
        lemma_canonical_digits_unique(a.drop_last(), b.drop_last());
        assert(a.last() == b.last());
        assert(a.len() == b.len()) by {
            assert(a.drop_last().len() == b.drop_last().len());
        }
        assert forall|i: int| 0 <= i < a.len() implies a[i] == b[i] by {
            if i < a.len() - 1 {
                assert(a.drop_last()[i] == a[i]);
                assert(b.drop_last()[i] == b[i]);
            } else {
                assert(a.last() == a[i] && b.last() == b[i]);
            }
        }
        assert(a =~= b);
    }
}

/// Canonical decimal strings name integers uniquely: equal values mean
/// equal strings, so a contract that fixes a result's value and canonical
/// form fixes the result's text.
pub proof fn lemma_canonical_dec_unique(a: Seq<char>, b: Seq<char>)
    requires
        canonical_dec_str(a),
        canonical_dec_str(b),
        bigint_str_value(a) == bigint_str_value(b),
    ensures
        a == b,
{
    if a.len() > 0 && a[0] == '-' {
        lemma_digits_pos(a.skip(1));
        assert(bigint_str_value(a) <= -1);
    } else {
        lemma_digits_value_nonneg(a);
        assert(a[0] != '-' && a[0] != '+');
        assert(bigint_str_value(a) == digits_value(a) >= 0);
    }
    if b.len() > 0 && b[0] == '-' {
        lemma_digits_pos(b.skip(1));
        assert(bigint_str_value(b) <= -1);
    } else {
        lemma_digits_value_nonneg(b);
        assert(b[0] != '-' && b[0] != '+');
        assert(bigint_str_value(b) == digits_value(b) >= 0);
    }
    if a.len() > 0 && a[0] == '-' {
        assert(b.len() > 0 && b[0] == '-');
        lemma_canonical_digits_unique(a.skip(1), b.skip(1));
        assert(a.len() == b.len());
        assert forall|i: int| 0 <= i < a.len() implies a[i] == b[i] by {
            if i > 0 {
                assert(a.skip(1)[i - 1] == a[i]);
                assert(b.skip(1)[i - 1] == b[i]);
            }
        }
        assert(a =~= b);
    } else {
        assert(!(b.len() > 0 && b[0] == '-'));
        lemma_canonical_digits_unique(a, b);
    }
}

pub proof fn lemma_digits_value_nonneg(s: Seq<char>)
    requires
        forall|i: int| 0 <= i < s.len() ==> is_digit_char(s[i]) || s[i] == '_',
    ensures
        digits_value(s) >= 0,
    decreases s.len(),
{
    if s.len() > 0 {
        lemma_digits_value_nonneg(s.drop_last());
    }
}

/// `s` with leading and trailing whitespace removed.
pub open spec fn trim_ws(s: Seq<char>) -> Seq<char>
    decreases s.len(),
{
    if s.len() > 0 && is_ws_char(s.first()) {
        trim_ws(s.drop_first())
    } else if s.len() > 0 && is_ws_char(s.last()) {
        trim_ws(s.drop_last())
    } else {
        s
    }
}

/// `s` with leading and trailing '"' removed.
pub open spec fn trim_quotes(s: Seq<char>) -> Seq<char>
    decreases s.len(),
{
    if s.len() > 0 && s.first() == '"' {
        trim_quotes(s.drop_first())
    } else if s.len() > 0 && s.last() == '"' {
        trim_quotes(s.drop_last())
    } else {
        s
    }
}

/// Index of the first '.' in `s`, or its length.
pub open spec fn dot_cut(s: Seq<char>) -> int
    decreases s.len(),
{
    if s.len() == 0 {
        0
    } else if s.first() == '.' {
        0
    } else {
        1 + dot_cut(s.drop_first())
    }
}

/// What stands before the first '.' of `s`.
pub open spec fn before_dot(s: Seq<char>) -> Seq<char> {
    s.subrange(0, dot_cut(s))
}

proof fn lemma_dot_cut(s: Seq<char>)
    ensures
        0 <= dot_cut(s) <= s.len(),
        forall|k: int| 0 <= k < dot_cut(s) ==> s[k] != '.',
        dot_cut(s) < s.len() ==> s[dot_cut(s)] == '.',
    decreases s.len(),
{
    if s.len() > 0 && s.first() != '.' {
        lemma_dot_cut(s.drop_first());
        assert forall|k: int| 0 <= k < dot_cut(s) implies s[k] != '.' by {
            if k > 0 {
                assert(s.drop_first()[k - 1] != '.');
            }
        }
        if dot_cut(s) < s.len() {
            assert(s.drop_first()[dot_cut(s) - 1] == '.');
        }
    }
}

/// The value that amount normalization assigns to `s`, if any.
pub open spec fn normalized_amount(s: Seq<char>) -> Option<int> {
    let t = before_dot(trim_quotes(trim_ws(s)));
    if valid_bigint_str(t) {
        Some(bigint_str_value(t))
    } else {
        None
    }
}

#[derive(PartialEq, Eq, Structural, Clone, Copy, Debug)]
pub enum AmountError {
    ParseAmount,
}

fn trim_ws_exec(s: &str) -> (r: String)
    ensures
        r@ == trim_ws(s@),
    decreases s@.len(),
{
    let len = s.unicode_len();
    if len > 0 {
        let cf = s.get_char(0);
        if is_ws(cf) {
            let sub = s.substring_char(1, len);
            proof {
                assert(sub@ =~= s@.drop_first());
            }
            return trim_ws_exec(sub);
        }
        let cl = s.get_char(len - 1);
        if is_ws(cl) {
            let sub = s.substring_char(0, len - 1);
            proof {
                assert(sub@ =~= s@.drop_last());
            }
            return trim_ws_exec(sub);
        }
    }
    s.to_owned()
}

fn trim_quotes_exec(s: &str) -> (r: String)
    ensures
        r@ == trim_quotes(s@),
    decreases s@.len(),
{
    let len = s.unicode_len();
    if len > 0 {
        let cf = s.get_char(0);
        if cf == '"' {
            let sub = s.substring_char(1, len);
            proof {
                assert(sub@ =~= s@.drop_first());
            }
            return trim_quotes_exec(sub);
        }
        let cl = s.get_char(len - 1);
        if cl == '"' {
            let sub = s.substring_char(0, len - 1);
            proof {
                assert(sub@ =~= s@.drop_last());
            }
            return trim_quotes_exec(sub);
        }
    }
    s.to_owned()
}

fn cut_at_dot(s: &str) -> (r: String)
    ensures
        r@ == before_dot(s@),
{
    let len = s.unicode_len();
    let mut i: usize = 0;
    let mut found = false;
    while i < len && !found
        invariant
            len == s@.len(),
            i <= len,
            forall|k: int| 0 <= k < i ==> s@[k] != '.',
            found ==> i < len && s@[i as int] == '.',
        decreases len - i + (if found { 0int } else { 1int }),
    {
        let c = s.get_char(i);
        if c == '.' {
            found = true;
        } else {
            i += 1;
        }
    }
    proof {
        lemma_dot_cut(s@);
        if found {
            assert(i as int == dot_cut(s@)) by {
                if dot_cut(s@) < i {
                    assert(s@[dot_cut(s@)] != '.');
                }
            }
        } else {
            assert(i == len);
            assert(i as int == dot_cut(s@)) by {
                if dot_cut(s@) < i {
                    assert(s@[dot_cut(s@)] != '.');
                }
            }
        }
    }
    let r = s.substring_char(0, i);
    proof {
        assert(r@ =~= before_dot(s@));
    }
    r.to_owned()
}

/// Normalizes an amount string: trims whitespace and quotes, keeps what
/// stands before a decimal point, and re-serializes the integer it denotes.
/// Fails exactly where what is left does not read as an integer.
pub fn normalize_amount(s: &str) -> (r: Result<String, AmountError>)
    ensures
        r is Ok <==> normalized_amount(s@) is Some,
        r matches Ok(t) ==> {
            &&& valid_bigint_str(t@)
            &&& canonical_dec_str(t@)
            &&& normalized_amount(s@) == Some(bigint_str_value(t@))
            &&& t@.len() >= 1
            &&& (bigint_str_value(t@) >= 0 ==> forall|i: int|
                0 <= i < t@.len() ==> is_digit_char(t@[i]))
        },
        r matches Err(e) ==> e == AmountError::ParseAmount,
{
    let t1 = trim_ws_exec(s);
    let t2 = trim_quotes_exec(t1.as_str());
    let t3 = cut_at_dot(t2.as_str());
    match big_from_str(t3.as_str()) {
        Some(b) => Ok(big_to_string(&b)),
        None => Err(AmountError::ParseAmount),
    }
}

/// A valid decimal string survives normalization with its value intact.
pub proof fn lemma_normalize_of_valid(s: Seq<char>)
    requires
        valid_bigint_str(s),
    ensures
        normalized_amount(s) == Some(bigint_str_value(s)),
{
    assert(s.len() > 0);
    assert(!is_ws_char(s.first()));
    if s.len() > 1 && (s[0] == '-' || s[0] == '+') {
        assert(s.last() == s.skip(1).last());
    }
    assert(!is_ws_char(s.last()));
    assert(trim_ws(s) == s);
    assert(s.first() != '"');
    assert(s.last() != '"');
    assert(trim_quotes(s) == s);
    lemma_dot_cut(s);
    if dot_cut(s) < s.len() {
        if s[0] == '-' || s[0] == '+' {
            if dot_cut(s) == 0 {
                assert(s[0] == '.');
                assert(false);
            } else {
                assert(s.skip(1)[dot_cut(s) - 1] == '.');
                assert(false);
            }
        } else {
            assert(false);
        }
    }
    assert(before_dot(s) =~= s);
}

/// All digits: the value accumulated over a prefix never exceeds the value
/// of the whole string.
proof fn lemma_digits_prefix_le(t: Seq<char>, m: int)
    requires
        0 <= m <= t.len(),
        forall|i: int| 0 <= i < t.len() ==> is_digit_char(t[i]),
    ensures
        digits_value(t.take(m)) <= digits_value(t),
    decreases t.len() - m,
{
    if m < t.len() {
        lemma_digits_prefix_le(t, m + 1);
        let a = t.take(m);
        let b = t.take(m + 1);
        assert(b.drop_last() =~= a);
        assert(b.last() == t[m]);
        lemma_digits_value_nonneg(a);
        assert(digits_value(b) == digits_value(a) * 10 + digit_val(t[m]));
        assert(digits_value(a) <= digits_value(a) * 10) by (nonlinear_arith)
            requires
                digits_value(a) >= 0,
        ;
    } else {
        assert(t.take(m) =~= t);
    }
}

/// Whether `s` is digits only (no sign, no separators).
pub open spec fn all_digits(s: Seq<char>) -> bool {
    forall|i: int| 0 <= i < s.len() ==> is_digit_char(s[i])
}

/// Accumulates the digits of `s` from index `from` on into a `u64`.
fn digits_to_u64(s: &str, from: usize) -> (r: Option<u64>)
    requires
        from <= s@.len(),
    ensures
        ({
            let body = s@.skip(from as int);
            &&& (r matches Some(v) ==> body.len() > 0 && all_digits(body) && v as int
                == digits_value(body))
            &&& (r is None ==> !(body.len() > 0 && all_digits(body) && digits_value(body)
                <= u64::MAX))
        }),
{
    let ghost body = s@.skip(from as int);
    let len = s.unicode_len();
    if from >= len {
        return None;
    }
    let mut k: usize = from;
    let mut mag: u64 = 0;
    while k < len
        invariant
            len == s@.len(),
            from <= k <= len,
            from < len,
            body == s@.skip(from as int),
            body.len() == len - from,
            forall|m: int| 0 <= m < body.len() ==> body[m] == s@[m + from],
            forall|m: int| 0 <= m < k - from ==> is_digit_char(body[m]),
            mag as int == digits_value(body.take(k - from)),
        decreases len - k,
    {
        let c = s.get_char(k);
        proof {
            assert(body[k - from] == c);
        }
        if !('0' <= c && c <= '9') {
            proof {
                assert(!all_digits(body));
            }
            return None;
        }
        let d: u64 = (c as u32 as u64) - ('0' as u32 as u64);
        proof {
            assert(d as int == digit_val(c));
        }
        let next = match mag.checked_mul(10) {
            Some(m10) => m10.checked_add(d),
            None => None,
        };
        match next {
            Some(v) => {
                mag = v;
                proof {
                    assert(body.take(k - from + 1).drop_last() =~= body.take(k - from));
                    assert(body.take(k - from + 1).last() == body[k - from]);
                }
            }
            None => {
                proof {
                    // The true value is at least the overflowing prefix value.
                    if body.len() > 0 && all_digits(body) {
                        assert(body.take(k - from + 1).drop_last() =~= body.take(k - from));
                        assert(body.take(k - from + 1).last() == body[k - from]);
                        assert(digits_value(body.take(k - from + 1)) == mag as int * 10
                            + digit_val(c));
                        lemma_digits_prefix_le(body, k - from + 1);
                        assert(digits_value(body) > u64::MAX);
                    }
                }
                return None;
            }
        }
        k += 1;
    }
    proof {
        assert(body.take(len - from) =~= body);
    }
    Some(mag)
}

/// What `str::parse::<u64>` accepts: an optional leading '+', then digits,
/// with the value in range.
pub open spec fn parse_u64_spec(s: Seq<char>) -> Option<int> {
    let body = if s.len() > 0 && s[0] == '+' {
        s.skip(1)
    } else {
        s
    };
    if body.len() > 0 && all_digits(body) && digits_value(body) <= u64::MAX {
        Some(digits_value(body))
    } else {
        None
    }
}

/// Parses a decimal `u64` as `str::parse::<u64>` would.
pub fn parse_u64_str(s: &str) -> (r: Option<u64>)
    ensures
        r is Some <==> parse_u64_spec(s@) is Some,
        r matches Some(v) ==> parse_u64_spec(s@) == Some(v as int),
{
    let len = s.unicode_len();
    let from: usize = if len > 0 && s.get_char(0) == '+' {
        1
    } else {
        0
    };
    let r = digits_to_u64(s, from);
    proof {
        let body = if s@.len() > 0 && s@[0] == '+' {
            s@.skip(1)
        } else {
            s@
        };
        assert(body == s@.skip(from as int));
    }
    r
}

/// What `str::parse::<i64>` accepts: an optional leading sign, then digits,
/// with the signed value in range.
pub open spec fn parse_i64_spec(s: Seq<char>) -> Option<int> {
    let neg = s.len() > 0 && s[0] == '-';
    let body = if s.len() > 0 && (s[0] == '-' || s[0] == '+') {
        s.skip(1)
    } else {
        s
    };
    if body.len() > 0 && all_digits(body) {
        let v = if neg {
            -digits_value(body)
        } else {
            digits_value(body)
        };
        if i64::MIN <= v <= i64::MAX {
            Some(v)
        } else {
            None
        }
    } else {
        None
    }
}

/// Parses a decimal `i64` as `str::parse::<i64>` would.
pub fn parse_i64_str(s: &str) -> (r: Option<i64>)
    ensures
        r is Some <==> parse_i64_spec(s@) is Some,
        r matches Some(v) ==> parse_i64_spec(s@) == Some(v as int),
{
    let len = s.unicode_len();
    let mut neg = false;
    let from: usize = if len > 0 {
        let c0 = s.get_char(0);
        if c0 == '-' {
            neg = true;
            1
        } else if c0 == '+' {
            1
        } else {
            0
        }
    } else {
        0
    };
    let ghost body = if s@.len() > 0 && (s@[0] == '-' || s@[0] == '+') {
        s@.skip(1)
    } else {
        s@
    };
    proof {
        assert(body == s@.skip(from as int));
    }
    match digits_to_u64(s, from) {
        None => {
            proof {
                if body.len() > 0 && all_digits(body) {
                    lemma_digits_value_nonneg(body);
                    assert(digits_value(body) > u64::MAX);
                }
            }
            None
        }
        Some(mag) => {
            proof {
                lemma_digits_value_nonneg(body);
            }
            if neg {
                if mag > 9223372036854775808u64 {
                    return None;
                }
                if mag == 9223372036854775808u64 {
                    Some(i64::MIN)
                } else {
                    Some(-(mag as i64))
                }
            } else {
                if mag > 9223372036854775807u64 {
                    return None;
                }
                Some(mag as i64)
            }
        }
    }
}

/// Amount parser invariance: the serialized form of a non-negative integer
/// normalizes back to that integer.
pub proof fn lemma_amount_round_trip(s: Seq<char>)
    requires
        s.len() > 0,
        forall|i: int| 0 <= i < s.len() ==> is_digit_char(s[i]),
    ensures
        normalized_amount(s) == Some(digits_value(s)),
        digits_value(s) >= 0,
{
    assert(!is_ws_char(s.first()));
    assert(!is_ws_char(s.last()));
    assert(trim_ws(s) == s);
    assert(s.first() != '"');
    assert(s.last() != '"');
    assert(trim_quotes(s) == s);
    lemma_dot_cut(s);
    if dot_cut(s) < s.len() {
        assert(s[dot_cut(s)] == '.');
        assert(is_digit_char(s[dot_cut(s)]));
        assert(false);
    }
    assert(before_dot(s) =~= s);
    assert(valid_bigint_str(s));
    assert(bigint_str_value(s) == digits_value(s));
    lemma_digits_value_nonneg(s);
}

} // verus!
