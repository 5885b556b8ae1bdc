//! Character-level string utilities: equality against a pattern, substring
//! search, and whitespace/token scanning, all verified down to `Seq<char>`.

use vstd::prelude::*;

verus! {

/// An ASCII decimal digit.
pub open spec fn is_digit_char(c: char) -> bool {
    '0' <= c && c <= '9'
}

/// Numeric value of a decimal digit.
pub open spec fn digit_val(c: char) -> int {
    c as int - '0' as int
}

/// Whitespace, as the Unicode White_Space property defines it (the set
/// `char::is_whitespace` recognises).
pub open spec fn is_ws_char(c: char) -> bool {
    ||| c == '\t' || c == '\n' || c == '\u{b}' || c == '\u{c}' || c == '\r' || c == ' '
    ||| c == '\u{85}' || c == '\u{a0}' || c == '\u{1680}'
    ||| '\u{2000}' <= c && c <= '\u{200a}'
    ||| c == '\u{2028}' || c == '\u{2029}' || c == '\u{202f}' || c == '\u{205f}'
    ||| c == '\u{3000}'
}

pub fn is_ws(c: char) -> (r: bool)
    ensures
        r == is_ws_char(c),
{
    c == '\t' || c == '\n' || c == '\u{b}' || c == '\u{c}' || c == '\r' || c == ' '
        || c == '\u{85}' || c == '\u{a0}' || c == '\u{1680}'
        || ('\u{2000}' <= c && c <= '\u{200a}')
        || c == '\u{2028}' || c == '\u{2029}' || c == '\u{202f}' || c == '\u{205f}'
        || c == '\u{3000}'
}

pub fn is_digit(c: char) -> (r: bool)
    ensures
        r == is_digit_char(c),
{
    '0' <= c && c <= '9'
}

/// Character-wise equality of two string slices.
pub fn str_eq(a: &str, b: &str) -> (r: bool)
    ensures
        r == (a@ == b@),
{
    let alen = a.unicode_len();
    let blen = b.unicode_len();
    if alen != blen {
        assert(a@ != b@) by {
            assert(a@.len() != b@.len());
        }
        return false;
    }
    let mut i: usize = 0;
    while i < alen
        invariant
            alen == a@.len(),
            blen == b@.len(),
            alen == blen,
            i <= alen,
            forall|k: int| 0 <= k < i ==> a@[k] == b@[k],
        decreases alen - i,
    {
        let ca = a.get_char(i);
        let cb = b.get_char(i);
        if ca != cb {
            assert(a@ != b@) by {
                assert(a@[i as int] != b@[i as int]);
            }
            return false;
        }
        i += 1;
    }
    proof {
        assert(a@ =~= b@);
    }
    true
}

/// Character-wise equality of an owned string and a string slice.
pub fn string_eq(a: &String, b: &str) -> (r: bool)
    ensures
        r == (a@ == b@),
{
    str_eq(a.as_str(), b)
}

/// `sub` occurs in `s` starting at index `i`.
pub open spec fn is_substring_at(s: Seq<char>, sub: Seq<char>, i: int) -> bool {
    0 <= i && i + sub.len() <= s.len() && s.subrange(i, i + sub.len() as int) == sub
}

/// `sub` occurs somewhere in `s`.
pub open spec fn contains_seq(s: Seq<char>, sub: Seq<char>) -> bool {
    exists|i: int| is_substring_at(s, sub, i)
}

/// Substring search, character by character.
pub fn str_contains(hay: &str, needle: &str) -> (r: bool)
    ensures
        r == contains_seq(hay@, needle@),
{
    let hlen = hay.unicode_len();
    let nlen = needle.unicode_len();
    if nlen > hlen {
        assert(forall|i: int| !is_substring_at(hay@, needle@, i));
        return false;
    }
    if nlen == 0 {
        proof {
            assert(hay@.subrange(0, 0) =~= needle@);
            assert(is_substring_at(hay@, needle@, 0));
        }
        return true;
    }
    let mut i: usize = 0;
    while i <= hlen - nlen
        invariant
            hlen == hay@.len(),
            nlen == needle@.len(),
            1 <= nlen <= hlen,
            i <= hlen - nlen + 1,
            forall|k: int| 0 <= k < i ==> !is_substring_at(hay@, needle@, k),
        decreases hlen - nlen - i + 1,
    {
        let mut j: usize = 0;
        let mut matched = true;
        while j < nlen
            invariant
                hlen == hay@.len(),
                nlen == needle@.len(),
                nlen <= hlen,
                i + nlen <= hlen,
                j <= nlen,
                matched ==> forall|k: int| 0 <= k < j ==> hay@[i + k] == needle@[k],
                !matched ==> !is_substring_at(hay@, needle@, i as int),
            decreases nlen - j,
        {
            if matched {
                let ch = hay.get_char(i + j);
                let cn = needle.get_char(j);
                if ch != cn {
                    proof {
                        if is_substring_at(hay@, needle@, i as int) {
                            assert(hay@.subrange(i as int, i + nlen as int)[j as int]
                                == hay@[i + j]);
                        }
                    }
                    matched = false;
                }
            }
            j += 1;
        }
        if matched {
            proof {
                assert(hay@.subrange(i as int, i + nlen as int) =~= needle@);
                assert(is_substring_at(hay@, needle@, i as int));
            }
            return true;
        }
        i += 1;
    }
    proof {
        assert forall|k: int| !is_substring_at(hay@, needle@, k) by {
            if is_substring_at(hay@, needle@, k) {
                assert(k + nlen <= hlen);
                assert(0 <= k < i);
            }
        }
    }
    false
}

/// Digits with at most one decimal point and at least one digit.
pub open spec fn is_num_body(t: Seq<char>) -> bool {
    t.len() > 0
    && (forall|k: int| 0 <= k < t.len() ==> is_digit_char(t[k]) || t[k] == '.')
    && (exists|k: int| 0 <= k < t.len() && is_digit_char(t[k]))
    && (forall|k1: int, k2: int|
        0 <= k1 < k2 < t.len() ==> !(t[k1] == '.' && t[k2] == '.'))
}

/// A decimal-number token: an optional sign, then digits with at most one
/// decimal point.
pub open spec fn is_number_token(t: Seq<char>) -> bool {
    if t.len() > 0 && (t[0] == '+' || t[0] == '-') {
        is_num_body(t.skip(1))
    } else {
        is_num_body(t)
    }
}

/// Decides `is_number_token` on a slice.
pub fn is_numeric_token(s: &str) -> (r: bool)
    ensures
        r == is_number_token(s@),
{
    let len = s.unicode_len();
    let start: usize = if len > 0 {
        let c0 = s.get_char(0);
        if c0 == '+' || c0 == '-' {
            1
        } else {
            0
        }
    } else {
        0
    };
    let ghost body = if start == 1 { s@.skip(1) } else { s@ };
    proof {
        assert(body.len() == len - start);
        assert(forall|m: int| 0 <= m < body.len() ==> body[m] == s@[m + start]);
        assert(is_number_token(s@) == is_num_body(body));
    }
    if start >= len {
        return false;
    }
    let mut k: usize = start;
    let mut seen_digit = false;
    let mut seen_dot = false;
    let ghost mut dot_at: int = 0;
    let ghost mut digit_at: int = 0;
    while k < len
        invariant
            len == s@.len(),
            start <= k <= len,
            start < len,
            start == 0 || start == 1,
            body == (if start == 1 { s@.skip(1) } else { s@ }),
            body.len() == len - start,
            is_number_token(s@) == is_num_body(body),
            forall|m: int| 0 <= m < body.len() ==> body[m] == s@[m + start],
            forall|m: int| 0 <= m < k - start ==> is_digit_char(body[m]) || body[m] == '.',
            seen_digit ==> 0 <= digit_at < k - start && is_digit_char(body[digit_at]),
            !seen_digit ==> forall|m: int| 0 <= m < k - start ==> !is_digit_char(body[m]),
            seen_dot ==> 0 <= dot_at < k - start && body[dot_at] == '.',
            !seen_dot ==> forall|m: int| 0 <= m < k - start ==> body[m] != '.',
            forall|m1: int, m2: int|
                0 <= m1 < m2 < k - start ==> !(body[m1] == '.' && body[m2] == '.'),
        decreases len - k,
    {
        let c = s.get_char(k);
        proof {
            assert(body[k - start] == c);
        }
        if c == '.' {
            if seen_dot {
                proof {
                    assert(body[dot_at] == '.' && body[k - start] == '.');
                    assert(!is_num_body(body));
                }
                return false;
            }
            seen_dot = true;
            proof {
                dot_at = k - start;
                assert(!is_digit_char(c));
            }
        } else if '0' <= c && c <= '9' {
            if !seen_digit {
                proof {
                    digit_at = k - start;
                }
            }
            seen_digit = true;
        } else {
            proof {
                assert(!(is_digit_char(body[k - start]) || body[k - start] == '.'));
                assert(!is_num_body(body));
            }
            return false;
        }
        k += 1;
    }
    proof {
        if seen_digit {
            assert(is_num_body(body));
        } else {
            assert(!is_num_body(body));
        }
    }
    seen_digit
}

/// Scans `s` with `cur` holding the token read so far: at each whitespace
/// boundary (and at the end) the finished token is kept if it reads as a
/// decimal number.
pub open spec fn fnt_scan(s: Seq<char>, cur: Seq<char>) -> Option<Seq<char>>
    decreases s.len(),
{
    if s.len() == 0 {
        if is_number_token(cur) {
            Some(cur)
        } else {
            None
        }
    } else if is_ws_char(s[0]) {
        if is_number_token(cur) {
            Some(cur)
        } else {
            fnt_scan(s.skip(1), Seq::empty())
        }
    } else {
        fnt_scan(s.skip(1), cur.push(s[0]))
    }
}

/// The first whitespace-separated token of `s` that reads as a decimal
/// number.
pub open spec fn first_numeric_token(s: Seq<char>) -> Option<Seq<char>> {
    fnt_scan(s, Seq::empty())
}

/// Finds the first whitespace-separated token of `s` that reads as a
/// decimal number.
pub fn find_numeric_token(s: &str) -> (r: Option<String>)
    ensures
        r is Some <==> first_numeric_token(s@) is Some,
        r matches Some(t) ==> first_numeric_token(s@) == Some(t@),
{
    let len = s.unicode_len();
    let mut i: usize = 0;
    let mut ts: usize = 0;
    proof {
        assert(s@.skip(0) =~= s@);
        assert(s@.subrange(0, 0) =~= Seq::<char>::empty());
    }
    while i < len
        invariant
            len == s@.len(),
            ts <= i <= len,
            first_numeric_token(s@) == fnt_scan(
                s@.skip(i as int),
                s@.subrange(ts as int, i as int),
            ),
        decreases len - i,
    {
        let ghost rest = s@.skip(i as int);
        let ghost cur = s@.subrange(ts as int, i as int);
        let c = s.get_char(i);
        proof {
            assert(rest[0] == c);
        }
        if is_ws(c) {
            let tok = s.substring_char(ts, i);
            proof {
                assert(tok@ =~= cur);
            }
            if is_numeric_token(tok) {
                return Some(tok.to_owned());
            }
            proof {
                assert(rest.skip(1) =~= s@.skip(i + 1));
                assert(s@.subrange(i + 1, i + 1) =~= Seq::<char>::empty());
            }
            ts = i + 1;
        } else {
            proof {
                assert(rest.skip(1) =~= s@.skip(i + 1));
                assert(cur.push(rest[0]) =~= s@.subrange(ts as int, i + 1));
            }
        }
        i += 1;
    }
    let tok = s.substring_char(ts, len);
    proof {
        assert(s@.skip(len as int).len() == 0);
        assert(tok@ =~= s@.subrange(ts as int, len as int));
    }
    if is_numeric_token(tok) {
        Some(tok.to_owned())
    } else {
        None
    }
}

} // verus!
