//! Validation of numeric text typed into the scene editor.
//!
//! A string is accepted exactly when it matches the floating-point literal
//! grammar that Rust's standard parser documents: an optional sign, then
//! `inf`, `infinity` or `nan` (case-insensitive), or digits with at most one
//! dot and at least one digit, with an optional exponent part.

use vstd::prelude::*;
use vstd::string::StringSliceAdditionalSpecFns;

verus! {

/// An ASCII decimal digit.
pub open spec fn is_digit(b: u8) -> bool {
    48 <= b <= 57
}

/// An ASCII byte lowered: upper-case letters shifted into lower case.
pub open spec fn lower(b: u8) -> u8 {
    if 65 <= b <= 90 {
        (b + 32) as u8
    } else {
        b
    }
}

/// A non-empty run of digits.
pub open spec fn is_digits(s: Seq<u8>) -> bool {
    s.len() >= 1 && forall|i: int| 0 <= i < s.len() ==> is_digit(#[trigger] s[i])
}

/// A mantissa: digits with at most one dot and at least one digit.
pub open spec fn is_mantissa(s: Seq<u8>) -> bool {
    is_digits(s) || (s.len() >= 2 && exists|d: int|
        0 <= d < s.len() && s[d] == 46 && (forall|i: int|
            0 <= i < s.len() && i != d ==> is_digit(#[trigger] s[i])))
}

/// An exponent tail: an optional sign, then digits.
pub open spec fn is_exp_tail(s: Seq<u8>) -> bool {
    if s.len() >= 1 && (s[0] == 43 || s[0] == 45) {
        is_digits(s.skip(1))
    } else {
        is_digits(s)
    }
}

/// The bytes match `pat` case-insensitively.
pub open spec fn matches_ci(s: Seq<u8>, pat: Seq<u8>) -> bool {
    s.len() == pat.len() && forall|i: int| 0 <= i < s.len() ==> lower(#[trigger] s[i]) == pat[i]
}

/// One of the special values `inf`, `infinity`, `nan`.
pub open spec fn is_special(s: Seq<u8>) -> bool {
    ||| matches_ci(s, seq![105u8, 110u8, 102u8])
    ||| matches_ci(s, seq![105u8, 110u8, 102u8, 105u8, 110u8, 105u8, 116u8, 121u8])
    ||| matches_ci(s, seq![110u8, 97u8, 110u8])
}

/// A number: a mantissa, optionally followed by `e` or `E` and an exponent.
pub open spec fn is_number(s: Seq<u8>) -> bool {
    is_mantissa(s) || (exists|k: int|
        0 <= k < s.len() && (#[trigger] s[k] == 101 || s[k] == 69) && is_mantissa(s.take(k))
            && is_exp_tail(s.skip(k + 1)))
}

/// The bytes parse as a floating-point value: an optional sign, then a
/// special value or a number.
pub open spec fn is_float_text(s: Seq<u8>) -> bool {
    let t = if s.len() >= 1 && (s[0] == 43 || s[0] == 45) {
        s.skip(1)
    } else {
        s
    };
    is_special(t) || is_number(t)
}

/// The bytes hold a decimal point.
pub open spec fn has_decimal_point(s: Seq<u8>) -> bool {
    exists|i: int| 0 <= i < s.len() && #[trigger] s[i] == 46
}

/// The bytes from `from` on form a non-empty run of digits.
fn digits_seq(s: &[u8], from: usize) -> (r: bool)
    requires
        from <= s@.len(),
    ensures
        r == is_digits(s@.skip(from as int)),
{
    let ghost t = s@.skip(from as int);
    proof {
        assert(forall|j: int| 0 <= j < t.len() ==> #[trigger] t[j] == s@[j + from]);
    }
    let n = s.len();
    if from == n {
        proof {
            assert(!is_digits(t));
        }
        return false;
    }
    let mut i = from;
    while i < n
        invariant
            from <= i <= n,
            n == s@.len(),
            t == s@.skip(from as int),
            forall|j: int| from <= j < i ==> is_digit(#[trigger] s@[j]),
        decreases n - i,
    {
        let b = s[i];
        if !(48 <= b && b <= 57) {
            proof {
                assert(t[i - from] == s@[i as int]);
                assert(!is_digit(t[i - from]));
                assert(!is_digits(t));
            }
            return false;
        }
        i = i + 1;
    }
    proof {
        assert forall|j: int| 0 <= j < t.len() implies is_digit(#[trigger] t[j]) by {
            assert(t[j] == s@[j + from]);
        }
        assert(is_digits(t));
    }
    true
}

/// The first `e` or `E` at or after `from`, if any.
fn find_exp(s: &[u8], from: usize) -> (r: Option<usize>)
    requires
        from <= s@.len(),
    ensures
        match r {
            Some(k) => {
                &&& from <= k < s@.len()
                &&& (s@[k as int] == 101 || s@[k as int] == 69)
                &&& forall|i: int| from <= i < k ==> #[trigger] s@[i] != 101 && s@[i] != 69
            },
            None => forall|i: int| from <= i < s@.len() ==> #[trigger] s@[i] != 101 && s@[i]
                != 69,
        },
{
    let n = s.len();
    let mut i = from;
    while i < n
        invariant
            from <= i <= n,
            n == s@.len(),
            forall|j: int| from <= j < i ==> #[trigger] s@[j] != 101 && s@[j] != 69,
        decreases n - i,
    {
        let b = s[i];
        if b == 101 || b == 69 {
            return Some(i);
        }
        i = i + 1;
    }
    None
}

/// The first dot at or after `from` and strictly before `to`, if any.
fn find_dot(s: &[u8], from: usize, to: usize) -> (r: Option<usize>)
    requires
        from <= to <= s@.len(),
    ensures
        match r {
            Some(d) => {
                &&& from <= d < to
                &&& s@[d as int] == 46
                &&& forall|i: int| from <= i < d ==> #[trigger] s@[i] != 46
            },
            None => forall|i: int| from <= i < to ==> #[trigger] s@[i] != 46,
        },
{
    let mut i = from;
    while i < to
        invariant
            from <= i <= to,
            to <= s@.len(),
            forall|j: int| from <= j < i ==> #[trigger] s@[j] != 46,
        decreases to - i,
    {
        let b = s[i];
        if b == 46 {
            return Some(i);
        }
        i = i + 1;
    }
    None
}

/// The slice from `from` to `to` is a mantissa.
fn check_mantissa(s: &[u8], from: usize, to: usize) -> (r: bool)
    requires
        from <= to <= s@.len(),
    ensures
        r == is_mantissa(s@.subrange(from as int, to as int)),
{
    let ghost m = s@.subrange(from as int, to as int);
    proof {
        assert(forall|j: int| 0 <= j < m.len() ==> #[trigger] m[j] == s@[j + from]);
    }
    match find_dot(s, from, to) {
        None => {
            let all = digits_in_range(s, from, to);
            let nonempty = from < to;
            proof {
                if all && nonempty {
                    assert forall|j: int| 0 <= j < m.len() implies is_digit(#[trigger] m[j]) by {
                        assert(m[j] == s@[j + from]);
                    }
                    assert(is_digits(m));
                } else {
                    if !nonempty {
                        assert(!is_mantissa(m));
                    } else {
                        let bad = choose|i: int| from <= i < to && !is_digit(#[trigger] s@[i]);
                        assert(m[bad - from] == s@[bad]);
                        assert(!is_digits(m));
                        assert forall|dd: int| 0 <= dd < m.len() && #[trigger] m[dd] == 46 implies false by {
                            assert(s@[dd + from] == 46);
                        }
                        assert(!is_mantissa(m));
                    }
                }
            }
            all && nonempty
        },
        Some(d) => {
            if to - from < 2 {
                proof {
                    assert(m.len() < 2);
                    assert(m[d - from] == 46);
                    assert(!is_digit(m[d - from]));
                    assert(!is_digits(m));
                    assert(!is_mantissa(m));
                }
                return false;
            }
            let head_ok = digits_in_range(s, from, d);
            let tail_ok = digits_in_range(s, d + 1, to);
            proof {
                assert(m[d - from] == 46);
                if head_ok && tail_ok {
                    assert forall|i: int|
                        0 <= i < m.len() && i != d - from implies is_digit(#[trigger] m[i]) by {
                        assert(m[i] == s@[i + from]);
                    }
                    assert(is_mantissa(m));
                } else {
                    let bad = if !head_ok {
                        choose|i: int| from <= i < d && !is_digit(#[trigger] s@[i])
                    } else {
                        choose|i: int| d + 1 <= i < to && !is_digit(#[trigger] s@[i])
                    };
                    assert(from <= bad < to && bad != d && !is_digit(s@[bad as int]));
                    assert(m[bad - from] == s@[bad as int]);
                    assert(!is_digit(m[d - from]));
                    assert(!is_digits(m));
                    assert forall|dd: int|
                        0 <= dd < m.len() && #[trigger] m[dd] == 46 && (forall|i: int|
                            0 <= i < m.len() && i != dd ==> is_digit(#[trigger] m[i])) implies false by {
                        if dd == d - from {
                            assert(bad - from != dd);
                            assert(!is_digit(m[bad - from]));
                        } else {
                            assert(d - from != dd);
                            assert(!is_digit(m[d - from]));
                        }
                    }
                    assert(!is_mantissa(m));
                }
            }
            head_ok && tail_ok
        },
    }
}

/// Every byte of `s[from..to)` is a digit.
fn digits_in_range(s: &[u8], from: usize, to: usize) -> (r: bool)
    requires
        from <= to <= s@.len(),
    ensures
        r == forall|i: int| from <= i < to ==> is_digit(#[trigger] s@[i]),
{
    let mut i = from;
    while i < to
        invariant
            from <= i <= to,
            to <= s@.len(),
            forall|j: int| from <= j < i ==> is_digit(#[trigger] s@[j]),
        decreases to - i,
    {
        let b = s[i];
        if !(48 <= b && b <= 57) {
            return false;
        }
        i = i + 1;
    }
    true
}

/// The slice from `from` on is an exponent tail.
fn check_exp_tail(s: &[u8], from: usize) -> (r: bool)
    requires
        from <= s@.len(),
    ensures
        r == is_exp_tail(s@.skip(from as int)),
{
    let ghost t = s@.skip(from as int);
    let n = s.len();
    if from < n && (s[from] == 43 || s[from] == 45) {
        let r = digits_seq(s, from + 1);
        proof {
            assert(t[0] == s@[from as int]);
            assert(t.skip(1) =~= s@.skip(from as int + 1));
        }
        r
    } else {
        let r = digits_seq(s, from);
        proof {
            if t.len() >= 1 {
                assert(t[0] == s@[from as int]);
            }
        }
        r
    }
}

/// The bytes of `s` from `from` on parse as an unsigned number.
fn check_number(s: &[u8], from: usize) -> (r: bool)
    requires
        from <= s@.len(),
    ensures
        r == is_number(s@.skip(from as int)),
{
    let ghost t = s@.skip(from as int);
    let n = s.len();
    match find_exp(s, from) {
        None => {
            let r = check_mantissa(s, from, n);
            proof {
                assert(t =~= s@.subrange(from as int, n as int));
                if !r {
                    assert forall|k: int|
                        0 <= k < t.len() && (#[trigger] t[k] == 101 || t[k] == 69) implies false by {
                        assert(t[k] == s@[k + from]);
                    }
                }
            }
            r
        },
        Some(k) => {
            let m_ok = check_mantissa(s, from, k);
            let e_ok = check_exp_tail(s, k + 1);
            proof {
                let kk = k - from;
                assert(t[kk] == s@[k as int]);
                assert(t.take(kk) =~= s@.subrange(from as int, k as int));
                assert(t.skip(kk + 1) =~= s@.skip((k + 1) as int));
                if m_ok && e_ok {
                    assert(0 <= kk < t.len() && (t[kk] == 101 || t[kk] == 69) && is_mantissa(
                        t.take(kk),
                    ) && is_exp_tail(t.skip(kk + 1)));
                } else {
                    assert(!is_mantissa(t) || t.len() == 0) by {
                        if is_mantissa(t) {
                            assert(!is_digit(t[kk]) && t[kk] != 46);
                            assert(!is_digits(t));
                            assert forall|dd: int|
                                0 <= dd < t.len() && t[dd] == 46 && (forall|i: int|
                                    0 <= i < t.len() && i != dd ==> is_digit(
                                        #[trigger] t[i],
                                    )) implies false by {
                                assert(t[kk] != 46 && kk != dd && !is_digit(t[kk]));
                            }
                        }
                    }
                    assert forall|k2: int|
                        0 <= k2 < t.len() && (#[trigger] t[k2] == 101 || t[k2] == 69)
                            && is_mantissa(t.take(k2)) && is_exp_tail(
                            t.skip(k2 + 1),
                        ) implies false by {
                        assert(t[k2] == s@[k2 + from]);
                        if k2 + from < k {
                            assert(s@[k2 + from] != 101 && s@[k2 + from] != 69);
                        } else if k2 + from > k {
                            assert(t.take(k2)[kk] == t[kk]);
                            assert(!is_digit(t.take(k2)[kk]) && t.take(k2)[kk] != 46);
                            assert(!is_digits(t.take(k2)));
                            assert forall|dd: int|
                                0 <= dd < t.take(k2).len() && t.take(k2)[dd] == 46 && (forall|
                                    i: int,
                                |
                                    0 <= i < t.take(k2).len() && i != dd ==> is_digit(
                                        #[trigger] t.take(k2)[i],
                                    )) implies false by {
                                assert(t.take(k2)[kk] != 46 && kk != dd && !is_digit(
                                    t.take(k2)[kk],
                                ));
                            }
                            assert(!is_mantissa(t.take(k2)));
                        } else {
                            assert(t.take(k2) =~= t.take(kk));
                            assert(t.skip(k2 + 1) =~= t.skip(kk + 1));
                        }
                    }
                }
            }
            m_ok && e_ok
        },
    }
}

/// The bytes of `s` parse as a floating-point value.
fn check_float(s: &[u8]) -> (r: bool)
    ensures
        r == is_float_text(s@),
{
    let n = s.len();
    let start: usize = if n >= 1 && (s[0] == 43 || s[0] == 45) {
        1
    } else {
        0
    };
    let ghost t = if s@.len() >= 1 && (s@[0] == 43 || s@[0] == 45) {
        s@.skip(1)
    } else {
        s@
    };
    proof {
        assert(t =~= s@.skip(start as int));
    }
    let special = check_special(s, start);
    let number = check_number(s, start);
    special || number
}

/// The bytes from `start` on match `pat` case-insensitively.
fn matches_ci_exec(s: &[u8], start: usize, pat: &[u8]) -> (r: bool)
    requires
        start <= s@.len(),
    ensures
        r == matches_ci(s@.skip(start as int), pat@),
{
    let ghost t = s@.skip(start as int);
    proof {
        assert(forall|j: int| 0 <= j < t.len() ==> #[trigger] t[j] == s@[j + start]);
    }
    let n = s.len();
    let plen = pat.len();
    if n - start != plen {
        return false;
    }
    let mut i: usize = 0;
    while i < plen
        invariant
            i <= plen,
            plen == pat@.len(),
            start + plen <= s@.len(),
            n == s@.len(),
            n - start == plen,
            t == s@.skip(start as int),
            forall|j: int| 0 <= j < i ==> lower(#[trigger] t[j]) == pat@[j],
        decreases plen - i,
    {
        let b = lower_byte(s[start + i]);
        if b != pat[i] {
            proof {
                assert(t[i as int] == s@[start + i]);
                assert(lower(t[i as int]) != pat@[i as int]);
            }
            return false;
        }
        proof {
            assert(t[i as int] == s@[start + i]);
        }
        i = i + 1;
    }
    true
}

/// The bytes from `start` on are one of the special values.
fn check_special(s: &[u8], start: usize) -> (r: bool)
    requires
        start <= s@.len(),
    ensures
        r == is_special(s@.skip(start as int)),
{
    let inf: Vec<u8> = vec![105, 110, 102];
    let infinity: Vec<u8> = vec![105, 110, 102, 105, 110, 105, 116, 121];
    let nan: Vec<u8> = vec![110, 97, 110];
    proof {
        assert(inf@ =~= seq![105u8, 110u8, 102u8]);
        assert(infinity@ =~= seq![105u8, 110u8, 102u8, 105u8, 110u8, 105u8, 116u8, 121u8]);
        assert(nan@ =~= seq![110u8, 97u8, 110u8]);
    }
    let a = matches_ci_exec(s, start, inf.as_slice());
    let b = matches_ci_exec(s, start, infinity.as_slice());
    let c = matches_ci_exec(s, start, nan.as_slice());
    a || b || c
}

/// An ASCII byte lowered.
fn lower_byte(b: u8) -> (r: u8)
    ensures
        r == lower(b),
{
    if 65 <= b && b <= 90 {
        b + 32
    } else {
        b
    }
}

/// The text is a valid floating-point literal that also holds a decimal
/// point, the form the scene editor requires of position entries.
pub fn is_valid_float(input: &str) -> (r: bool)
    ensures
        r == (is_float_text(input.spec_bytes()) && has_decimal_point(input.spec_bytes())),
{
    let bytes = input.as_bytes();
    let is_float = check_float(bytes);
    let dot = find_dot(bytes, 0, bytes.len());
    let has_dot = dot.is_some();
    is_float && has_dot
}

/// The text is empty or a valid floating-point literal: the looser form the
/// scene editor accepts everywhere else.
pub fn is_valid_number(input: &str) -> (r: bool)
    ensures
        r == (input.spec_bytes().len() == 0 || is_float_text(input.spec_bytes())),
{
    let bytes = input.as_bytes();
    if bytes.len() == 0 {
        return true;
    }
    check_float(bytes)
}

} // verus!
