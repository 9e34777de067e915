//! Numeric tokens: unsigned decimal integers, parsed to their value,
//! and real-number tokens, validated against the format's grammar and
//! carried through the model as they stand.

use vstd::prelude::*;

verus! {

// ---------------------------------------------------------------------
// unsigned decimal integers
// ---------------------------------------------------------------------

/// Whether `b` is an ASCII decimal digit.
pub open spec fn is_digit(b: u8) -> bool {
    48 <= b && b <= 57
}

/// The value of one digit.
pub open spec fn digit_val(b: u8) -> nat {
    if is_digit(b) {
        (b - 48) as nat
    } else {
        0
    }
}

pub open spec fn all_digits(s: Seq<u8>) -> bool {
    forall|i: int| 0 <= i < s.len() ==> is_digit(#[trigger] s[i])
}

/// The value of a digit string read in base ten.
pub open spec fn digits_val(s: Seq<u8>) -> nat
    decreases s.len(),
{
    if s.len() == 0 {
        0
    } else {
        digits_val(s.drop_last()) * 10 + digit_val(s.last())
    }
}

/// A digit string's prefixes never exceed its value.
pub proof fn lemma_digits_val_prefix(s: Seq<u8>, j: int)
    requires
        0 <= j <= s.len(),
    ensures
        digits_val(s.take(j)) <= digits_val(s),
    decreases s.len(),
{
    if j == s.len() {
        assert(s.take(j) =~= s);
    } else {
        assert(s.drop_last().take(j) =~= s.take(j));
        lemma_digits_val_prefix(s.drop_last(), j);
    }
}

/// The token with one leading plus sign (43) removed.
pub open spec fn uint_body(s: Seq<u8>) -> Seq<u8> {
    if s.len() > 0 && s[0] == 43 {
        s.skip(1)
    } else {
        s
    }
}

/// Whether `s` is a well-formed unsigned integer token: an optional
/// plus sign, then one or more digits.
pub open spec fn is_uint_token(s: Seq<u8>) -> bool {
    uint_body(s).len() > 0 && all_digits(uint_body(s))
}

/// The value of an unsigned integer token, when it is well formed and
/// fits the platform's word.
pub open spec fn spec_parse_usize(s: Seq<u8>) -> Option<usize> {
    if is_uint_token(s) && digits_val(uint_body(s)) <= usize::MAX {
        Some(digits_val(uint_body(s)) as usize)
    } else {
        None
    }
}

/// Parses an unsigned decimal integer token.
pub fn parse_usize(t: &Vec<u8>) -> (r: Option<usize>)
    ensures
        r == spec_parse_usize(t@),
{
    let n: usize = t.len();
    let start: usize = if n > 0 && t[0] == 43 {
        1
    } else {
        0
    };
    let ghost body = uint_body(t@);
    proof {
        assert(body =~= t@.skip(start as int));
    }
    if start == n {
        return None;
    }
    let mut acc: usize = 0;
    let mut i: usize = start;
    proof {
        assert(body.take(0) =~= Seq::<u8>::empty());
    }
    while i < n
        invariant
            start <= i <= n,
            n == t@.len(),
            body == uint_body(t@),
            body =~= t@.skip(start as int),
            acc == digits_val(body.take(i - start)),
            all_digits(body.take(i - start)),
        decreases n - i,
    {
        let b = t[i];
        proof {
            assert(body[i - start] == t@[i as int]);
        }
        if b < 48 || b > 57 {
            proof {
                assert(!is_digit(body[i - start]));
            }
            return None;
        }
        let d: usize = (b - 48) as usize;
        let ghost pre = body.take(i - start);
        proof {
            assert(body.take(i - start + 1) =~= pre.push(b));
            assert(body.take(i - start + 1).drop_last() =~= pre);
            assert(digits_val(body.take(i - start + 1)) == acc * 10 + d);
        }
        if acc > (usize::MAX - d) / 10 {
            proof {
                assert(acc * 10 + d > usize::MAX) by (nonlinear_arith)
                    requires
                        acc > (usize::MAX - d) / 10,
                        d <= usize::MAX,
                ;
                lemma_digits_val_prefix(body, i - start + 1);
                assert(digits_val(body) > usize::MAX);
            }
            return None;
        }
        proof {
            assert(acc * 10 + d <= usize::MAX) by (nonlinear_arith)
                requires
                    acc <= (usize::MAX - d) / 10,
                    d <= usize::MAX,
            ;
        }
        acc = acc * 10 + d;
        i += 1;
    }
    proof {
        assert(body.take(n - start) =~= body);
    }
    Some(acc)
}

/// The value of an unsigned integer token bounded by a 32-bit word:
/// a missing or malformed or too-large token is an error.
pub open spec fn spec_load_num(t: Option<Seq<u8>>) -> Result<u32, ()> {
    match t {
        Option::None => Err(()),
        Option::Some(s) => {
            if is_uint_token(s) && digits_val(uint_body(s)) <= u32::MAX {
                Ok(digits_val(uint_body(s)) as u32)
            } else {
                Err(())
            }
        },
    }
}

/// Parses an optional token as an unsigned 32-bit number; a missing
/// token, a malformed token, and a value over the 32-bit range are all
/// errors.
pub fn load_num(raw_num: Option<&Vec<u8>>) -> (r: Result<u32, ()>)
    ensures
        r == spec_load_num(match raw_num {
            Option::None => Option::None,
            Option::Some(t) => Option::Some(t@),
        }),
{
    match raw_num {
        Option::None => Err(()),
        Option::Some(t) => {
            match parse_usize(t) {
                Option::None => {
                    proof {
                        assert(usize::MAX >= u32::MAX);
                    }
                    Err(())
                },
                Option::Some(v) => {
                    if v <= u32::MAX as usize {
                        Ok(v as u32)
                    } else {
                        Err(())
                    }
                },
            }
        },
    }
}

// ---------------------------------------------------------------------
// real-number tokens
// ---------------------------------------------------------------------

/// The token with one leading plus (43) or minus (45) sign removed.
pub open spec fn sign_body(s: Seq<u8>) -> Seq<u8> {
    if s.len() > 0 && (s[0] == 43 || s[0] == 45) {
        s.skip(1)
    } else {
        s
    }
}

/// An ASCII upper-case letter folded to lower case.
pub open spec fn lower(b: u8) -> u8 {
    if 65 <= b && b <= 90 {
        (b + 32) as u8
    } else {
        b
    }
}

/// Whether `s`, folded to lower case, spells `w`.
pub open spec fn lower_is(s: Seq<u8>, w: Seq<u8>) -> bool {
    s.len() == w.len() && forall|i: int| 0 <= i < s.len() ==> lower(#[trigger] s[i]) == w[i]
}

/// Whether `b` spells an infinity or not-a-number word, in any case:
/// "inf", "infinity" or "nan".
pub open spec fn is_special_float(b: Seq<u8>) -> bool {
    ||| lower_is(b, seq![105u8, 110, 102])
    ||| lower_is(b, seq![105u8, 110, 102, 105, 110, 105, 116, 121])
    ||| lower_is(b, seq![110u8, 97, 110])
}

/// Whether `m` is a well-formed mantissa: digits with at most one
/// decimal point (46) among them, and at least one digit.
pub open spec fn is_mantissa(m: Seq<u8>) -> bool {
    &&& forall|i: int| 0 <= i < m.len() ==> is_digit(#[trigger] m[i]) || m[i] == 46
    &&& exists|i: int| 0 <= i < m.len() && is_digit(#[trigger] m[i])
    &&& forall|i: int, j: int| 0 <= i < j < m.len() ==> !(#[trigger] m[i] == 46 && #[trigger] m[j] == 46)
}

/// Whether `e` is a well-formed exponent body: an optional sign, then
/// one or more digits.
pub open spec fn is_exp(e: Seq<u8>) -> bool {
    sign_body(e).len() > 0 && all_digits(sign_body(e))
}

/// Whether `x` is an exponent marker.
pub open spec fn is_e(x: u8) -> bool {
    x == 101 || x == 69
}

/// Whether position `i` holds the first exponent marker of `b`.
pub open spec fn is_first_e(b: Seq<u8>, i: int) -> bool {
    0 <= i < b.len() && is_e(b[i]) && forall|j: int| 0 <= j < i ==> !is_e(#[trigger] b[j])
}

/// Whether `b` is a well-formed decimal number: a mantissa, optionally
/// followed by an exponent marker and an exponent.
pub open spec fn is_number(b: Seq<u8>) -> bool {
    if exists|i: int| is_first_e(b, i) {
        let i = choose|i: int| is_first_e(b, i);
        is_mantissa(b.take(i)) && is_exp(b.skip(i + 1))
    } else {
        is_mantissa(b)
    }
}

/// Whether `s` is a well-formed real-number token: an optional sign,
/// then a decimal number or a special word.
pub open spec fn is_float_token(s: Seq<u8>) -> bool {
    is_special_float(sign_body(s)) || is_number(sign_body(s))
}

fn lower_b(x: u8) -> (r: u8)
    ensures
        r == lower(x),
{
    if 65 <= x && x <= 90 {
        x + 32
    } else {
        x
    }
}

/// Whether `t` from `start` on spells an infinity or not-a-number word.
fn special_word(t: &Vec<u8>, start: usize) -> (r: bool)
    requires
        start <= t@.len(),
    ensures
        r == is_special_float(t@.skip(start as int)),
{
    let ghost b = t@.skip(start as int);
    let n: usize = t.len();
    let len: usize = n - start;
    if len == 3 {
        let x0 = lower_b(t[start]);
        let x1 = lower_b(t[start + 1]);
        let x2 = lower_b(t[start + 2]);
        let r = (x0 == 105 && x1 == 110 && x2 == 102) || (x0 == 110 && x1 == 97 && x2 == 110);
        proof {
            assert(b.len() == 3);
            assert(b[0] == t@[start as int]);
            assert(b[1] == t@[start as int + 1]);
            assert(b[2] == t@[start as int + 2]);
            if x0 == 105 && x1 == 110 && x2 == 102 {
                let w = seq![105u8, 110, 102];
                assert forall|i: int| 0 <= i < b.len() implies lower(#[trigger] b[i]) == w[i] by {
                    if i == 0 {
                    } else if i == 1 {
                    } else {
                    }
                }
                assert(lower_is(b, w));
            } else if x0 == 110 && x1 == 97 && x2 == 110 {
                let w = seq![110u8, 97, 110];
                assert forall|i: int| 0 <= i < b.len() implies lower(#[trigger] b[i]) == w[i] by {
                    if i == 0 {
                    } else if i == 1 {
                    } else {
                    }
                }
                assert(lower_is(b, w));
            }
        }
        r
    } else if len == 8 {
        let x0 = lower_b(t[start]);
        let x1 = lower_b(t[start + 1]);
        let x2 = lower_b(t[start + 2]);
        let x3 = lower_b(t[start + 3]);
        let x4 = lower_b(t[start + 4]);
        let x5 = lower_b(t[start + 5]);
        let x6 = lower_b(t[start + 6]);
        let x7 = lower_b(t[start + 7]);
        let r = x0 == 105 && x1 == 110 && x2 == 102 && x3 == 105 && x4 == 110 && x5 == 105 && x6
            == 116 && x7 == 121;
        proof {
            assert(b.len() == 8);
            assert(b[0] == t@[start as int]);
            assert(b[1] == t@[start as int + 1]);
            assert(b[2] == t@[start as int + 2]);
            assert(b[3] == t@[start as int + 3]);
            assert(b[4] == t@[start as int + 4]);
            assert(b[5] == t@[start as int + 5]);
            assert(b[6] == t@[start as int + 6]);
            assert(b[7] == t@[start as int + 7]);
            if r {
                let w = seq![105u8, 110, 102, 105, 110, 105, 116, 121];
                assert forall|i: int| 0 <= i < b.len() implies lower(#[trigger] b[i]) == w[i] by {
                    if i == 0 {
                    } else if i == 1 {
                    } else if i == 2 {
                    } else if i == 3 {
                    } else if i == 4 {
                    } else if i == 5 {
                    } else if i == 6 {
                    } else {
                    }
                }
                assert(lower_is(b, w));
            }
        }
        r
    } else {
        false
    }
}

/// Whether the bytes of `t` in `[lo, hi)` form a well-formed mantissa.
fn mantissa_check(t: &Vec<u8>, lo: usize, hi: usize) -> (r: bool)
    requires
        lo <= hi <= t@.len(),
    ensures
        r == is_mantissa(t@.subrange(lo as int, hi as int)),
{
    let ghost m = t@.subrange(lo as int, hi as int);
    let mut has_digit: bool = false;
    let ghost mut wd: int = 0;
    let mut seen_dot: bool = false;
    let ghost mut wdot: int = 0;
    let mut k: usize = lo;
    while k < hi
        invariant
            lo <= k <= hi <= t@.len(),
            m == t@.subrange(lo as int, hi as int),
            forall|i: int| 0 <= i < k - lo ==> is_digit(#[trigger] m[i]) || m[i] == 46,
            has_digit ==> 0 <= wd < k - lo && is_digit(m[wd]),
            !has_digit ==> forall|i: int| 0 <= i < k - lo ==> !is_digit(#[trigger] m[i]),
            seen_dot ==> 0 <= wdot < k - lo && m[wdot] == 46,
            !seen_dot ==> forall|i: int| 0 <= i < k - lo ==> m[i] != 46,
            forall|i: int, j: int|
                0 <= i < j < k - lo ==> !(#[trigger] m[i] == 46 && #[trigger] m[j] == 46),
        decreases hi - k,
    {
        let b = t[k];
        proof {
            assert(m[k - lo] == t@[k as int]);
        }
        if 48 <= b && b <= 57 {
            if !has_digit {
                has_digit = true;
                proof {
                    wd = k - lo;
                }
            }
        } else if b == 46 {
            if seen_dot {
                proof {
                    assert(m[wdot] == 46 && m[k - lo] == 46 && wdot < k - lo);
                }
                return false;
            }
            seen_dot = true;
            proof {
                wdot = k - lo;
            }
        } else {
            proof {
                assert(!(is_digit(m[k - lo]) || m[k - lo] == 46));
            }
            return false;
        }
        k += 1;
    }
    if has_digit {
        proof {
            assert(is_digit(m[wd]));
        }
        true
    } else {
        false
    }
}

/// Whether the bytes of `t` in `[lo, hi)` form a well-formed exponent.
fn exp_check(t: &Vec<u8>, lo: usize, hi: usize) -> (r: bool)
    requires
        lo <= hi <= t@.len(),
    ensures
        r == is_exp(t@.subrange(lo as int, hi as int)),
{
    let ghost e = t@.subrange(lo as int, hi as int);
    let mut k: usize = lo;
    proof {
        if lo < hi {
            assert(e[0] == t@[lo as int]);
        }
    }
    if k < hi && (t[k] == 43 || t[k] == 45) {
        k = k + 1;
    }
    let ghost body = sign_body(e);
    proof {
        assert(body =~= t@.subrange(k as int, hi as int));
    }
    if k == hi {
        return false;
    }
    let start: usize = k;
    while k < hi
        invariant
            start <= k <= hi <= t@.len(),
            body == t@.subrange(start as int, hi as int),
            body == sign_body(e),
            e == t@.subrange(lo as int, hi as int),
            lo <= start,
            forall|i: int| 0 <= i < k - start ==> is_digit(#[trigger] body[i]),
        decreases hi - k,
    {
        let b = t[k];
        proof {
            assert(body[k - start] == t@[k as int]);
        }
        if b < 48 || b > 57 {
            proof {
                assert(!is_digit(body[k - start]));
                assert(!all_digits(body));
                assert(!all_digits(sign_body(e)));
            }
            return false;
        }
        k += 1;
    }
    proof {
        assert(all_digits(sign_body(e)));
    }
    true
}

/// Whether `t` is a well-formed real-number token.
pub fn float_token(t: &Vec<u8>) -> (r: bool)
    ensures
        r == is_float_token(t@),
{
    let n: usize = t.len();
    let start: usize = if n > 0 && (t[0] == 43 || t[0] == 45) {
        1
    } else {
        0
    };
    let ghost b = sign_body(t@);
    proof {
        assert(b =~= t@.skip(start as int));
    }
    if special_word(t, start) {
        return true;
    }
    // find the first exponent marker at or after `start`
    let mut fi: usize = start;
    while fi < n && !(t[fi] == 101 || t[fi] == 69)
        invariant
            start <= fi <= n,
            n == t@.len(),
            forall|j: int| 0 <= j < fi - start ==> !is_e(#[trigger] b[j]),
            b == t@.skip(start as int),
        decreases n - fi,
    {
        proof {
            assert(b[fi - start] == t@[fi as int]);
        }
        fi += 1;
    }
    if fi < n {
        proof {
            assert(b[fi - start] == t@[fi as int]);
            assert(is_first_e(b, fi - start));
            let w = choose|i: int| is_first_e(b, i);
            assert(w == fi - start);
            assert(b.take(fi - start) =~= t@.subrange(start as int, fi as int));
            assert(b.skip(fi - start + 1) =~= t@.subrange(fi as int + 1, n as int));
        }
        let man = mantissa_check(t, start, fi);
        if !man {
            return false;
        }
        exp_check(t, fi + 1, n)
    } else {
        proof {
            assert(forall|i: int| !is_first_e(b, i));
            assert(b =~= t@.subrange(start as int, n as int));
        }
        mantissa_check(t, start, n)
    }
}

} // verus!
