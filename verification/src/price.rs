//! Prices as exact decimals, and the parse of a sanitized price string.
//!
//! A sanitized string is parsed as an optional sign, decimal digits, and at
//! most one dot between digits: the shapes `d+`, `d*.d*` (with at least one
//! digit), each optionally preceded by `-` or `+`. The digits are kept
//! exactly, as an integer mantissa and a decimal scale.

use crate::sanitize::sanitize_chars;
use crate::sanitize::sanitized;
use crate::sanitize::str_to_chars;
use vstd::prelude::*;

verus! {

/// Exclusive bound on a parsed mantissa; digit strings whose value reaches it
/// do not parse. Every value below it fits comfortably in a `u64`.
pub const MANTISSA_LIMIT: u64 = 1000000000000000000;

/// A price as an exact decimal: `mantissa / 10^scale`, negated if `negative`.
#[derive(Clone, Copy, Debug, PartialEq, Eq, Structural)]
pub struct Price {
    pub negative: bool,
    pub mantissa: u64,
    pub scale: usize,
}

impl Price {
    /// Every parsed price keeps its mantissa under [`MANTISSA_LIMIT`].
    pub open spec fn wf(self) -> bool {
        self.mantissa < MANTISSA_LIMIT
    }

    /// A usable price is strictly positive.
    pub open spec fn spec_is_positive(self) -> bool {
        !self.negative && self.mantissa > 0
    }

    /// Whether the price is strictly positive; only such prices are reported.
    pub fn is_positive(&self) -> (b: bool)
        ensures
            b == self.spec_is_positive(),
    {
        !self.negative && self.mantissa > 0
    }
}

/// Failure to parse the sanitized text as a number.
#[derive(Clone, Copy, Debug, PartialEq, Eq, Structural)]
pub struct SanitizeError;

/// A decimal digit.
pub open spec fn is_digit(c: char) -> bool {
    48 <= c as u32 && c as u32 <= 57
}

/// The value of one decimal digit.
pub open spec fn digit_val(c: char) -> nat {
    (c as u32 - 48) as nat
}

/// Every character of `s` is a decimal digit.
pub open spec fn all_digits(s: Seq<char>) -> bool {
    forall|i: int| 0 <= i < s.len() ==> is_digit(#[trigger] s[i])
}

/// The number a digit string denotes, most significant digit first.
pub open spec fn digits_val(s: Seq<char>) -> nat
    decreases s.len(),
{
    if s.len() == 0 {
        0
    } else {
        digits_val(s.drop_last()) * 10 + digit_val(s.last())
    }
}

/// `k` is the position of the one dot of `s`, with digits on both sides.
pub open spec fn dot_split_at(s: Seq<char>, k: int) -> bool {
    0 <= k < s.len() && s[k] == '.' && all_digits(s.take(k)) && all_digits(s.skip(k + 1))
}

/// The unsigned body has a legal shape: digits with at most one dot.
pub open spec fn body_ok(s: Seq<char>) -> bool {
    all_digits(s) || (exists|k: int| dot_split_at(s, k))
}

/// The position of the dot of a body that has one.
pub open spec fn dot_pos(s: Seq<char>) -> int {
    choose|k: int| dot_split_at(s, k)
}

/// The digits before the dot (all of `s` when there is none).
pub open spec fn int_digits(s: Seq<char>) -> Seq<char> {
    if all_digits(s) {
        s
    } else {
        s.take(dot_pos(s))
    }
}

/// The digits after the dot (empty when there is none).
pub open spec fn frac_digits(s: Seq<char>) -> Seq<char> {
    if all_digits(s) {
        Seq::<char>::empty()
    } else {
        s.skip(dot_pos(s) + 1)
    }
}

/// Splits a leading `-` or `+` off: the sign, and the unsigned body.
pub open spec fn strip_sign(t: Seq<char>) -> (bool, Seq<char>) {
    if t.len() > 0 && (t[0] == '-' || t[0] == '+') {
        (t[0] == '-', t.skip(1))
    } else {
        (false, t)
    }
}

/// What parsing a sanitized string yields: `Some` exactly when the body has a
/// legal shape, holds at least one digit, and its digits' value stays under
/// [`MANTISSA_LIMIT`]; the price then carries those digits exactly.
pub open spec fn parse_price(t: Seq<char>) -> Option<Price> {
    let neg = strip_sign(t).0;
    let body = strip_sign(t).1;
    if body_ok(body) && int_digits(body).len() + frac_digits(body).len() > 0 && digits_val(
        int_digits(body) + frac_digits(body),
    ) < MANTISSA_LIMIT as nat {
        Some(
            Price {
                negative: neg,
                mantissa: digits_val(int_digits(body) + frac_digits(body)) as u64,
                scale: frac_digits(body).len() as usize,
            },
        )
    } else {
        None
    }
}

/// A body has at most one dot position that splits it into digits.
pub proof fn lemma_dot_split_unique(s: Seq<char>, k1: int, k2: int)
    requires
        dot_split_at(s, k1),
        dot_split_at(s, k2),
    ensures
        k1 == k2,
{
    if k1 < k2 {
        assert(s.take(k2)[k1] == s[k1]);
        assert(false);
    } else if k2 < k1 {
        assert(s.take(k1)[k2] == s[k2]);
        assert(false);
    }
}

/// A character that is neither a digit nor a dot leaves no legal body.
proof fn lemma_bad_char(s: Seq<char>, j: int)
    requires
        0 <= j < s.len(),
        !is_digit(s[j]),
        s[j] != '.',
    ensures
        !body_ok(s),
{
    assert(!all_digits(s));
    if exists|k: int| dot_split_at(s, k) {
        let k = choose|k: int| dot_split_at(s, k);
        if j < k {
            assert(s.take(k)[j] == s[j]);
        } else if j > k {
            assert(s.skip(k + 1)[j - k - 1] == s[j]);
        }
        assert(false);
    }
}

/// Two dots leave no legal body.
proof fn lemma_two_dots(s: Seq<char>, d1: int, d2: int)
    requires
        0 <= d1 < d2 < s.len(),
        s[d1] == '.',
        s[d2] == '.',
    ensures
        !body_ok(s),
{
    assert(!is_digit(s[d1]));
    assert(!all_digits(s));
    if exists|k: int| dot_split_at(s, k) {
        let k = choose|k: int| dot_split_at(s, k);
        if d1 < k {
            assert(s.take(k)[d1] == s[d1]);
        } else {
            assert(s.skip(k + 1)[d2 - k - 1] == s[d2]);
        }
        assert(false);
    }
}

/// The digits scanned so far: everything before position `j` of the body,
/// with the dot (at `dp`, when `seen_dot`) left out.
spec fn scanned(body: Seq<char>, seen_dot: bool, dp: int, j: int) -> Seq<char> {
    if seen_dot {
        body.take(dp) + body.subrange(dp + 1, j)
    } else {
        body.take(j)
    }
}

/// Verified parse of a sanitized character sequence.
#[verifier::rlimit(50)]
fn parse_price_chars(t: &Vec<char>) -> (r: Option<Price>)
    ensures
        r == parse_price(t@),
{
    let mut start: usize = 0;
    let mut negative = false;
    if t.len() > 0 && (t[0] == '-' || t[0] == '+') {
        negative = t[0] == '-';
        start = 1;
    }
    let ghost body = strip_sign(t@).1;
    proof {
        if start == 0 {
            assert(t@.skip(0) =~= t@);
        }
        assert(body == t@.skip(start as int));
        assert(negative == strip_sign(t@).0);
    }
    let mut mantissa: u64 = 0;
    let mut saturated = false;
    let mut ndigits: usize = 0;
    let mut seen_dot = false;
    let ghost mut dp: int = 0;
    let mut scale: usize = 0;
    let mut i: usize = start;
    proof {
        assert(body.take(0) =~= Seq::<char>::empty());
    }
    while i < t.len()
        invariant
            start <= i <= t.len(),
            start <= 1,
            body == strip_sign(t@).1,
            negative == strip_sign(t@).0,
            body == t@.skip(start as int),
            body.len() == t.len() - start,
            seen_dot ==> 0 <= dp < i - start && body[dp] == '.' && ndigits == i - start - 1
                && scale == i - start - 1 - dp,
            seen_dot ==> forall|ii: int|
                0 <= ii < i - start && ii != dp ==> is_digit(#[trigger] body[ii]),
            !seen_dot ==> (forall|ii: int| 0 <= ii < i - start ==> is_digit(#[trigger] body[ii]))
                && ndigits == i - start && scale == 0,
            mantissa < MANTISSA_LIMIT,
            !saturated ==> mantissa as nat == digits_val(
                scanned(body, seen_dot, dp, i - start),
            ),
            saturated ==> digits_val(scanned(body, seen_dot, dp, i - start))
                >= MANTISSA_LIMIT as nat,
        decreases t.len() - i,
    {
        let c = t[i];
        let ghost j = i - start;
        proof {
            assert(body[j] == t@[i as int]);
        }
        if c == '.' {
            if seen_dot {
                proof {
                    lemma_two_dots(body, dp, j);
                }
                return None;
            }
            seen_dot = true;
            proof {
                let ghost old_sc = scanned(body, false, dp, j);
                dp = j;
                assert(body.subrange(dp + 1, j + 1) =~= Seq::<char>::empty());
                assert(scanned(body, true, dp, j + 1) =~= old_sc);
            }
        } else {
            let u = c as u32;
            if u < 48 || u > 57 {
                proof {
                    lemma_bad_char(body, j);
                }
                return None;
            }
            let d = (u - 48) as u64;
            proof {
                assert(is_digit(body[j]));
                assert(d as nat == digit_val(body[j]));
                let old_sc = scanned(body, seen_dot, dp, j);
                let new_sc = scanned(body, seen_dot, dp, j + 1);
                assert(new_sc =~= old_sc.push(body[j]));
                assert(new_sc.drop_last() =~= old_sc);
                assert(digits_val(new_sc) == digits_val(old_sc) * 10 + digit_val(body[j]));
                if saturated {
                    assert(digits_val(old_sc) * 10 >= digits_val(old_sc)) by (nonlinear_arith);
                }
            }
            if !saturated {
                let next = mantissa * 10 + d;
                if next >= MANTISSA_LIMIT {
                    saturated = true;
                } else {
                    mantissa = next;
                }
            }
            ndigits += 1;
            if seen_dot {
                scale += 1;
            }
        }
        i += 1;
    }
    // The whole body was scanned: it has a legal shape, and `scanned` is
    // exactly its digits.
    let ghost n = body.len() as int;
    let ghost digs = scanned(body, seen_dot, dp, n);
    proof {
        if seen_dot {
            assert(body.subrange(dp + 1, n) =~= body.skip(dp + 1));
            assert forall|ii: int| 0 <= ii < dp implies is_digit(#[trigger] body.take(dp)[ii]) by {
                assert(body.take(dp)[ii] == body[ii]);
            }
            assert forall|ii: int| 0 <= ii < n - dp - 1 implies is_digit(
                #[trigger] body.skip(dp + 1)[ii],
            ) by {
                assert(body.skip(dp + 1)[ii] == body[dp + 1 + ii]);
            }
            assert(dot_split_at(body, dp));
            assert(body_ok(body));
            assert(!is_digit(body[dp]));
            assert(!all_digits(body));
            assert(dot_split_at(body, dot_pos(body)));
            lemma_dot_split_unique(body, dot_pos(body), dp);
            assert(int_digits(body) == body.take(dp));
            assert(frac_digits(body) == body.skip(dp + 1));
            assert(int_digits(body) + frac_digits(body) =~= digs);
            assert(frac_digits(body).len() == n - dp - 1);
        } else {
            assert forall|ii: int| 0 <= ii < n implies is_digit(#[trigger] body[ii]) by {}
            assert(all_digits(body));
            assert(body.take(n) =~= body);
            assert(int_digits(body) + frac_digits(body) =~= digs);
        }
        assert(digs.len() == ndigits);
        assert(frac_digits(body).len() == scale);
    }
    if ndigits == 0 {
        proof {
            assert(int_digits(body).len() + frac_digits(body).len() == 0);
        }
        return None;
    }
    if saturated {
        proof {
            assert(digits_val(int_digits(body) + frac_digits(body)) >= MANTISSA_LIMIT as nat);
        }
        return None;
    }
    proof {
        assert(digits_val(int_digits(body) + frac_digits(body)) == mantissa as nat);
        assert(parse_price(t@) == Some(
            Price { negative: strip_sign(t@).0, mantissa, scale },
        ));
    }
    Some(Price { negative, mantissa, scale })
}

/// The deterministic normalization of raw scraped text: the five rewrites of
/// [`sanitized`], then the parse of [`parse_price`]. Returns `Ok` exactly on
/// the inputs whose sanitized form parses.
pub fn normalize(raw: &str) -> (r: Result<Price, SanitizeError>)
    ensures
        match parse_price(sanitized(raw@)) {
            Some(p) => r == Ok::<Price, SanitizeError>(p),
            None => r == Err::<Price, SanitizeError>(SanitizeError),
        },
{
    let chars = str_to_chars(raw);
    let clean = sanitize_chars(&chars);
    match parse_price_chars(&clean) {
        Some(p) => Ok(p),
        None => Err(SanitizeError),
    }
}

} // verus!
