//! Rendering a price back to text, and the round trip: normalizing the
//! rendered text yields the very same price.
//!
//! A price renders as its mantissa's digits, left-padded with zeros until a
//! digit stands before the separator, the decimal separator (a comma in the
//! raw form scraped pages use, a dot in the numeric form request bodies use)
//! inserted `scale` digits from the right, and a leading minus sign when
//! negative.

use crate::price::all_digits;
use crate::price::body_ok;
use crate::price::digit_val;
use crate::price::digits_val;
use crate::price::dot_pos;
use crate::price::dot_split_at;
use crate::price::frac_digits;
use crate::price::int_digits;
use crate::price::is_digit;
use crate::price::lemma_dot_split_unique;
use crate::price::parse_price;
use crate::price::strip_sign;
use crate::price::Price;
use crate::sanitize::comma_dash_pattern;
use crate::sanitize::drop_dots;
use crate::sanitize::drop_spaces;
use crate::sanitize::is_space;
use crate::sanitize::kr_pattern;
use crate::sanitize::map_decimal_commas;
use crate::sanitize::remove_occurrences;
use crate::sanitize::replace_comma;
use crate::sanitize::sanitized;
use vstd::prelude::*;

verus! {

/// The character of one decimal digit.
pub open spec fn digit_char(d: nat) -> char {
    if d == 0 {
        '0'
    } else if d == 1 {
        '1'
    } else if d == 2 {
        '2'
    } else if d == 3 {
        '3'
    } else if d == 4 {
        '4'
    } else if d == 5 {
        '5'
    } else if d == 6 {
        '6'
    } else if d == 7 {
        '7'
    } else if d == 8 {
        '8'
    } else {
        '9'
    }
}

/// The decimal digits of `n`, most significant first, without leading zeros.
pub open spec fn spec_digits(n: nat) -> Seq<char>
    decreases n,
{
    if n < 10 {
        seq![digit_char(n)]
    } else {
        spec_digits(n / 10).push(digit_char(n % 10))
    }
}

/// `n` zeros.
pub open spec fn zeros(n: nat) -> Seq<char>
    decreases n,
{
    if n == 0 {
        Seq::<char>::empty()
    } else {
        zeros((n - 1) as nat).push('0')
    }
}

/// The digit string of a price: the mantissa's digits, left-padded with
/// zeros until a digit stands before the decimal separator.
pub open spec fn padded_digits(p: Price) -> Seq<char> {
    let d = spec_digits(p.mantissa as nat);
    if d.len() > p.scale {
        d
    } else {
        zeros((p.scale + 1 - d.len()) as nat) + d
    }
}

/// A price rendered with the given decimal separator.
pub open spec fn spec_render(p: Price, sep: char) -> Seq<char> {
    let d = padded_digits(p);
    let body = if p.scale == 0 {
        d
    } else {
        d.take(d.len() - p.scale) + seq![sep] + d.skip(d.len() - p.scale)
    };
    if p.negative {
        seq!['-'] + body
    } else {
        body
    }
}

/// The raw form of a price, with a decimal comma, as scraped pages show it.
pub open spec fn spec_format_price(p: Price) -> Seq<char> {
    spec_render(p, ',')
}

proof fn lemma_digit_char_val(d: nat)
    requires
        d < 10,
    ensures
        is_digit(digit_char(d)),
        digit_val(digit_char(d)) == d,
{
}

/// The digits of `n` are digits, there is at least one, and they denote `n`.
proof fn lemma_spec_digits(n: nat)
    ensures
        spec_digits(n).len() >= 1,
        all_digits(spec_digits(n)),
        digits_val(spec_digits(n)) == n,
    decreases n,
{
    if n < 10 {
        lemma_digit_char_val(n);
        let s = spec_digits(n);
        assert(s =~= seq![digit_char(n)]);
        assert(s.drop_last() =~= Seq::<char>::empty());
        assert(digits_val(s.drop_last()) == 0);
        assert(s.last() == digit_char(n));
        assert(digits_val(s) == digits_val(s.drop_last()) * 10 + digit_val(s.last()));
        assert(digits_val(s) == n);
    } else {
        lemma_spec_digits(n / 10);
        lemma_digit_char_val(n % 10);
        let s = spec_digits(n / 10);
        let w = s.push(digit_char(n % 10));
        assert(w.drop_last() =~= s);
        assert(digits_val(w) == digits_val(s) * 10 + digit_val(digit_char(n % 10)));
        assert(digits_val(s) * 10 + (n % 10) == n) by {
            assert(n / 10 * 10 + n % 10 == n);
        };
        assert(spec_digits(n) == w);
        assert(digits_val(spec_digits(n)) == n);
        assert forall|i: int| 0 <= i < w.len() implies is_digit(#[trigger] w[i]) by {
            if i < s.len() {
                assert(w[i] == s[i]);
            }
        }
    }
}

/// Zeros are digits, and prepending them leaves a digit string's value alone.
proof fn lemma_zeros(n: nat)
    ensures
        zeros(n).len() == n,
        all_digits(zeros(n)),
        digits_val(zeros(n)) == 0,
    decreases n,
{
    if n > 0 {
        lemma_zeros((n - 1) as nat);
        let s = zeros((n - 1) as nat);
        let w = s.push('0');
        assert(w.drop_last() =~= s);
        assert(digit_val('0') == 0);
        assert forall|i: int| 0 <= i < w.len() implies is_digit(#[trigger] w[i]) by {
            if i < s.len() {
                assert(w[i] == s[i]);
            }
        }
    }
}

/// Prepending zeros to a digit string does not change its value.
proof fn lemma_zeros_prepend(k: nat, s: Seq<char>)
    ensures
        digits_val(zeros(k) + s) == digits_val(s),
    decreases s.len(),
{
    lemma_zeros(k);
    if s.len() == 0 {
        assert(zeros(k) + s =~= zeros(k));
    } else {
        lemma_zeros_prepend(k, s.drop_last());
        let w = zeros(k) + s;
        assert(w.drop_last() =~= zeros(k) + s.drop_last());
        assert(w.last() == s.last());
    }
}

/// The padded digit string: all digits, longer than the scale, and it still
/// denotes the mantissa.
proof fn lemma_padded_digits(p: Price)
    ensures
        all_digits(padded_digits(p)),
        padded_digits(p).len() > p.scale,
        digits_val(padded_digits(p)) == p.mantissa as nat,
{
    let d = spec_digits(p.mantissa as nat);
    lemma_spec_digits(p.mantissa as nat);
    if d.len() > p.scale {
    } else {
        let k = (p.scale + 1 - d.len()) as nat;
        lemma_zeros(k);
        lemma_zeros_prepend(k, d);
        let w = zeros(k) + d;
        assert forall|i: int| 0 <= i < w.len() implies is_digit(#[trigger] w[i]) by {
            if i < k {
                assert(w[i] == zeros(k)[i]);
            } else {
                assert(w[i] == d[i - k]);
            }
        }
    }
}

/// Where each kind of character can stand in a rendered price.
proof fn lemma_render_chars(p: Price, sep: char)
    requires
        !is_digit(sep),
        sep != '-',
    ensures
        forall|i: int|
            0 <= i < spec_render(p, sep).len() ==> is_digit(#[trigger] spec_render(p, sep)[i])
                || spec_render(p, sep)[i] == sep || spec_render(p, sep)[i] == '-',
        forall|i: int|
            0 <= i < spec_render(p, sep).len() && #[trigger] spec_render(p, sep)[i] == '-' ==> i
                == 0,
        spec_render(p, sep).len() > 0,
        spec_render(p, sep)[0] != sep,
{
    lemma_padded_digits(p);
    let d = padded_digits(p);
    let f = spec_render(p, sep);
    let cut = d.len() - p.scale;
    assert forall|i: int|
        0 <= i < f.len() implies (is_digit(#[trigger] f[i]) || f[i] == sep || (f[i] == '-' && i
        == 0)) by {
        let j = if p.negative {
            i - 1
        } else {
            i
        };
        if p.negative && i == 0 {
            assert(f[0] == '-');
        } else {
            if p.scale == 0 {
                assert(f[i] == d[j]);
            } else {
                if j < cut {
                    assert(f[i] == d[j]);
                } else if j == cut {
                    assert(f[i] == sep);
                } else {
                    assert(f[i] == d[j - 1]);
                }
            }
        }
    }
    assert(f.len() > 0);
    if p.negative {
        assert(f[0] == '-');
    } else {
        if p.scale == 0 {
            assert(f[0] == d[0]);
        } else {
            assert(cut >= 1);
            assert(f[0] == d[0]);
        }
    }
}

/// A digit is none of the punctuation or whitespace the rewrites touch.
proof fn lemma_digit_is_plain(c: char)
    requires
        is_digit(c),
    ensures
        c != '.' && c != ',' && c != '-' && c != '+' && c != 'k',
        !is_space(c),
{
    assert(('.' as u32) == 46);
    assert((',' as u32) == 44);
    assert(('-' as u32) == 45);
    assert(('+' as u32) == 43);
    assert(('k' as u32) == 107);
}

/// A pattern that occurs nowhere in `s` is removed without effect.
proof fn lemma_remove_absent(s: Seq<char>, pat: Seq<char>)
    requires
        pat.len() > 0,
        forall|i: int|
            0 <= i && i + pat.len() <= s.len() ==> #[trigger] s.subrange(i, i + pat.len() as int)
                != pat,
    ensures
        remove_occurrences(s, pat) == s,
    decreases s.len(),
{
    if s.len() > 0 {
        assert(!pat.is_prefix_of(s)) by {
            if pat.is_prefix_of(s) {
                assert(s.subrange(0, 0 + pat.len() as int) =~= pat);
                assert(s.subrange(0, 0 + pat.len() as int) == pat);
                assert(false);
            }
        };
        assert forall|i: int|
            0 <= i && i + pat.len() <= s.skip(1).len() implies #[trigger] s.skip(1).subrange(
            i,
            i + pat.len() as int,
        ) != pat by {
            assert(s.skip(1).subrange(i, i + pat.len() as int) =~= s.subrange(
                i + 1,
                i + 1 + pat.len() as int,
            ));
        }
        lemma_remove_absent(s.skip(1), pat);
        assert(seq![s[0]] + s.skip(1) =~= s);
    }
}

/// Dropping dots leaves a dot-free string alone.
proof fn lemma_drop_dots_id(s: Seq<char>)
    requires
        forall|i: int| 0 <= i < s.len() ==> #[trigger] s[i] != '.',
    ensures
        drop_dots(s) == s,
    decreases s.len(),
{
    if s.len() > 0 {
        assert(s[0] != '.');
        assert forall|i: int| 0 <= i < s.skip(1).len() implies #[trigger] s.skip(1)[i] != '.' by {
            assert(s.skip(1)[i] == s[i + 1]);
        }
        lemma_drop_dots_id(s.skip(1));
        assert(seq![s[0]] + s.skip(1) =~= s);
    }
}

/// Dropping whitespace leaves a whitespace-free string alone.
proof fn lemma_drop_spaces_id(s: Seq<char>)
    requires
        forall|i: int| 0 <= i < s.len() ==> !is_space(#[trigger] s[i]),
    ensures
        drop_spaces(s) == s,
    decreases s.len(),
{
    if s.len() > 0 {
        assert(!is_space(s[0]));
        assert forall|i: int| 0 <= i < s.skip(1).len() implies !is_space(
            #[trigger] s.skip(1)[i],
        ) by {
            assert(s.skip(1)[i] == s[i + 1]);
        }
        lemma_drop_spaces_id(s.skip(1));
        assert(seq![s[0]] + s.skip(1) =~= s);
    }
}

/// The comma rewrite maps each position on its own.
proof fn lemma_map_commas_pointwise(s: Seq<char>)
    ensures
        map_decimal_commas(s).len() == s.len(),
        forall|i: int|
            0 <= i < s.len() ==> #[trigger] map_decimal_commas(s)[i] == replace_comma(s[i]),
    decreases s.len(),
{
    if s.len() > 0 {
        lemma_map_commas_pointwise(s.skip(1));
        assert forall|i: int|
            0 <= i < s.len() implies #[trigger] map_decimal_commas(s)[i] == replace_comma(
            s[i],
        ) by {
            if i > 0 {
                assert(map_decimal_commas(s)[i] == map_decimal_commas(s.skip(1))[i - 1]);
                assert(s.skip(1)[i - 1] == s[i]);
            }
        }
    }
}

/// The five rewrites leave a comma-rendered price alone, except that its
/// decimal comma becomes a dot.
proof fn lemma_sanitize_render(p: Price)
    ensures
        sanitized(spec_render(p, ',')) == spec_render(p, '.'),
{
    assert((',' as u32) == 44 && ('.' as u32) == 46);
    lemma_padded_digits(p);
    lemma_render_chars(p, ',');
    lemma_render_chars(p, '.');
    let f = spec_render(p, ',');
    let g = spec_render(p, '.');
    // Step 1: no `k` occurs, so removing `"kr."` does nothing.
    assert forall|i: int| 0 <= i && i + 3 <= f.len() implies #[trigger] f.subrange(i, i + 3)
        != kr_pattern() by {
        if f.subrange(i, i + 3) == kr_pattern() {
            assert(f.subrange(i, i + 3)[0] == f[i]);
            assert(f[i] == 'k');
            if is_digit(f[i]) {
                lemma_digit_is_plain(f[i]);
            }
            assert(('k' as u32) == 107 && (',' as u32) == 44 && ('-' as u32) == 45);
            assert(false);
        }
    }
    assert(kr_pattern().len() == 3);
    lemma_remove_absent(f, kr_pattern());
    // Step 2: a comma is never followed by a minus, which only stands first.
    assert forall|i: int|
        0 <= i && i + 2 <= f.len() implies #[trigger] f.subrange(i, i + 2)
        != comma_dash_pattern() by {
        if f.subrange(i, i + 2) == comma_dash_pattern() {
            assert(f.subrange(i, i + 2)[1] == f[i + 1]);
            assert(f[i + 1] == '-');
            assert(false);
        }
    }
    assert(comma_dash_pattern().len() == 2);
    lemma_remove_absent(f, comma_dash_pattern());
    // Step 3: no dot occurs before the comma rewrite.
    assert forall|i: int| 0 <= i < f.len() implies #[trigger] f[i] != '.' by {
        if is_digit(f[i]) {
            lemma_digit_is_plain(f[i]);
        }
    }
    lemma_drop_dots_id(f);
    // Step 4: the comma rewrite turns the comma rendering into the dot one.
    lemma_map_commas_pointwise(f);
    let d = padded_digits(p);
    let cut = d.len() - p.scale;
    assert forall|i: int| 0 <= i < f.len() implies #[trigger] map_decimal_commas(f)[i] == g[i] by {
        let j = if p.negative {
            i - 1
        } else {
            i
        };
        if p.negative && i == 0 {
            assert(f[0] == '-' && g[0] == '-');
        } else if p.scale == 0 {
            assert(f[i] == d[j] && g[i] == d[j]);
            lemma_digit_is_plain(d[j]);
        } else if j < cut {
            assert(f[i] == d[j] && g[i] == d[j]);
            lemma_digit_is_plain(d[j]);
        } else if j == cut {
            assert(f[i] == ',' && g[i] == '.');
        } else {
            assert(f[i] == d[j - 1] && g[i] == d[j - 1]);
            lemma_digit_is_plain(d[j - 1]);
        }
    }
    assert(map_decimal_commas(f) =~= g);
    // Step 5: the dot rendering holds no whitespace.
    assert forall|i: int| 0 <= i < g.len() implies !is_space(#[trigger] g[i]) by {
        if is_digit(g[i]) {
            lemma_digit_is_plain(g[i]);
        }
    }
    lemma_drop_spaces_id(g);
}

/// Parsing the dot-rendered form recovers the price exactly.
proof fn lemma_parse_render(p: Price)
    requires
        p.wf(),
    ensures
        parse_price(spec_render(p, '.')) == Some(p),
{
    lemma_padded_digits(p);
    lemma_render_chars(p, '.');
    let d = padded_digits(p);
    let t = spec_render(p, '.');
    let cut = d.len() - p.scale;
    let body0: Seq<char> = if p.scale == 0 {
        d
    } else {
        d.take(cut) + seq!['.'] + d.skip(cut)
    };
    if p.negative {
        assert(t =~= seq!['-'] + body0);
        assert(t[0] == '-');
        assert(t.skip(1) =~= body0);
    } else {
        assert(t == body0);
        assert(t[0] == d[0]);
        lemma_digit_is_plain(d[0]);
    }
    let body = strip_sign(t).1;
    assert(body == body0);
    assert(strip_sign(t).0 == p.negative);
    if p.scale == 0 {
        assert(all_digits(body));
        assert(int_digits(body) + frac_digits(body) =~= d);
        assert(frac_digits(body).len() == 0);
    } else {
        assert(body[cut] == '.');
        assert(body.take(cut) =~= d.take(cut));
        assert(body.skip(cut + 1) =~= d.skip(cut));
        assert forall|i: int| 0 <= i < cut implies is_digit(#[trigger] d.take(cut)[i]) by {
            assert(d.take(cut)[i] == d[i]);
        }
        assert forall|i: int|
            0 <= i < d.len() - cut implies is_digit(#[trigger] d.skip(cut)[i]) by {
            assert(d.skip(cut)[i] == d[cut + i]);
        }
        assert(dot_split_at(body, cut));
        assert(body_ok(body));
        assert(!is_digit(body[cut]));
        assert(!all_digits(body));
        assert(dot_split_at(body, dot_pos(body)));
        lemma_dot_split_unique(body, dot_pos(body), cut);
        assert(int_digits(body) == body.take(cut));
        assert(frac_digits(body) == body.skip(cut + 1));
        assert(int_digits(body) + frac_digits(body) =~= d);
        assert(frac_digits(body).len() == p.scale);
    }
    assert(digits_val(int_digits(body) + frac_digits(body)) == p.mantissa as nat);
    assert(int_digits(body).len() + frac_digits(body).len() == d.len());
    assert(parse_price(t) == Some(p));
}

/// Any parsed price is well formed: its mantissa stays under the limit.
pub proof fn lemma_parse_price_wf(t: Seq<char>, p: Price)
    requires
        parse_price(t) == Some(p),
    ensures
        p.wf(),
{
}

/// Normalization is idempotent on the numeric result: a price that some raw
/// text normalized to, rendered back to text in the raw decimal-comma form
/// and normalized again, comes out as the very same price.
pub proof fn lemma_normalize_idempotent(raw: Seq<char>, p: Price)
    requires
        parse_price(sanitized(raw)) == Some(p),
    ensures
        parse_price(sanitized(spec_format_price(p))) == Some(p),
{
    lemma_parse_price_wf(sanitized(raw), p);
    lemma_sanitize_render(p);
    lemma_parse_render(p);
}

/// Executable form of [`digit_char`].
fn digit_char_exec(d: u64) -> (c: char)
    requires
        d < 10,
    ensures
        c == digit_char(d as nat),
{
    if d == 0 {
        '0'
    } else if d == 1 {
        '1'
    } else if d == 2 {
        '2'
    } else if d == 3 {
        '3'
    } else if d == 4 {
        '4'
    } else if d == 5 {
        '5'
    } else if d == 6 {
        '6'
    } else if d == 7 {
        '7'
    } else if d == 8 {
        '8'
    } else {
        '9'
    }
}

/// The decimal digits of `n`, most significant first.
fn u64_digits(n: u64) -> (v: Vec<char>)
    ensures
        v@ == spec_digits(n as nat),
{
    let mut acc: Vec<char> = Vec::new();
    let c0 = digit_char_exec(n % 10);
    acc.push(c0);
    let mut m = n / 10;
    proof {
        if n < 10 {
            assert(n % 10 == n);
            assert(acc@ =~= spec_digits(n as nat));
        } else {
            assert(spec_digits(n as nat) == spec_digits((n / 10) as nat).push(
                digit_char((n % 10) as nat),
            ));
            assert(spec_digits((n / 10) as nat) + acc@ =~= spec_digits(n as nat));
        }
    }
    while m > 0
        invariant
            m == 0 ==> acc@ == spec_digits(n as nat),
            m > 0 ==> spec_digits(n as nat) == spec_digits(m as nat) + acc@,
        decreases m,
    {
        let ghost prev = acc@;
        let c = digit_char_exec(m % 10);
        acc.insert(0, c);
        proof {
            assert(acc@ =~= seq![digit_char((m % 10) as nat)] + prev);
            if m < 10 {
                assert(m % 10 == m);
                assert(spec_digits(m as nat) =~= seq![digit_char(m as nat)]);
                assert(acc@ =~= spec_digits(m as nat) + prev);
            } else {
                assert(spec_digits(m as nat) == spec_digits((m / 10) as nat).push(
                    digit_char((m % 10) as nat),
                ));
                assert(spec_digits((m / 10) as nat) + acc@ =~= spec_digits(m as nat) + prev);
            }
        }
        m = m / 10;
    }
    acc
}

/// A price rendered with the given decimal separator, as characters.
fn render_chars(p: &Price, sep: char) -> (v: Vec<char>)
    ensures
        v@ == spec_render(*p, sep),
{
    let digits = u64_digits(p.mantissa);
    proof {
        lemma_spec_digits(p.mantissa as nat);
        lemma_padded_digits(*p);
    }
    let mut v: Vec<char> = Vec::new();
    if digits.len() <= p.scale {
        let mut remaining = (p.scale - digits.len()) + 1;
        let ghost zcount = (p.scale + 1 - digits@.len()) as nat;
        proof {
            assert(v@ =~= zeros(0));
        }
        while remaining > 0
            invariant
                remaining <= zcount,
                v@ == zeros((zcount - remaining) as nat),
            decreases remaining,
        {
            v.push('0');
            proof {
                assert(v@ =~= zeros((zcount - remaining) as nat).push('0'));
            }
            remaining -= 1;
        }
    }
    let ghost zpart = v@;
    let mut i: usize = 0;
    proof {
        assert(zpart + digits@.take(0) =~= zpart);
    }
    while i < digits.len()
        invariant
            i <= digits.len(),
            v@ == zpart + digits@.take(i as int),
        decreases digits.len() - i,
    {
        v.push(digits[i]);
        proof {
            assert(zpart + digits@.take(i as int) + seq![digits@[i as int]] =~= zpart
                + digits@.take(i + 1));
        }
        i += 1;
    }
    proof {
        assert(digits@.take(digits@.len() as int) =~= digits@);
        assert(v@ =~= padded_digits(*p));
    }
    let ghost padded = padded_digits(*p);
    if p.scale > 0 {
        let pos = v.len() - p.scale;
        v.insert(pos, sep);
        proof {
            assert(v@ =~= padded.take(pos as int) + seq![sep] + padded.skip(pos as int));
        }
    }
    if p.negative {
        let ghost body = v@;
        v.insert(0, '-');
        proof {
            assert(v@ =~= seq!['-'] + body);
        }
    }
    v
}

/// Relies on `String::push`: appends exactly the given character.
#[verifier::external_body]
fn push_char(s: &mut String, c: char)
    ensures
        final(s)@ == old(s)@.push(c),
{
    s.push(c);
}

/// A string holding exactly the given characters.
fn chars_to_string(v: &Vec<char>) -> (s: String)
    ensures
        s@ == v@,
{
    let mut s = String::new();
    let mut i: usize = 0;
    proof {
        assert(s@ =~= v@.take(0));
    }
    while i < v.len()
        invariant
            i <= v.len(),
            s@ == v@.take(i as int),
        decreases v.len() - i,
    {
        push_char(&mut s, v[i]);
        proof {
            assert(v@.take(i as int).push(v@[i as int]) =~= v@.take(i + 1));
        }
        i += 1;
    }
    proof {
        assert(v@.take(v@.len() as int) =~= v@);
    }
    s
}

/// The raw textual form of a price, with a decimal comma, exactly as
/// [`crate::price::normalize`] reads it back.
pub fn format_price(p: &Price) -> (s: String)
    ensures
        s@ == spec_format_price(*p),
{
    let v = render_chars(p, ',');
    chars_to_string(&v)
}

/// The decimal rendering of an unsigned integer, as paths and ids carry it.
pub fn u64_string(n: u64) -> (s: String)
    ensures
        s@ == spec_digits(n as nat),
{
    let v = u64_digits(n);
    chars_to_string(&v)
}

/// The numeric form of a price, with a decimal dot, as JSON bodies carry it.
pub fn decimal_string(p: &Price) -> (s: String)
    ensures
        s@ == spec_render(*p, '.'),
{
    let v = render_chars(p, '.');
    chars_to_string(&v)
}

} // verus!
