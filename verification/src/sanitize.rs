//! The five text rewrites that turn raw scraped price text into a plain
//! decimal string: remove `"kr."`, remove `",-"`, drop `.` (thousands
//! separators), turn `,` into `.` (decimal separator), drop whitespace.
//!
//! Each rewrite has a specification function on `Seq<char>` and a verified
//! executable counterpart on `Vec<char>`.

use vstd::prelude::*;

verus! {

/// The literal `"kr."` removed by the first rewrite.
pub open spec fn kr_pattern() -> Seq<char> {
    seq!['k', 'r', '.']
}

/// The literal `",-"` removed by the second rewrite.
pub open spec fn comma_dash_pattern() -> Seq<char> {
    seq![',', '-']
}

/// One left-to-right pass over `s` that removes every non-overlapping
/// occurrence of `pat`, continuing after each removed occurrence.
pub open spec fn remove_occurrences(s: Seq<char>, pat: Seq<char>) -> Seq<char>
    decreases s.len(),
{
    if pat.len() == 0 || s.len() == 0 {
        s
    } else if pat.is_prefix_of(s) {
        remove_occurrences(s.skip(pat.len() as int), pat)
    } else {
        seq![s[0]] + remove_occurrences(s.skip(1), pat)
    }
}

/// The whitespace characters the fifth rewrite removes.
pub open spec fn is_space(c: char) -> bool {
    c == '\u{0009}' || c == '\u{000A}' || c == '\u{000B}' || c == '\u{000C}'
        || c == '\u{000D}' || c == ' ' || c == '\u{0085}' || c == '\u{00A0}'
        || c == '\u{1680}' || c == '\u{2000}' || c == '\u{2001}' || c == '\u{2002}'
        || c == '\u{2003}' || c == '\u{2004}' || c == '\u{2005}' || c == '\u{2006}'
        || c == '\u{2007}' || c == '\u{2008}' || c == '\u{2009}' || c == '\u{200A}'
        || c == '\u{2028}' || c == '\u{2029}' || c == '\u{202F}' || c == '\u{205F}'
        || c == '\u{3000}'
}

/// The fourth rewrite on one character: a comma becomes a dot.
pub open spec fn replace_comma(c: char) -> char {
    if c == ',' {
        '.'
    } else {
        c
    }
}

/// The fourth rewrite: every comma becomes a dot.
pub open spec fn map_decimal_commas(s: Seq<char>) -> Seq<char>
    decreases s.len(),
{
    if s.len() == 0 {
        s
    } else {
        seq![replace_comma(s[0])] + map_decimal_commas(s.skip(1))
    }
}

/// The third rewrite: every dot is dropped.
pub open spec fn drop_dots(s: Seq<char>) -> Seq<char>
    decreases s.len(),
{
    if s.len() == 0 {
        s
    } else if s[0] == '.' {
        drop_dots(s.skip(1))
    } else {
        seq![s[0]] + drop_dots(s.skip(1))
    }
}

/// The fifth rewrite: every whitespace character is dropped.
pub open spec fn drop_spaces(s: Seq<char>) -> Seq<char>
    decreases s.len(),
{
    if s.len() == 0 {
        s
    } else if is_space(s[0]) {
        drop_spaces(s.skip(1))
    } else {
        seq![s[0]] + drop_spaces(s.skip(1))
    }
}

/// All five rewrites in their significant order: the dots must be dropped
/// before the commas become dots.
pub open spec fn sanitized(s: Seq<char>) -> Seq<char> {
    drop_spaces(
        map_decimal_commas(
            drop_dots(remove_occurrences(remove_occurrences(s, kr_pattern()), comma_dash_pattern())),
        ),
    )
}

/// Whether `pat` occurs in `v` starting at index `i`.
fn pattern_matches_at(v: &Vec<char>, pat: &Vec<char>, i: usize) -> (b: bool)
    requires
        i <= v.len(),
    ensures
        b == pat@.is_prefix_of(v@.skip(i as int)),
{
    if v.len() - i < pat.len() {
        return false;
    }
    let mut j: usize = 0;
    while j < pat.len()
        invariant
            i + pat.len() <= v.len(),
            j <= pat.len(),
            forall|k: int| 0 <= k < j ==> v@[i + k] == pat@[k],
        decreases pat.len() - j,
    {
        if v[i + j] != pat[j] {
            assert(v@.skip(i as int)[j as int] == v@[i + j]);
            return false;
        }
        j += 1;
    }
    assert(pat@ =~= v@.skip(i as int).subrange(0, pat.len() as int));
    true
}

/// Verified executable form of [`remove_occurrences`].
fn remove_occurrences_exec(v: &Vec<char>, pat: &Vec<char>) -> (r: Vec<char>)
    requires
        pat.len() > 0,
    ensures
        r@ == remove_occurrences(v@, pat@),
{
    let mut r: Vec<char> = Vec::new();
    let mut i: usize = 0;
    proof {
        assert(v@.skip(0) =~= v@);
        assert(r@ + remove_occurrences(v@, pat@) =~= remove_occurrences(v@, pat@));
    }
    while i < v.len()
        invariant
            i <= v.len(),
            pat.len() > 0,
            remove_occurrences(v@, pat@) == r@ + remove_occurrences(v@.skip(i as int), pat@),
        decreases v.len() - i,
    {
        let ghost prev = r@;
        if pattern_matches_at(v, pat, i) {
            proof {
                assert(v@.skip(i as int).skip(pat@.len() as int) =~= v@.skip(
                    i + pat@.len() as int,
                ));
            }
            i += pat.len();
        } else {
            proof {
                assert(v@.skip(i as int).len() > 0);
                assert(v@.skip(i as int)[0] == v@[i as int]);
                assert(v@.skip(i as int).skip(1) =~= v@.skip(i + 1));
            }
            r.push(v[i]);
            proof {
                assert(remove_occurrences(v@.skip(i as int), pat@) == seq![v@[i as int]]
                    + remove_occurrences(v@.skip(i + 1), pat@));
                assert(prev + remove_occurrences(v@.skip(i as int), pat@) =~= r@
                    + remove_occurrences(v@.skip(i + 1), pat@));
            }
            i += 1;
        }
    }
    proof {
        assert(v@.skip(i as int).len() == 0);
        assert(remove_occurrences(v@.skip(i as int), pat@) =~= Seq::<char>::empty());
        assert(r@ + Seq::<char>::empty() =~= r@);
    }
    r
}

/// Verified executable form of [`drop_dots`].
fn drop_dots_exec(v: &Vec<char>) -> (r: Vec<char>)
    ensures
        r@ == drop_dots(v@),
{
    let mut r: Vec<char> = Vec::new();
    let mut i: usize = 0;
    proof {
        assert(v@.skip(0) =~= v@);
        assert(r@ + drop_dots(v@) =~= drop_dots(v@));
    }
    while i < v.len()
        invariant
            i <= v.len(),
            drop_dots(v@) == r@ + drop_dots(v@.skip(i as int)),
        decreases v.len() - i,
    {
        let ghost prev = r@;
        proof {
            assert(v@.skip(i as int)[0] == v@[i as int]);
            assert(v@.skip(i as int).skip(1) =~= v@.skip(i + 1));
        }
        if v[i] != '.' {
            r.push(v[i]);
            proof {
                assert(prev + drop_dots(v@.skip(i as int)) =~= r@ + drop_dots(v@.skip(i + 1)));
            }
        }
        i += 1;
    }
    proof {
        assert(drop_dots(v@.skip(i as int)) =~= Seq::<char>::empty());
        assert(r@ + Seq::<char>::empty() =~= r@);
    }
    r
}

/// Executable form of [`is_space`].
pub fn is_space_char(c: char) -> (b: bool)
    ensures
        b == is_space(c),
{
    c == '\u{0009}' || c == '\u{000A}' || c == '\u{000B}' || c == '\u{000C}'
        || c == '\u{000D}' || c == ' ' || c == '\u{0085}' || c == '\u{00A0}'
        || c == '\u{1680}' || c == '\u{2000}' || c == '\u{2001}' || c == '\u{2002}'
        || c == '\u{2003}' || c == '\u{2004}' || c == '\u{2005}' || c == '\u{2006}'
        || c == '\u{2007}' || c == '\u{2008}' || c == '\u{2009}' || c == '\u{200A}'
        || c == '\u{2028}' || c == '\u{2029}' || c == '\u{202F}' || c == '\u{205F}'
        || c == '\u{3000}'
}

/// Verified executable form of [`drop_spaces`].
fn drop_spaces_exec(v: &Vec<char>) -> (r: Vec<char>)
    ensures
        r@ == drop_spaces(v@),
{
    let mut r: Vec<char> = Vec::new();
    let mut i: usize = 0;
    proof {
        assert(v@.skip(0) =~= v@);
        assert(r@ + drop_spaces(v@) =~= drop_spaces(v@));
    }
    while i < v.len()
        invariant
            i <= v.len(),
            drop_spaces(v@) == r@ + drop_spaces(v@.skip(i as int)),
        decreases v.len() - i,
    {
        let ghost prev = r@;
        proof {
            assert(v@.skip(i as int)[0] == v@[i as int]);
            assert(v@.skip(i as int).skip(1) =~= v@.skip(i + 1));
        }
        if !is_space_char(v[i]) {
            r.push(v[i]);
            proof {
                assert(prev + drop_spaces(v@.skip(i as int)) =~= r@ + drop_spaces(v@.skip(i + 1)));
            }
        }
        i += 1;
    }
    proof {
        assert(drop_spaces(v@.skip(i as int)) =~= Seq::<char>::empty());
        assert(r@ + Seq::<char>::empty() =~= r@);
    }
    r
}

/// Verified executable form of [`map_decimal_commas`].
fn map_decimal_commas_exec(v: &Vec<char>) -> (r: Vec<char>)
    ensures
        r@ == map_decimal_commas(v@),
{
    let mut r: Vec<char> = Vec::new();
    let mut i: usize = 0;
    proof {
        assert(v@.skip(0) =~= v@);
        assert(r@ + map_decimal_commas(v@) =~= map_decimal_commas(v@));
    }
    while i < v.len()
        invariant
            i <= v.len(),
            map_decimal_commas(v@) == r@ + map_decimal_commas(v@.skip(i as int)),
        decreases v.len() - i,
    {
        let ghost prev = r@;
        proof {
            assert(v@.skip(i as int)[0] == v@[i as int]);
            assert(v@.skip(i as int).skip(1) =~= v@.skip(i + 1));
        }
        if v[i] == ',' {
            r.push('.');
        } else {
            r.push(v[i]);
        }
        proof {
            assert(r@ == prev + seq![replace_comma(v@[i as int])]);
            assert(prev + map_decimal_commas(v@.skip(i as int)) =~= r@ + map_decimal_commas(
                v@.skip(i + 1),
            ));
        }
        i += 1;
    }
    proof {
        assert(map_decimal_commas(v@.skip(i as int)) =~= Seq::<char>::empty());
        assert(r@ + Seq::<char>::empty() =~= r@);
    }
    r
}

/// The characters of a string, one by one.
pub fn str_to_chars(s: &str) -> (v: Vec<char>)
    ensures
        v@ == s@,
{
    let n = s.unicode_len();
    let mut v: Vec<char> = Vec::new();
    let mut i: usize = 0;
    while i < n
        invariant
            i <= n,
            n == s@.len(),
            v@ == s@.take(i as int),
        decreases n - i,
    {
        let c = s.get_char(i);
        v.push(c);
        proof {
            assert(v@ =~= s@.take(i + 1));
        }
        i += 1;
    }
    proof {
        assert(s@.take(n as int) =~= s@);
    }
    v
}

/// All five rewrites, executably: the result's characters are exactly
/// [`sanitized`] of the input's characters.
pub fn sanitize_chars(v: &Vec<char>) -> (r: Vec<char>)
    ensures
        r@ == sanitized(v@),
{
    let kr: Vec<char> = vec!['k', 'r', '.'];
    let comma_dash: Vec<char> = vec![',', '-'];
    proof {
        assert(kr@ =~= kr_pattern());
        assert(comma_dash@ =~= comma_dash_pattern());
    }
    let step1 = remove_occurrences_exec(v, &kr);
    let step2 = remove_occurrences_exec(&step1, &comma_dash);
    let step3 = drop_dots_exec(&step2);
    let step4 = map_decimal_commas_exec(&step3);
    drop_spaces_exec(&step4)
}

} // verus!
