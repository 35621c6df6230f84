//! First-match candidate selection: the first candidate text, in document
//! order, whose normalized price is strictly positive wins; candidates that
//! fail to parse or parse to a value at or below zero are skipped silently.

use crate::price::normalize;
use crate::price::parse_price;
use crate::price::Price;
use crate::sanitize::sanitized;
use vstd::prelude::*;

verus! {

/// The normalized price of candidate text `s`, when its sanitized form parses.
pub open spec fn spec_normalized(s: Seq<char>) -> Option<Price> {
    parse_price(sanitized(s))
}

/// Candidate text `s` yields a usable price: it parses and is strictly
/// positive. A price at or below zero is not usable even though it parsed.
pub open spec fn usable(s: Seq<char>) -> bool {
    match spec_normalized(s) {
        Some(p) => p.spec_is_positive(),
        None => false,
    }
}

/// `i` is the first candidate with a usable price, and that price is `p`.
pub open spec fn is_first_usable(cands: Seq<Seq<char>>, i: int, p: Price) -> bool {
    &&& 0 <= i < cands.len()
    &&& usable(cands[i])
    &&& spec_normalized(cands[i]) == Some(p)
    &&& forall|k: int| 0 <= k < i ==> !usable(#[trigger] cands[k])
}

/// No candidate yields a usable price.
pub open spec fn none_usable(cands: Seq<Seq<char>>) -> bool {
    forall|k: int| 0 <= k < cands.len() ==> !usable(#[trigger] cands[k])
}

/// First-match, short-circuit selection over candidate texts in document
/// order: returns the first usable candidate's index and price, and never
/// evaluates a candidate past it; `None` exactly when no candidate is usable.
pub fn select_price(candidates: &Vec<String>) -> (r: Option<(usize, Price)>)
    ensures
        match r {
            Some(ip) => is_first_usable(candidates.deep_view(), ip.0 as int, ip.1),
            None => none_usable(candidates.deep_view()),
        },
{
    let mut i: usize = 0;
    while i < candidates.len()
        invariant
            i <= candidates.len(),
            forall|k: int| 0 <= k < i ==> !usable(#[trigger] candidates.deep_view()[k]),
        decreases candidates.len() - i,
    {
        proof {
            assert(candidates.deep_view()[i as int] == candidates@[i as int]@);
        }
        match normalize(candidates[i].as_str()) {
            Ok(p) => {
                if p.is_positive() {
                    return Some((i, p));
                }
            },
            Err(_) => {},
        }
        i += 1;
    }
    None
}

} // verus!
