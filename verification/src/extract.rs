//! Candidate extraction: evaluating a provider's configured CSS-style
//! selector over a fetched page body.
//!
//! The selector engine itself is an outside capability, consumed as such: the
//! library names its results and builds the verified selection logic on top.

use vstd::prelude::*;

verus! {

/// Whether a selector expression parses; a function of the expression alone.
pub uninterp spec fn selector_ok(selector: Seq<char>) -> bool;

/// The text content of the elements a selector matches in a page body, in
/// document order; a function of the body and the expression alone.
pub uninterp spec fn selected_texts(body: Seq<char>, selector: Seq<char>) -> Seq<Seq<char>>;

/// Relies on scraper's `Selector::parse`, `Html::parse_document` and
/// `Html::select`: whether the expression parses depends on the expression
/// alone, and the matched elements' text, in document order, depends on the
/// page body and the expression alone. `None` exactly when the expression
/// does not parse.
#[verifier::external_body]
pub(crate) fn extract_candidates(body: &str, selector: &str) -> (r: Option<Vec<String>>)
    ensures
        match r {
            Some(texts) => selector_ok(selector@) && texts.deep_view() == selected_texts(
                body@,
                selector@,
            ),
            None => !selector_ok(selector@),
        },
{
    let parsed = match scraper::Selector::parse(selector) {
        Ok(s) => s,
        Err(_) => return None,
    };
    let document = scraper::Html::parse_document(body);
    Some(document.select(&parsed).map(|element| element.text().collect::<String>()).collect())
}

} // verus!
