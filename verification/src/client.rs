//! The control API's surface, as verified text: the request path for each
//! operation and the request bodies the library composes itself.
//!
//! The HTTP transport lives outside; it sends exactly what these functions
//! return. Timestamps are rendered through chrono behind a trusted wrapper.

use crate::orchestrator::RunRecord;
use crate::price::Price;
use crate::render::spec_digits;
use crate::render::spec_render;
use crate::render::decimal_string;
use crate::render::u64_string;
use vstd::prelude::*;

verus! {

/// The URL of the login operation.
pub fn login_url(base: &str) -> (r: String)
    ensures
        r@ == base@ + "/auth/login"@,
{
    let mut r = base.to_owned();
    r.append("/auth/login");
    r
}

/// The URL of the catalog listing.
pub fn catalog_url(base: &str) -> (r: String)
    ensures
        r@ == base@ + "/scraping_runs/providers"@,
{
    let mut r = base.to_owned();
    r.append("/scraping_runs/providers");
    r
}

/// The URL that resolves one provider.
pub fn provider_url(base: &str, id: u64) -> (r: String)
    ensures
        r@ == base@ + "/providers/"@ + spec_digits(id as nat),
{
    let mut r = base.to_owned();
    r.append("/providers/");
    let digits = u64_string(id);
    r.append(digits.as_str());
    r
}

/// The URL that takes one provider's price report.
pub fn prices_url(base: &str, id: u64) -> (r: String)
    ensures
        r@ == base@ + "/providers/"@ + spec_digits(id as nat) + "/prices"@,
{
    let mut r = provider_url(base, id);
    r.append("/prices");
    r
}

/// The URL that takes the run report.
pub fn runs_url(base: &str) -> (r: String)
    ensures
        r@ == base@ + "/scraping_runs"@,
{
    let mut r = base.to_owned();
    r.append("/scraping_runs");
    r
}

/// The price report's body: a JSON object with the one `price` field, the
/// price in its dot-decimal form.
pub fn price_report_body(p: &Price) -> (r: String)
    ensures
        r@ == "{\"price\":"@ + spec_render(*p, '.') + "}"@,
{
    let mut r = String::new();
    r.append("{\"price\":");
    let num = decimal_string(p);
    r.append(num.as_str());
    r.append("}");
    proof {
        assert(Seq::<char>::empty() + "{\"price\":"@ =~= "{\"price\":"@);
    }
    r
}

/// The rendering of a UTC instant, from its milliseconds alone.
pub uninterp spec fn iso8601_of(millis: u64) -> Seq<char>;

/// Relies on chrono's `DateTime::<Utc>::from_timestamp_millis` and
/// `to_rfc3339`: the RFC 3339 rendering of a UTC instant is a function of the
/// millisecond value alone (empty for instants chrono cannot represent).
#[verifier::external_body]
fn format_utc(millis: u64) -> (r: String)
    ensures
        r@ == iso8601_of(millis),
{
    match chrono::DateTime::<chrono::Utc>::from_timestamp_millis(millis as i64) {
        Some(dt) => dt.to_rfc3339(),
        None => String::new(),
    }
}

/// The run report's body: a JSON object with the run's start and end
/// instants, each rendered as an RFC 3339 timestamp.
pub fn run_report_body(record: &RunRecord) -> (r: String)
    ensures
        r@ == "{\"start_time\":\""@ + iso8601_of(record.start_time) + "\",\"end_time\":\""@
            + iso8601_of(record.end_time) + "\"}"@,
{
    let mut r = String::new();
    r.append("{\"start_time\":\"");
    let start = format_utc(record.start_time);
    r.append(start.as_str());
    r.append("\",\"end_time\":\"");
    let end = format_utc(record.end_time);
    r.append(end.as_str());
    r.append("\"}");
    proof {
        assert(Seq::<char>::empty() + "{\"start_time\":\""@ =~= "{\"start_time\":\""@);
    }
    r
}

} // verus!
