//! The per-provider pipeline: resolve the provider, fetch its page, evaluate
//! its selector, pick the first usable price, report it.
//!
//! The pipeline is a state machine. Each step consumes the outcome of the
//! previous outside operation (an event) and names the next operation (an
//! action); the runner performs the actions. The selector evaluation itself
//! happens inside the step on a fetched body, through the library's trusted
//! extraction. Failures here are scoped to one provider: they end this
//! pipeline with a failed outcome and touch nothing else.

use crate::extract::extract_candidates;
use crate::extract::selected_texts;
use crate::extract::selector_ok;
use crate::price::Price;
use crate::select::is_first_usable;
use crate::select::none_usable;
use crate::select::select_price;
use vstd::prelude::*;

verus! {

/// A catalog entry: a provider reference, by id.
#[derive(Clone, Copy, Debug, PartialEq, Eq, Structural)]
pub struct ProviderRef {
    pub id: u64,
}

/// A fully resolved provider.
pub struct Provider {
    pub id: u64,
    pub name: String,
    pub url: String,
    pub html_element: String,
}

/// Failures scoped to one pipeline.
#[derive(Clone, Copy, Debug, PartialEq, Eq, Structural)]
pub enum PipelineError {
    /// The provider could not be resolved: transport failure or malformed body.
    ProviderResolution,
    /// The page fetch failed: transport failure or non-success status.
    Fetch,
    /// The provider's configured selector expression is invalid.
    Selector,
}

/// How one provider's pipeline ended.
#[derive(Clone, Copy, Debug, PartialEq, Eq, Structural)]
pub enum PipelineOutcome {
    /// A usable price was found and handed to the price report.
    Reported { provider_id: u64, price: Price },
    /// No candidate was usable: a successful completion without a price.
    NoPrice { provider_id: u64 },
    /// An infrastructure failure ended this pipeline early.
    Failed { provider_id: u64, error: PipelineError },
}

/// Where one provider's pipeline stands.
pub enum PipelineState {
    /// Waiting for the provider to be resolved.
    Resolving { provider_id: u64 },
    /// Waiting for the page fetch.
    Fetching { provider: Provider },
    /// Waiting for the best-effort price report.
    Reporting { provider_id: u64, price: Price },
    /// Finished, one way or the other.
    Done { outcome: PipelineOutcome },
}

/// What the outside world answered.
pub enum PipelineEvent {
    /// The provider was resolved to its full record.
    Resolved { provider: Provider },
    /// Resolution failed: transport failure or malformed body.
    ResolveFailed,
    /// The page was fetched with a success status, and this was its body.
    Fetched { body: String },
    /// The page fetch failed: transport failure or non-success status.
    FetchFailed,
    /// The price report finished; `accepted` tells whether the API took it.
    /// The report is best-effort: either way the pipeline completes.
    PriceReported { accepted: bool },
}

/// What the runner must do next.
pub enum PipelineAction {
    /// Resolve the provider with this id.
    Resolve { provider_id: u64 },
    /// Fetch this page.
    FetchPage { url: String },
    /// Report this price for this provider, best-effort.
    ReportPrice { provider_id: u64, price: Price },
    /// Nothing: the pipeline is done with this outcome.
    Finished { outcome: PipelineOutcome },
}

impl PipelineState {
    /// The events each state accepts.
    pub open spec fn accepts(self, event: PipelineEvent) -> bool {
        match (self, event) {
            (
                PipelineState::Resolving { provider_id },
                PipelineEvent::Resolved { provider },
            ) => provider.id == provider_id,
            (PipelineState::Resolving { .. }, PipelineEvent::ResolveFailed) => true,
            (PipelineState::Fetching { .. }, PipelineEvent::Fetched { .. }) => true,
            (PipelineState::Fetching { .. }, PipelineEvent::FetchFailed) => true,
            (PipelineState::Reporting { .. }, PipelineEvent::PriceReported { .. }) => true,
            _ => false,
        }
    }

    /// A fresh pipeline for one catalog entry, and its first action.
    pub fn start(r: ProviderRef) -> (res: (PipelineState, PipelineAction))
        ensures
            res.0 == (PipelineState::Resolving { provider_id: r.id }),
            res.1 == (PipelineAction::Resolve { provider_id: r.id }),
    {
        (
            PipelineState::Resolving { provider_id: r.id },
            PipelineAction::Resolve { provider_id: r.id },
        )
    }

    /// One step: consume the event, move to the next state, name the next
    /// action. On a fetched body the provider's selector is evaluated (an
    /// invalid expression fails this pipeline with a selector error) and the
    /// first candidate with a strictly positive normalized price, in document
    /// order, is selected; the price report's own outcome is ignored
    /// (best-effort, never escalated).
    pub fn step(self, event: PipelineEvent) -> (res: (PipelineState, PipelineAction))
        requires
            self.accepts(event),
        ensures
            match (self, event) {
                (PipelineState::Resolving { .. }, PipelineEvent::Resolved { provider }) => {
                    &&& res.0 == (PipelineState::Fetching { provider })
                    &&& res.1 == (PipelineAction::FetchPage { url: provider.url })
                },
                (PipelineState::Resolving { provider_id }, PipelineEvent::ResolveFailed) => {
                    let outcome = PipelineOutcome::Failed {
                        provider_id,
                        error: PipelineError::ProviderResolution,
                    };
                    res.0 == (PipelineState::Done { outcome }) && res.1 == (
                    PipelineAction::Finished { outcome })
                },
                (PipelineState::Fetching { provider }, PipelineEvent::Fetched { body }) => {
                    if !selector_ok(provider.html_element@) {
                        let outcome = PipelineOutcome::Failed {
                            provider_id: provider.id,
                            error: PipelineError::Selector,
                        };
                        res.0 == (PipelineState::Done { outcome }) && res.1 == (
                        PipelineAction::Finished { outcome })
                    } else {
                        let cands = selected_texts(body@, provider.html_element@);
                        match res.1 {
                            PipelineAction::ReportPrice { provider_id, price } => {
                                &&& provider_id == provider.id
                                &&& (exists|i: int| is_first_usable(cands, i, price))
                                &&& res.0 == (PipelineState::Reporting {
                                    provider_id: provider.id,
                                    price,
                                })
                            },
                            PipelineAction::Finished { outcome } => {
                                &&& none_usable(cands)
                                &&& outcome == (PipelineOutcome::NoPrice {
                                    provider_id: provider.id,
                                })
                                &&& res.0 == (PipelineState::Done { outcome })
                            },
                            _ => false,
                        }
                    }
                },
                (PipelineState::Fetching { provider }, PipelineEvent::FetchFailed) => {
                    let outcome = PipelineOutcome::Failed {
                        provider_id: provider.id,
                        error: PipelineError::Fetch,
                    };
                    res.0 == (PipelineState::Done { outcome }) && res.1 == (
                    PipelineAction::Finished { outcome })
                },
                (
                    PipelineState::Reporting { provider_id, price },
                    PipelineEvent::PriceReported { .. },
                ) => {
                    let outcome = PipelineOutcome::Reported { provider_id, price };
                    res.0 == (PipelineState::Done { outcome }) && res.1 == (
                    PipelineAction::Finished { outcome })
                },
                _ => true,
            },
    {
        match (self, event) {
            (PipelineState::Resolving { provider_id: _ }, PipelineEvent::Resolved { provider }) => {
                let url = provider.url.clone();
                (PipelineState::Fetching { provider }, PipelineAction::FetchPage { url })
            },
            (PipelineState::Resolving { provider_id }, PipelineEvent::ResolveFailed) => {
                let outcome = PipelineOutcome::Failed {
                    provider_id,
                    error: PipelineError::ProviderResolution,
                };
                (PipelineState::Done { outcome }, PipelineAction::Finished { outcome })
            },
            (PipelineState::Fetching { provider }, PipelineEvent::Fetched { body }) => {
                match extract_candidates(body.as_str(), provider.html_element.as_str()) {
                    None => {
                        let outcome = PipelineOutcome::Failed {
                            provider_id: provider.id,
                            error: PipelineError::Selector,
                        };
                        (PipelineState::Done { outcome }, PipelineAction::Finished { outcome })
                    },
                    Some(candidates) => {
                        match select_price(&candidates) {
                            Some(ip) => {
                                let price = ip.1;
                                (
                                    PipelineState::Reporting {
                                        provider_id: provider.id,
                                        price,
                                    },
                                    PipelineAction::ReportPrice {
                                        provider_id: provider.id,
                                        price,
                                    },
                                )
                            },
                            None => {
                                let outcome = PipelineOutcome::NoPrice {
                                    provider_id: provider.id,
                                };
                                (
                                    PipelineState::Done { outcome },
                                    PipelineAction::Finished { outcome },
                                )
                            },
                        }
                    },
                }
            },
            (PipelineState::Fetching { provider }, PipelineEvent::FetchFailed) => {
                let outcome = PipelineOutcome::Failed {
                    provider_id: provider.id,
                    error: PipelineError::Fetch,
                };
                (PipelineState::Done { outcome }, PipelineAction::Finished { outcome })
            },
            (
                PipelineState::Reporting { provider_id, price },
                PipelineEvent::PriceReported { accepted: _ },
            ) => {
                let outcome = PipelineOutcome::Reported { provider_id, price };
                (PipelineState::Done { outcome }, PipelineAction::Finished { outcome })
            },
            _ => {
                let outcome = PipelineOutcome::NoPrice { provider_id: 0 };
                (PipelineState::Done { outcome }, PipelineAction::Finished { outcome })
            },
        }
    }
}

} // verus!
