//! Verified core of a price-scraping service.
//!
//! The service authenticates against a control API, retrieves a catalog of
//! providers (external price pages), fetches each provider's page, extracts a
//! price from its HTML, normalizes the extracted text into a number, and
//! reports results back to the control API.
//!
//! This crate holds the part with real design content, fully verified:
//! price-string normalization, first-match candidate selection, request paths
//! and bodies, and the orchestration state machines (per-provider pipeline and
//! the bounded-concurrency run orchestrator). The selector engine and the
//! timestamp rendering are consumed as outside capabilities behind trusted
//! items. The surrounding process — HTTP, the clock, argument parsing —
//! performs the actions the state machines request and feeds the outcomes
//! back as events.

pub mod client;
pub mod credentials;
pub mod extract;
pub mod orchestrator;
pub mod pipeline;
pub mod price;
pub mod render;
pub mod sanitize;
pub mod select;

pub use credentials::auth_header_value;
pub use credentials::Credentials;
pub use credentials::Token;
