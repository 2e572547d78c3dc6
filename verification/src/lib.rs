//! Extraction core for a multi-marketplace product-listing scraper.
//!
//! Given the raw markup of one search-results page and a marketplace's
//! configuration profile (structural queries, currency locale, sponsored-link
//! prefixes), the library locates the repeating product cards, pulls typed
//! fields out of each card, filters sponsored listings, and returns normalized
//! [`models::Product`] records or a precise [`errors::ScrapingError`] saying
//! which step failed. An aggregator merges the outcomes of several
//! marketplaces into one best-effort product list plus a per-source failure
//! map. Fetching pages over the network is left to the surrounding program.

pub mod aggregate;
pub mod dom;
pub mod errors;
pub mod extract;
pub mod marketplaces;
pub mod models;
pub mod price;
pub mod text;
pub mod url;
