//! Multi-provider web search aggregation: the engine catalog and registry,
//! request building and result parsing for every provider, result merging,
//! and release bookkeeping, each specified and verified.
pub mod text;
pub mod html_utils;
pub mod types;
pub mod json;
pub mod engines;
pub mod registry;
pub mod encoding;
pub mod pattern;
pub mod merger;
pub mod error;
pub mod transport;
pub mod provider;
pub mod search;
pub mod scrape;
pub mod google;
pub mod bing;
pub mod duckduckgo;
pub mod web_capture;
pub mod release;
pub mod listing;
pub mod providers;

pub use error::SearchError;
pub use merger::MergeStrategy;
pub use registry::{
    get_default_provider_ids, get_provider_ids, get_registry, is_known_category, RegistryEntry,
    CATEGORIES,
};
pub use search::{DetailedSearchResult, ProviderError, ProviderOutcome, ProviderOutcomeStatus};
pub use transport::{TransportRequest, TransportResponse};
pub use types::{SearchOptions, SearchResult};
