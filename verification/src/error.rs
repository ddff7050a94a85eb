//! Error types for web search operations.
use vstd::prelude::*;
use crate::text::{append_str, chars_of, string_of};

verus! {

/// Errors that can occur during web search operations. Errors raised by
/// outside crates (HTTP client, URL and JSON parsers) carry their message.
#[derive(Debug, Clone, PartialEq, Eq)]
pub enum SearchError {
    /// HTTP request failed.
    RequestError(String),
    /// Failed to parse HTML.
    ParseError(String),
    /// Invalid URL.
    UrlError(String),
    /// Provider not found.
    UnknownProvider(String),
    /// Provider is disabled.
    ProviderDisabled(String),
    /// API error from a search provider.
    ApiError { provider: String, message: String },
    /// Invalid configuration.
    ConfigError(String),
    /// JSON serialization/deserialization error.
    JsonError(String),
    /// The caller's transport failed.
    Transport(String),
}

/// The message of an error.
pub open spec fn error_message(e: SearchError) -> Seq<char> {
    match e {
        SearchError::RequestError(m) => "HTTP request failed: "@ + m@,
        SearchError::ParseError(m) => "Failed to parse HTML: "@ + m@,
        SearchError::UrlError(m) => "Invalid URL: "@ + m@,
        SearchError::UnknownProvider(m) => "Unknown provider: "@ + m@,
        SearchError::ProviderDisabled(m) => "Provider "@ + m@ + " is disabled"@,
        SearchError::ApiError { provider, message } => "API error from "@ + provider@ + ": "@
            + message@,
        SearchError::ConfigError(m) => "Invalid configuration: "@ + m@,
        SearchError::JsonError(m) => "JSON error: "@ + m@,
        SearchError::Transport(m) => "Transport failed: "@ + m@,
    }
}

/// The stable broad category of an error.
pub open spec fn error_kind(e: SearchError) -> Seq<char> {
    match e {
        SearchError::RequestError(_) => "request"@,
        SearchError::Transport(_) => "transport"@,
        SearchError::ParseError(_) | SearchError::JsonError(_) => "parse"@,
        SearchError::UrlError(_) => "url"@,
        SearchError::UnknownProvider(_) => "unknown_provider"@,
        SearchError::ProviderDisabled(_) => "provider_disabled"@,
        SearchError::ApiError { .. } => "api"@,
        SearchError::ConfigError(_) => "configuration"@,
    }
}

impl SearchError {
    /// The human-readable message of this error.
    pub fn message(&self) -> (r: String)
        ensures
            r@ == error_message(*self),
    {
        let mut v: Vec<char>;
        match self {
            SearchError::RequestError(m) => {
                v = chars_of("HTTP request failed: ");
                append_str(&mut v, m.as_str());
            },
            SearchError::ParseError(m) => {
                v = chars_of("Failed to parse HTML: ");
                append_str(&mut v, m.as_str());
            },
            SearchError::UrlError(m) => {
                v = chars_of("Invalid URL: ");
                append_str(&mut v, m.as_str());
            },
            SearchError::UnknownProvider(m) => {
                v = chars_of("Unknown provider: ");
                append_str(&mut v, m.as_str());
            },
            SearchError::ProviderDisabled(m) => {
                v = chars_of("Provider ");
                append_str(&mut v, m.as_str());
                append_str(&mut v, " is disabled");
            },
            SearchError::ApiError { provider, message } => {
                v = chars_of("API error from ");
                append_str(&mut v, provider.as_str());
                append_str(&mut v, ": ");
                append_str(&mut v, message.as_str());
            },
            SearchError::ConfigError(m) => {
                v = chars_of("Invalid configuration: ");
                append_str(&mut v, m.as_str());
            },
            SearchError::JsonError(m) => {
                v = chars_of("JSON error: ");
                append_str(&mut v, m.as_str());
            },
            SearchError::Transport(m) => {
                v = chars_of("Transport failed: ");
                append_str(&mut v, m.as_str());
            },
        }
        string_of(&v)
    }

    /// The stable broad category of this error.
    pub fn kind(&self) -> (r: &'static str)
        ensures
            r@ == error_kind(*self),
    {
        match self {
            SearchError::RequestError(_) => "request",
            SearchError::Transport(_) => "transport",
            SearchError::ParseError(_) | SearchError::JsonError(_) => "parse",
            SearchError::UrlError(_) => "url",
            SearchError::UnknownProvider(_) => "unknown_provider",
            SearchError::ProviderDisabled(_) => "provider_disabled",
            SearchError::ApiError { .. } => "api",
            SearchError::ConfigError(_) => "configuration",
        }
    }
}

} // verus!
