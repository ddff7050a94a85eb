//! The provider-facing surface of the library, gathered in one place.
pub use crate::bing::BingConfig;
pub use crate::engines::html::{parse_anchor_list, AnchorConfig};
pub use crate::engines::{
    access_for, all_descriptor_engines, api_engines, html_engines, EngineDescriptor, EngineKind,
    HttpMethod,
};
pub use crate::google::GoogleConfig;
pub use crate::html_utils::{clean_text, decode_html_entities, strip_html};
pub use crate::registry::{
    get_default_provider_ids, get_provider_ids, get_registry, is_known_category, BuildConfig,
    RegistryEntry, CATEGORIES, SUPPORTED_PROVIDERS,
};
pub use crate::types::{SearchOptions, SearchResult};
pub use crate::web_capture::CaptureItem;
