//! Declarative scraping toolkit: a request-template compiler and derive-style
//! extraction planners for HTML (CSS selectors, XPath) and JSON documents,
//! together with thin facades over the underlying query engines.

pub mod css_derive;
pub mod css_selector;
pub mod engine;
pub mod error;
pub mod http_template;
pub mod jsonpath;
pub mod proxy;
pub mod response;
pub mod shape;
pub mod xpath;
pub mod text;
