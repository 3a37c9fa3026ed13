//! Error types: run-time scraping errors and compile-time configuration
//! diagnostics raised by the derive planners.

use vstd::prelude::*;

verus! {

/// Run-time scraping error, carrying the offending input as text.
#[derive(Debug, Clone, PartialEq, Eq)]
pub enum ScraperError {
    /// A JSONPath expression was rejected by the path engine.
    JsonPathError(String),
    /// A JSONPath query matched nothing where one match was required.
    JsonPathMatchError(String),
    /// A document could not be parsed as JSON.
    JsonDeserializeError(String),
    /// A CSS selector was rejected by the selector parser.
    CssSelectorError(String),
    /// A CSS selector query matched nothing where one match was required.
    CssSelectorMatchError(String),
    /// An HTML document could not be parsed.
    HtmlParseError(String),
    /// An XPath expression failed to evaluate.
    XPathError(String),
    /// A transport failure, carried over as its message.
    IOError(String),
    /// An HTTP response with a non-success status: url, status code, body.
    HttpError(String, u16, String),
}

/// Spec-level image of a `ScraperError`.
pub enum ScraperErrorV {
    JsonPathError(Seq<char>),
    JsonPathMatchError(Seq<char>),
    JsonDeserializeError(Seq<char>),
    CssSelectorError(Seq<char>),
    CssSelectorMatchError(Seq<char>),
    HtmlParseError(Seq<char>),
    XPathError(Seq<char>),
    IOError(Seq<char>),
    HttpError(Seq<char>, u16, Seq<char>),
}

impl View for ScraperError {
    type V = ScraperErrorV;

    open spec fn view(&self) -> ScraperErrorV {
        match self {
            ScraperError::JsonPathError(s) => ScraperErrorV::JsonPathError(s@),
            ScraperError::JsonPathMatchError(s) => ScraperErrorV::JsonPathMatchError(s@),
            ScraperError::JsonDeserializeError(s) => ScraperErrorV::JsonDeserializeError(s@),
            ScraperError::CssSelectorError(s) => ScraperErrorV::CssSelectorError(s@),
            ScraperError::CssSelectorMatchError(s) => ScraperErrorV::CssSelectorMatchError(s@),
            ScraperError::HtmlParseError(s) => ScraperErrorV::HtmlParseError(s@),
            ScraperError::XPathError(s) => ScraperErrorV::XPathError(s@),
            ScraperError::IOError(s) => ScraperErrorV::IOError(s@),
            ScraperError::HttpError(u, c, b) => ScraperErrorV::HttpError(u@, *c, b@),
        }
    }
}

/// Compile-time diagnostic from a derive planner or the template compiler;
/// each variant names the offending field or input.
#[derive(Debug, Clone, PartialEq, Eq)]
pub enum ConfigError {
    /// The derive was applied to something that is not a named struct.
    NotNamedStruct(String),
    /// A field has no identifier (a tuple struct).
    TupleField,
    /// More than one extraction mode was set on the named field.
    MultipleModes(String),
    /// A scalar field without a default value, named here.
    MissingDefault(String),
    /// A collection field without its own query path, named here.
    VectorWithoutPath(String),
    /// A container or field query path rejected by the selector parser.
    InvalidSelector(String),
    /// A request block that holds text but no well-formed request; the
    /// offending snippet is carried along.
    MalformedRequest(String),
}

/// Spec-level image of a `ConfigError`.
pub enum ConfigErrorV {
    NotNamedStruct(Seq<char>),
    TupleField,
    MultipleModes(Seq<char>),
    MissingDefault(Seq<char>),
    VectorWithoutPath(Seq<char>),
    InvalidSelector(Seq<char>),
    MalformedRequest(Seq<char>),
}

impl View for ConfigError {
    type V = ConfigErrorV;

    open spec fn view(&self) -> ConfigErrorV {
        match self {
            ConfigError::NotNamedStruct(s) => ConfigErrorV::NotNamedStruct(s@),
            ConfigError::TupleField => ConfigErrorV::TupleField,
            ConfigError::MultipleModes(s) => ConfigErrorV::MultipleModes(s@),
            ConfigError::MissingDefault(s) => ConfigErrorV::MissingDefault(s@),
            ConfigError::VectorWithoutPath(s) => ConfigErrorV::VectorWithoutPath(s@),
            ConfigError::InvalidSelector(s) => ConfigErrorV::InvalidSelector(s@),
            ConfigError::MalformedRequest(s) => ConfigErrorV::MalformedRequest(s@),
        }
    }
}

} // verus!
