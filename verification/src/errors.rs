//! The failure taxonomy shared by every step of the extraction pipeline.

use vstd::prelude::*;

verus! {

/// A typed extraction failure. Every fallible step of the pipeline reports
/// exactly one of these kinds; all diagnostic text is owned, so an error can
/// outlive the fetch or document that produced it.
#[derive(Debug, Clone, PartialEq, Eq)]
pub enum ScrapingError {
    /// The outbound request failed or returned a non-success status;
    /// carries the request URL.
    FetchError { url: String },
    /// The response body could not be decoded as text.
    DecodeError,
    /// A structural query failed to compile; a configuration bug,
    /// not a page condition.
    InvalidQuery,
    /// A required structural query matched nothing in the current
    /// document or card.
    MissingElement,
    /// Text was found but could not be parsed into the expected type;
    /// carries the offending raw text.
    TextParseError { text: String },
}

impl ScrapingError {
    /// The human-readable description of this error.
    pub open spec fn spec_message(&self) -> Seq<char> {
        match self {
            ScrapingError::FetchError { url } => "Failed to get a response at "@ + url@,
            ScrapingError::DecodeError => "Failed to decode the response body as text"@,
            ScrapingError::InvalidQuery => "Failed to parse a dom selector"@,
            ScrapingError::MissingElement => "A dom element wasn't found"@,
            ScrapingError::TextParseError { text } => "Failed to parse a dom element's text node: "@
                + text@,
        }
    }

    /// Renders the error as display text for diagnostics.
    pub fn message(&self) -> (m: String)
        ensures
            m@ == self.spec_message(),
    {
        match self {
            ScrapingError::FetchError { url } => {
                let m = String::from_str("Failed to get a response at ");
                m.concat(url.as_str())
            },
            ScrapingError::DecodeError => String::from_str(
                "Failed to decode the response body as text",
            ),
            ScrapingError::InvalidQuery => String::from_str("Failed to parse a dom selector"),
            ScrapingError::MissingElement => String::from_str("A dom element wasn't found"),
            ScrapingError::TextParseError { text } => {
                let m = String::from_str("Failed to parse a dom element's text node: ");
                m.concat(text.as_str())
            },
        }
    }
}

} // verus!
