//! The error taxonomy of the pipeline. Any single failure aborts the whole
//! build; every error names what went wrong and, where it applies, the
//! offending key or feed URL.

use vstd::prelude::*;

verus! {

/// Which of the three expected leading token-stream events was violated,
/// or whether the captured metadata text failed to parse as a table.
#[derive(Debug, PartialEq, Eq, Structural)]
pub enum FrontMatterIssue {
    /// The stream did not begin with a start-of-metadata-block marker.
    NoStart,
    /// The metadata block did not contain a single text event.
    NoText,
    /// The metadata block was not closed by an end marker.
    NoEnd,
    /// The captured text is not a valid structured table.
    BadTable,
}

/// One failure of the content pipeline.
#[derive(Debug)]
pub enum SiteError {
    /// A source filename does not match `[YYYY-MM-DD-]<name>.md`.
    InvalidSlug,
    /// The document does not begin with a well-formed metadata block.
    MalformedFrontMatter(FrontMatterIssue),
    /// A required metadata key is absent.
    MissingField(String),
    /// Fetching or parsing one syndication feed failed; carries the URL.
    FeedFetch(String),
}

impl SiteError {
    /// A human-readable description, used by the binary for its error report.
    pub fn message(&self) -> (r: String)
        ensures
            r@ == match *self {
                SiteError::InvalidSlug => "invalid slug"@,
                SiteError::MalformedFrontMatter(issue) => match issue {
                    FrontMatterIssue::NoStart => "expected a metadata block to start"@,
                    FrontMatterIssue::NoText => "expected metadata block containing text"@,
                    FrontMatterIssue::NoEnd => "expected the end of a metadata block"@,
                    FrontMatterIssue::BadTable => "invalid post metadata"@,
                },
                SiteError::MissingField(key) => "missing "@ + key@,
                SiteError::FeedFetch(url) => "failed to fetch feed "@ + url@,
            },
    {
        match self {
            SiteError::InvalidSlug => "invalid slug".to_owned(),
            SiteError::MalformedFrontMatter(issue) => match issue {
                FrontMatterIssue::NoStart => "expected a metadata block to start".to_owned(),
                FrontMatterIssue::NoText => "expected metadata block containing text".to_owned(),
                FrontMatterIssue::NoEnd => "expected the end of a metadata block".to_owned(),
                FrontMatterIssue::BadTable => "invalid post metadata".to_owned(),
            },
            SiteError::MissingField(key) => "missing ".to_owned().concat(key.as_str()),
            SiteError::FeedFetch(url) => "failed to fetch feed ".to_owned().concat(url.as_str()),
        }
    }
}

} // verus!
