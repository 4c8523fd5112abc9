//! Errors returned by the HLS/LL-HLS client.

use vstd::prelude::*;

use vstd::string::StringExecFns;

verus! {

/// Errors that can occur while parsing or processing HLS playlists.
#[derive(Debug, Clone, PartialEq, Eq)]
pub enum HlsError {
    /// Missing `#EXTM3U` magic.
    MissingExtM3u,
    /// Malformed line or tag.
    Malformed { line: u32, context: String },
    /// An attribute value could not be parsed as the expected type.
    InvalidAttribute { tag: String, key: String, value: String },
    /// A playlist limit was exceeded.
    LimitExceeded { limit: &'static str },
    /// An unsupported HLS version or feature.
    Unsupported { feature: String },
    /// A required tag is missing.
    MissingTag { tag: String },
    /// UTF-8 decoding failed.
    Utf8Error,
    /// A seek target lies outside the playlist.
    SeekOutOfRange,
}

/// An `HlsError` with its strings taken as characters.
pub enum HlsErrorView {
    MissingExtM3u,
    Malformed { line: u32, context: Seq<char> },
    InvalidAttribute { tag: Seq<char>, key: Seq<char>, value: Seq<char> },
    LimitExceeded { limit: Seq<char> },
    Unsupported { feature: Seq<char> },
    MissingTag { tag: Seq<char> },
    Utf8Error,
    SeekOutOfRange,
}

impl View for HlsError {
    type V = HlsErrorView;

    open spec fn view(&self) -> HlsErrorView {
        match self {
            HlsError::MissingExtM3u => HlsErrorView::MissingExtM3u,
            HlsError::Malformed { line, context } => HlsErrorView::Malformed {
                line: *line,
                context: context@,
            },
            HlsError::InvalidAttribute { tag, key, value } => HlsErrorView::InvalidAttribute {
                tag: tag@,
                key: key@,
                value: value@,
            },
            HlsError::LimitExceeded { limit } => HlsErrorView::LimitExceeded { limit: limit@ },
            HlsError::Unsupported { feature } => HlsErrorView::Unsupported { feature: feature@ },
            HlsError::MissingTag { tag } => HlsErrorView::MissingTag { tag: tag@ },
            HlsError::Utf8Error => HlsErrorView::Utf8Error,
            HlsError::SeekOutOfRange => HlsErrorView::SeekOutOfRange,
        }
    }
}

impl HlsError {
    /// A `Malformed` error at `line`.
    pub fn malformed(line: u32, context: &str) -> (e: Self)
        ensures
            e@ == (HlsErrorView::Malformed { line, context: context@ }),
    {
        HlsError::Malformed { line, context: String::from_str(context) }
    }

    /// An `InvalidAttribute` error.
    pub fn invalid_attr(tag: &str, key: &str, value: &str) -> (e: Self)
        ensures
            e@ == (HlsErrorView::InvalidAttribute { tag: tag@, key: key@, value: value@ }),
    {
        HlsError::InvalidAttribute {
            tag: String::from_str(tag),
            key: String::from_str(key),
            value: String::from_str(value),
        }
    }

    /// A copy of the error.
    pub fn copy(&self) -> (e: Self)
        ensures
            e == *self,
    {
        match self {
            HlsError::MissingExtM3u => HlsError::MissingExtM3u,
            HlsError::Malformed { line, context } => HlsError::Malformed {
                line: *line,
                context: context.clone(),
            },
            HlsError::InvalidAttribute { tag, key, value } => HlsError::InvalidAttribute {
                tag: tag.clone(),
                key: key.clone(),
                value: value.clone(),
            },
            HlsError::LimitExceeded { limit } => HlsError::LimitExceeded { limit: *limit },
            HlsError::Unsupported { feature } => HlsError::Unsupported { feature: feature.clone() },
            HlsError::MissingTag { tag } => HlsError::MissingTag { tag: tag.clone() },
            HlsError::Utf8Error => HlsError::Utf8Error,
            HlsError::SeekOutOfRange => HlsError::SeekOutOfRange,
        }
    }

    /// A `MissingTag` error.
    pub fn missing_tag(tag: &str) -> (e: Self)
        ensures
            e@ == (HlsErrorView::MissingTag { tag: tag@ }),
    {
        HlsError::MissingTag { tag: String::from_str(tag) }
    }
}

} // verus!
