//! The failures of a download, each scoped to the track that produced it.

use vstd::prelude::*;
use vstd::string::*;

verus! {

/// What went wrong.
#[derive(Debug, Clone, Copy, PartialEq, Eq, Hash, Structural)]
pub enum ErrorKind {
    /// A setting that cannot be used, such as an unknown folder structure.
    Configuration,
    /// The metadata of the track could not be retrieved.
    MetadataFetch,
    /// The audio source failed, or its channel closed before it finished.
    Streaming,
    /// The encoder rejected the samples.
    Encoding,
    /// A file, a directory or an index entry could not be written or removed.
    Io,
    /// The track has no cover reference and the output needs one.
    MissingCoverArt,
}

/// A failure with its cause in words.
#[derive(Debug, Clone, PartialEq, Eq)]
pub struct DownloadError {
    pub kind: ErrorKind,
    pub message: String,
}

/// Mathematical model of [`DownloadError`].
pub struct DownloadErrorView {
    pub kind: ErrorKind,
    pub message: Seq<char>,
}

impl View for DownloadError {
    type V = DownloadErrorView;

    open spec fn view(&self) -> DownloadErrorView {
        DownloadErrorView { kind: self.kind, message: self.message@ }
    }
}

/// Model of an optional failure.
pub open spec fn error_view(error: Option<DownloadError>) -> Option<DownloadErrorView> {
    match error {
        Some(e) => Some(e@),
        None => None,
    }
}

/// Model of the outcome of one track or of a batch.
pub open spec fn outcome_view(outcome: Result<(), DownloadError>) -> Result<(), DownloadErrorView> {
    match outcome {
        Ok(_) => Ok(()),
        Err(e) => Err(e@),
    }
}

/// The failure of a track without cover reference.
pub open spec fn missing_cover_art() -> DownloadErrorView {
    DownloadErrorView { kind: ErrorKind::MissingCoverArt, message: "No cover art!"@ }
}

/// The failure of a stream whose channel closed before its terminal message.
pub open spec fn closed_before_finished() -> DownloadErrorView {
    DownloadErrorView {
        kind: ErrorKind::Streaming,
        message: "Channel closed before the stream finished"@,
    }
}

/// The failure of a track whose output would not have an absolute path.
pub open spec fn relative_destination() -> DownloadErrorView {
    DownloadErrorView {
        kind: ErrorKind::Configuration,
        message: "Could not set the output path"@,
    }
}

impl DownloadError {
    /// A failure of the given kind.
    pub fn new(kind: ErrorKind, message: String) -> (e: DownloadError)
        ensures
            e@ == (DownloadErrorView { kind, message: message@ }),
    {
        DownloadError { kind, message }
    }

    /// The failure of a track without cover reference.
    pub fn missing_cover_art() -> (e: DownloadError)
        ensures
            e@ == missing_cover_art(),
    {
        DownloadError { kind: ErrorKind::MissingCoverArt, message: String::from_str("No cover art!") }
    }

    /// The failure of a stream whose channel closed before its terminal message.
    pub fn closed_before_finished() -> (e: DownloadError)
        ensures
            e@ == closed_before_finished(),
    {
        DownloadError {
            kind: ErrorKind::Streaming,
            message: String::from_str("Channel closed before the stream finished"),
        }
    }

    /// The failure of a track whose output would not have an absolute path.
    pub fn relative_destination() -> (e: DownloadError)
        ensures
            e@ == relative_destination(),
    {
        DownloadError {
            kind: ErrorKind::Configuration,
            message: String::from_str("Could not set the output path"),
        }
    }

    /// A copy of this failure.
    pub fn duplicate(&self) -> (e: DownloadError)
        ensures
            e@ == self@,
    {
        DownloadError { kind: self.kind, message: self.message.clone() }
    }

    /// The cause in words.
    pub fn to_text(&self) -> (text: String)
        ensures
            text@ == self@.message,
    {
        self.message.clone()
    }
}

} // verus!
