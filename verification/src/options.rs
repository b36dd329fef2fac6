//! Run-wide configuration of a download batch.

use vstd::prelude::*;
use vstd::string::*;
use crate::error::{DownloadError, DownloadErrorView, ErrorKind};

verus! {

/// Policy that decides how track metadata maps to a relative output path.
#[derive(Debug, Clone, Copy, PartialEq, Eq, Structural)]
pub enum FolderStructure {
    /// One segment: artists and title.
    FLAT,
    /// Three segments: album artist, album, numbered title.
    ALBUM,
}

/// The upper-case form of a string as `str::to_uppercase` computes it.
pub uninterp spec fn uppercase(s: Seq<char>) -> Seq<char>;

/// The upper-case form of `s`.
///
/// Trusted: the body is `str::to_uppercase`. Its result follows the Unicode
/// case mappings, which are not restated here: the contract only names it,
/// as a function of the characters of `s`.
#[verifier::external_body]
fn to_uppercase(s: &str) -> (upper: String)
    ensures
        upper@ == uppercase(s@),
{
    s.to_uppercase()
}

/// The policy that an upper-case selector names, if any.
pub open spec fn structure_named(upper: Seq<char>) -> Option<FolderStructure> {
    if upper == "FLAT"@ {
        Some(FolderStructure::FLAT)
    } else if upper == "ALBUM"@ {
        Some(FolderStructure::ALBUM)
    } else {
        None
    }
}

/// The failure that rejects the selector `s`.
pub open spec fn unrecognized_structure(s: Seq<char>) -> DownloadErrorView {
    DownloadErrorView { kind: ErrorKind::Configuration, message: "Unrecognized structure: "@ + s }
}

impl FolderStructure {
    /// Number of path segments that a track name has under this policy.
    pub open spec fn segment_count(self) -> nat {
        match self {
            FolderStructure::FLAT => 1,
            FolderStructure::ALBUM => 3,
        }
    }

    /// The policy named by a selector that is already in upper case.
    pub fn from_uppercase(upper: &str) -> (found: Option<FolderStructure>)
        ensures
            found == structure_named(upper@),
    {
        let given = String::from_str(upper);
        if given == String::from_str("FLAT") {
            Some(FolderStructure::FLAT)
        } else if given == String::from_str("ALBUM") {
            Some(FolderStructure::ALBUM)
        } else {
            None
        }
    }

    /// Reads a policy selector, whatever its case. Any selector whose
    /// upper-case form is neither `FLAT` nor `ALBUM` is a configuration error
    /// that quotes the selector.
    pub fn parse(s: &str) -> (parsed: Result<FolderStructure, DownloadError>)
        ensures
            match structure_named(uppercase(s@)) {
                Some(structure) => parsed == Ok::<FolderStructure, DownloadError>(structure),
                None => parsed is Err && parsed->Err_0@ == unrecognized_structure(s@),
            },
    {
        let upper = to_uppercase(s);
        match FolderStructure::from_uppercase(upper.as_str()) {
            Some(structure) => Ok(structure),
            None => {
                let mut message = String::from_str("Unrecognized structure: ");
                message.append(s);
                Err(DownloadError::new(ErrorKind::Configuration, message))
            },
        }
    }
}

impl std::str::FromStr for FolderStructure {
    type Err = DownloadError;

    /// Reads a policy selector as [`FolderStructure::parse`] does.
    fn from_str(s: &str) -> (parsed: Result<Self, DownloadError>)
        ensures
            match structure_named(uppercase(s@)) {
                Some(structure) => parsed == Ok::<FolderStructure, DownloadError>(structure),
                None => parsed is Err && parsed->Err_0@ == unrecognized_structure(s@),
            },
    {
        FolderStructure::parse(s)
    }
}

/// Target audio container.
#[derive(Debug, Clone, Copy, PartialEq, Eq, Hash, Structural)]
pub enum Format {
    Flac,
    Mp3,
}

impl Format {
    /// The file extension of the format, without the dot.
    pub open spec fn extension_text(self) -> Seq<char> {
        match self {
            Format::Flac => "flac"@,
            Format::Mp3 => "mp3"@,
        }
    }

    /// The file extension of the format, without the dot.
    pub fn extension(&self) -> (ext: &'static str)
        ensures
            ext@ == self.extension_text(),
    {
        match self {
            Format::Flac => "flac",
            Format::Mp3 => "mp3",
        }
    }
}

/// Settings of one run, shared read-only by all its tracks.
#[derive(Debug, Clone)]
pub struct DownloadOptions {
    /// Root directory of the downloads and of the completion index. Where
    /// it is relative, it is taken from the working directory of the run.
    pub destination: String,
    pub compression: Option<u32>,
    /// How many tracks may be in flight at once; at least one.
    pub parallel: usize,
    pub format: Format,
    pub folder_structure: FolderStructure,
}

impl DownloadOptions {
    /// Whether a batch can run under these settings.
    pub open spec fn valid(&self) -> bool {
        self.parallel >= 1
    }

    /// The settings of a run that downloads below `destination`, or below
    /// the working directory where no destination is given.
    pub fn new(
        destination: Option<String>,
        working_directory: String,
        compression: Option<u32>,
        parallel: usize,
        format: Format,
        folder_structure: FolderStructure,
    ) -> (options: DownloadOptions)
        ensures
            options.destination@ == (match destination {
                Some(d) => d@,
                None => working_directory@,
            }),
            options.compression == compression,
            options.parallel == parallel,
            options.format == format,
            options.folder_structure == folder_structure,
    {
        let destination = match destination {
            Some(d) => d,
            None => working_directory,
        };
        DownloadOptions { destination, compression, parallel, format, folder_structure }
    }

    /// Decides [`DownloadOptions::valid`].
    pub fn is_valid(&self) -> (ok: bool)
        ensures
            ok == self.valid(),
    {
        self.parallel >= 1
    }
}

} // verus!
