//! Every fallible operation of this library ends in a [`YoutubeHelperError`],
//! one variant per way in which asking `yt-dlp` can go wrong: a missing
//! binary, an unsupported or invalid URL, a failure that `yt-dlp` itself
//! reports, JSON that does not parse, a missing output file, or file system
//! I/O. A caller branches on the variant, not on message text.

use vstd::prelude::*;

verus! {

/// `std::io::Error`, carried through unchanged.
#[verifier::external_type_specification]
#[verifier::external_body]
pub struct ExIoError(std::io::Error);

/// `serde_json::Error`, carried through unchanged.
#[verifier::external_type_specification]
#[verifier::external_body]
pub struct ExJsonError(serde_json::Error);

/// `std::path::PathBuf`, carried through unchanged.
#[verifier::external_type_specification]
#[verifier::external_body]
pub struct ExPathBuf(std::path::PathBuf);

/// Errors produced by this library.
#[derive(Debug)]
pub enum YoutubeHelperError {
    /// The `yt-dlp` binary could not be found or executed (e.g. not on `PATH`).
    BinaryNotFound { binary: String, source: std::io::Error },
    /// The URL is empty, malformed, or rejected by `yt-dlp` as unsupported
    /// before any network call could complete.
    InvalidUrl { url: String, reason: String },
    /// `yt-dlp` ran but failed for a reason other than an invalid URL
    /// (network failure, geo-blocking, removed video, rate limiting, ...).
    /// The raw stderr is kept so that the caller can decide how to react.
    CommandFailed { status: String, stderr: String },
    /// `yt-dlp --dump-json` succeeded but its output is not the expected JSON.
    JsonParse(serde_json::Error),
    /// `yt-dlp` reported success but the expected output file is not there.
    OutputFileNotFound { directory: std::path::PathBuf },
    /// Any other I/O failure (creating the output directory, ...).
    Io(std::io::Error),
}

/// The result type of this library's fallible operations.
pub type Result<T> = std::result::Result<T, YoutubeHelperError>;

/// `e` is `InvalidUrl` for `url`, with the given reason.
pub open spec fn is_invalid_url(e: YoutubeHelperError, url: Seq<char>, reason: Seq<char>) -> bool {
    e matches YoutubeHelperError::InvalidUrl { url: u, reason: r } && u@ == url && r@ == reason
}

/// `e` is `CommandFailed` with the given status text and stderr.
pub open spec fn is_command_failed(
    e: YoutubeHelperError,
    status: Seq<char>,
    stderr: Seq<char>,
) -> bool {
    e matches YoutubeHelperError::CommandFailed { status: st, stderr: er } && st@ == status && er@
        == stderr
}

impl From<serde_json::Error> for YoutubeHelperError {
    fn from(e: serde_json::Error) -> (r: Self) {
        YoutubeHelperError::JsonParse(e)
    }
}

impl vstd::std_specs::convert::FromSpecImpl<serde_json::Error> for YoutubeHelperError {
    open spec fn obeys_from_spec() -> bool {
        true
    }

    open spec fn from_spec(e: serde_json::Error) -> Self {
        YoutubeHelperError::JsonParse(e)
    }
}

impl From<std::io::Error> for YoutubeHelperError {
    fn from(e: std::io::Error) -> (r: Self) {
        YoutubeHelperError::Io(e)
    }
}

impl vstd::std_specs::convert::FromSpecImpl<std::io::Error> for YoutubeHelperError {
    open spec fn obeys_from_spec() -> bool {
        true
    }

    open spec fn from_spec(e: std::io::Error) -> Self {
        YoutubeHelperError::Io(e)
    }
}

} // verus!
