//! What every `yt-dlp` invocation shares: which binary to run, the check on
//! a URL before anything is spawned, and what a failed run means.

use vstd::prelude::*;
use crate::error::{YoutubeHelperError, is_invalid_url, is_command_failed};
use crate::text::{chars_of, is_blank, is_white_space, is_blank_range, has_infix, str_contains, str_starts_with};

verus! {

/// The environment variable that names the `yt-dlp` binary to run in place
/// of the one on `PATH`.
pub const BINARY_ENV_VAR: &'static str = "YOUTUBE_HELPER_YTDLP_BIN";

/// What a finished `yt-dlp` run left behind: whether it exited successfully,
/// its exit status as text, and its stdout and stderr decoded as text.
pub struct ProcessOutcome {
    pub success: bool,
    pub status: String,
    pub stdout: String,
    pub stderr: String,
}

/// The binary to run: the configured one if there is one, else `yt-dlp`.
pub open spec fn binary_for(configured: Option<Seq<char>>) -> Seq<char> {
    match configured {
        Some(b) => b,
        None => "yt-dlp"@,
    }
}

/// The name (or path) of the `yt-dlp` binary to run, given the value of
/// [`BINARY_ENV_VAR`] if it is set (and valid Unicode).
pub fn binary_name(configured: Option<String>) -> (r: String)
    ensures
        r@ == binary_for(crate::text::opt_view(configured)),
        configured matches Some(b) ==> r@ == b@,
        configured is None ==> r@ == "yt-dlp"@,
{
    match configured {
        Some(b) => b,
        None => "yt-dlp".to_owned(),
    }
}

/// The URL begins with `http://` or `https://`.
pub open spec fn has_http_scheme(url: Seq<char>) -> bool {
    "http://"@.is_prefix_of(url) || "https://"@.is_prefix_of(url)
}

/// Why `url` is refused before any process is spawned, if it is.
pub open spec fn url_rejection(url: Seq<char>) -> Option<Seq<char>> {
    if is_blank(url) {
        Some("URL is empty"@)
    } else if !has_http_scheme(url) {
        Some("URL must start with http:// or https://"@)
    } else {
        None
    }
}

/// Rejects obviously invalid URLs (blank, or without an `http://` or
/// `https://` scheme) before a process is ever spawned.
pub fn validate_url(url: &str) -> (r: Result<(), YoutubeHelperError>)
    ensures
        match r {
            Ok(()) => url_rejection(url@) is None,
            Err(e) => url_rejection(url@) matches Some(reason) && is_invalid_url(e, url@, reason),
        },
        ("http://"@.is_prefix_of(url@) || "https://"@.is_prefix_of(url@)) ==> r is Ok,
        r is Ok ==> ("http://"@.is_prefix_of(url@) || "https://"@.is_prefix_of(url@)),
        r matches Err(e) ==> (e matches YoutubeHelperError::InvalidUrl { url: u, .. } && u@ == url@),
        (forall|i: int| 0 <= i < url@.len() ==> is_white_space(#[trigger] url@[i])) ==> (r matches Err(
            YoutubeHelperError::InvalidUrl { reason, .. },
        ) && reason@ == "URL is empty"@),
        ((exists|i: int| 0 <= i < url@.len() && !is_white_space(#[trigger] url@[i])) && !(
        "http://"@.is_prefix_of(url@) || "https://"@.is_prefix_of(url@))) ==> (r matches Err(
            YoutubeHelperError::InvalidUrl { reason, .. },
        ) && reason@ == "URL must start with http:// or https://"@),
{
    proof {
        url_accepted_iff_http_scheme(url@);
    }
    let v = chars_of(url);
    assert(v@.subrange(0, v.len() as int) =~= url@);
    if is_blank_range(&v, 0, v.len()) {
        return Err(
            YoutubeHelperError::InvalidUrl {
                url: url.to_owned(),
                reason: "URL is empty".to_owned(),
            },
        );
    }
    if !(str_starts_with(url, "http://") || str_starts_with(url, "https://")) {
        return Err(
            YoutubeHelperError::InvalidUrl {
                url: url.to_owned(),
                reason: "URL must start with http:// or https://".to_owned(),
            },
        );
    }
    Ok(())
}

/// The error for a failure to spawn `binary`: `BinaryNotFound` when the
/// operating system reported that it was not found, `Io` otherwise.
pub fn spawn_error(binary: String, not_found: bool, source: std::io::Error) -> (r:
    YoutubeHelperError)
    ensures
        not_found ==> r == (YoutubeHelperError::BinaryNotFound { binary, source }),
        !not_found ==> r == YoutubeHelperError::Io(source),
{
    if not_found {
        YoutubeHelperError::BinaryNotFound { binary, source }
    } else {
        YoutubeHelperError::Io(source)
    }
}

/// `yt-dlp`'s stderr says that it does not accept the URL.
pub open spec fn reports_invalid_url(stderr: Seq<char>) -> bool {
    has_infix(stderr, "Unsupported URL"@) || has_infix(stderr, "is not a valid URL"@)
}

/// `e` is the error that a failed run reports: `InvalidUrl` with the whole
/// stderr as reason when stderr says that the URL is not accepted,
/// `CommandFailed` with the status and the whole stderr otherwise.
pub open spec fn is_failure_report(
    e: YoutubeHelperError,
    url: Seq<char>,
    status: Seq<char>,
    stderr: Seq<char>,
) -> bool {
    if reports_invalid_url(stderr) {
        is_invalid_url(e, url, stderr)
    } else {
        is_command_failed(e, status, stderr)
    }
}

/// The error for a `yt-dlp` run on `url` that exited unsuccessfully.
pub fn map_failure(url: &str, outcome: &ProcessOutcome) -> (r: YoutubeHelperError)
    ensures
        is_failure_report(r, url@, outcome.status@, outcome.stderr@),
        !(exists|i: int| 0 <= i && i + "Unsupported URL"@.len() <= outcome.stderr@.len() && #[trigger] outcome.stderr@.subrange(i, i + "Unsupported URL"@.len()) == "Unsupported URL"@) && !(exists|i: int| 0 <= i && i + "is not a valid URL"@.len() <= outcome.stderr@.len() && #[trigger] outcome.stderr@.subrange(i, i + "is not a valid URL"@.len()) == "is not a valid URL"@) ==> (r matches YoutubeHelperError::CommandFailed {
            status,
            stderr,
        } && status@ == outcome.status@ && stderr@ == outcome.stderr@),
        r is InvalidUrl ==> (exists|i: int| 0 <= i && i + "Unsupported URL"@.len() <= outcome.stderr@.len() && #[trigger] outcome.stderr@.subrange(i, i + "Unsupported URL"@.len()) == "Unsupported URL"@) || (exists|i: int| 0 <= i && i + "is not a valid URL"@.len() <= outcome.stderr@.len() && #[trigger] outcome.stderr@.subrange(i, i + "is not a valid URL"@.len()) == "is not a valid URL"@),
{
    let stderr = outcome.stderr.clone();
    let r = if str_contains(stderr.as_str(), "Unsupported URL") || str_contains(
        stderr.as_str(),
        "is not a valid URL",
    ) {
        YoutubeHelperError::InvalidUrl { url: url.to_owned(), reason: stderr }
    } else {
        YoutubeHelperError::CommandFailed { status: outcome.status.clone(), stderr }
    };
    proof {
        if !reports_invalid_url(outcome.stderr@) {
            failure_without_marker_is_command_failed(r, url@, outcome.status@, outcome.stderr@);
        }
        if r is InvalidUrl {
            invalid_url_only_with_marker(r, url@, outcome.status@, outcome.stderr@);
        }
    }
    r
}

/// A failed run whose stderr contains neither `Unsupported URL` nor
/// `is not a valid URL` is reported as `CommandFailed`, with the run's status
/// and its whole stderr.
pub proof fn failure_without_marker_is_command_failed(
    e: YoutubeHelperError,
    url: Seq<char>,
    status: Seq<char>,
    stderr: Seq<char>,
)
    requires
        is_failure_report(e, url, status, stderr),
        !(exists|i: int| 0 <= i && i + "Unsupported URL"@.len() <= stderr.len() && #[trigger] stderr.subrange(i, i + "Unsupported URL"@.len()) == "Unsupported URL"@),
        !(exists|i: int| 0 <= i && i + "is not a valid URL"@.len() <= stderr.len() && #[trigger] stderr.subrange(i, i + "is not a valid URL"@.len()) == "is not a valid URL"@),
    ensures
        e matches YoutubeHelperError::CommandFailed { status: st, stderr: er } && st@ == status
            && er@ == stderr,
{
}

/// A failed run is reported as `InvalidUrl` only when its stderr contains
/// `Unsupported URL` or `is not a valid URL`; the reason is then the whole
/// stderr and the URL the one that was asked for.
pub proof fn invalid_url_only_with_marker(
    e: YoutubeHelperError,
    url: Seq<char>,
    status: Seq<char>,
    stderr: Seq<char>,
)
    requires
        is_failure_report(e, url, status, stderr),
        e is InvalidUrl,
    ensures
        (exists|i: int| 0 <= i && i + "Unsupported URL"@.len() <= stderr.len() && #[trigger] stderr.subrange(i, i + "Unsupported URL"@.len()) == "Unsupported URL"@) || (exists|i: int| 0 <= i && i + "is not a valid URL"@.len() <= stderr.len() && #[trigger] stderr.subrange(i, i + "is not a valid URL"@.len()) == "is not a valid URL"@),
        e matches YoutubeHelperError::InvalidUrl { url: u, reason: r } && u@ == url && r@ == stderr,
{
}

/// Every URL that begins with `http://` or `https://` passes the check made
/// before spawning, whatever follows the scheme.
pub proof fn http_urls_are_accepted(url: Seq<char>)
    requires
        (url.len() >= 7 && url.subrange(0, 7) == "http://"@) || (url.len() >= 8 && url.subrange(0, 8)
            == "https://"@),
    ensures
        url_rejection(url) is None,
{
    reveal_strlit("http://");
    reveal_strlit("https://");
    url_accepted_iff_http_scheme(url);
}

/// The binary run is the configured one, whatever it is, and `yt-dlp` when
/// none is configured.
pub proof fn configured_binary_is_run(b: Seq<char>)
    ensures
        binary_for(Some(b)) == b,
        binary_for(None) == "yt-dlp"@,
{
}

/// A URL passes the check before spawning exactly when it begins with
/// `http://` or `https://`: such a URL is never blank, so the check for an
/// empty URL only chooses the reason given.
pub proof fn url_accepted_iff_http_scheme(url: Seq<char>)
    ensures
        url_rejection(url) is None <==> has_http_scheme(url),
{
    reveal_strlit("http://");
    reveal_strlit("https://");
    if has_http_scheme(url) {
        if "http://"@.is_prefix_of(url) {
            assert(url[0] == "http://"@[0]);
        } else {
            assert(url[0] == "https://"@[0]);
        }
        assert(!is_white_space(url[0]));
    }
}

} // verus!
