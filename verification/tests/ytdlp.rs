use youtube_helper_rs::error::YoutubeHelperError;
use youtube_helper_rs::ytdlp::{binary_name, map_failure, spawn_error, validate_url, ProcessOutcome, BINARY_ENV_VAR};

fn failed_output_with_stderr(stderr: &str) -> ProcessOutcome {
    ProcessOutcome {
        success: false,
        status: "exit status: 1".to_string(),
        stdout: String::new(),
        stderr: stderr.to_string(),
    }
}

#[test]
fn map_failure_detects_unsupported_url_message() {
    let output = failed_output_with_stderr("ERROR: [generic] is not a valid URL");
    let err = map_failure("https://example.com/bad", &output);
    assert!(matches!(err, YoutubeHelperError::InvalidUrl { .. }));
}

#[test]
fn map_failure_defaults_to_command_failed() {
    let output = failed_output_with_stderr("ERROR: network unreachable");
    let err = map_failure("https://example.com/video", &output);
    assert!(matches!(err, YoutubeHelperError::CommandFailed { .. }));
}

#[test]
fn validate_url_accepts_http_and_https() {
    assert!(validate_url("http://example.com").is_ok());
    assert!(validate_url("https://example.com").is_ok());
}

#[test]
fn validate_url_rejects_empty_url() {
    match validate_url("") {
        Err(YoutubeHelperError::InvalidUrl { url, reason }) => {
            assert_eq!(url, "");
            assert_eq!(reason, "URL is empty");
        }
        other => panic!("unexpected: {:?}", other),
    }
}

#[test]
fn validate_url_rejects_whitespace_only_url() {
    match validate_url(" \t\u{3000}\n") {
        Err(YoutubeHelperError::InvalidUrl { reason, .. }) => assert_eq!(reason, "URL is empty"),
        other => panic!("unexpected: {:?}", other),
    }
}

#[test]
fn validate_url_rejects_url_without_scheme() {
    match validate_url("www.youtube.com/watch?v=abc") {
        Err(YoutubeHelperError::InvalidUrl { url, reason }) => {
            assert_eq!(url, "www.youtube.com/watch?v=abc");
            assert_eq!(reason, "URL must start with http:// or https://");
        }
        other => panic!("unexpected: {:?}", other),
    }
}

#[test]
fn validate_url_rejects_other_schemes_and_leading_space() {
    assert!(validate_url("ftp://example.com").is_err());
    assert!(validate_url("HTTP://example.com").is_err());
    assert!(validate_url(" https://example.com").is_err());
    assert!(validate_url("http:/example.com").is_err());
}

#[test]
fn validate_url_accepts_bare_scheme() {
    // The check only looks at the scheme.
    assert!(validate_url("http://").is_ok());
    assert!(validate_url("https://").is_ok());
}

#[test]
fn map_failure_detects_unsupported_url_and_keeps_stderr() {
    let stderr = "WARNING: x\nERROR: Unsupported URL: https://example.com/bad\n";
    let output = failed_output_with_stderr(stderr);
    match map_failure("https://example.com/bad", &output) {
        YoutubeHelperError::InvalidUrl { url, reason } => {
            assert_eq!(url, "https://example.com/bad");
            assert_eq!(reason, stderr);
        }
        other => panic!("unexpected: {:?}", other),
    }
}

#[test]
fn map_failure_keeps_status_and_stderr() {
    let output = failed_output_with_stderr("ERROR: network unreachable");
    match map_failure("https://example.com/video", &output) {
        YoutubeHelperError::CommandFailed { status, stderr } => {
            assert_eq!(status, "exit status: 1");
            assert_eq!(stderr, "ERROR: network unreachable");
        }
        other => panic!("unexpected: {:?}", other),
    }
}

#[test]
fn map_failure_marker_is_case_sensitive() {
    let output = failed_output_with_stderr("ERROR: unsupported url");
    let err = map_failure("https://example.com/video", &output);
    assert!(matches!(err, YoutubeHelperError::CommandFailed { .. }));
}

#[test]
fn binary_name_defaults_to_yt_dlp() {
    assert_eq!(binary_name(None), "yt-dlp");
    assert_eq!(binary_name(Some("/opt/bin/yt-dlp-fake".to_string())), "/opt/bin/yt-dlp-fake");
    assert_eq!(BINARY_ENV_VAR, "YOUTUBE_HELPER_YTDLP_BIN");
}

#[test]
fn spawn_error_distinguishes_missing_binary_from_other_io() {
    let missing = std::io::Error::new(std::io::ErrorKind::NotFound, "no such file");
    match spawn_error("yt-dlp-does-not-exist-anywhere".to_string(), true, missing) {
        YoutubeHelperError::BinaryNotFound { binary, source } => {
            assert_eq!(binary, "yt-dlp-does-not-exist-anywhere");
            assert_eq!(source.kind(), std::io::ErrorKind::NotFound);
        }
        other => panic!("unexpected: {:?}", other),
    }
    let denied = std::io::Error::new(std::io::ErrorKind::PermissionDenied, "is a directory");
    match spawn_error("/tmp".to_string(), false, denied) {
        YoutubeHelperError::Io(source) => {
            assert_eq!(source.kind(), std::io::ErrorKind::PermissionDenied)
        }
        other => panic!("unexpected: {:?}", other),
    }
}

#[test]
fn error_from_conversions() {
    let io = std::io::Error::new(std::io::ErrorKind::Other, "boom");
    assert!(matches!(YoutubeHelperError::from(io), YoutubeHelperError::Io(_)));
    let json = serde_json::from_str::<u32>("not json").unwrap_err();
    assert!(matches!(YoutubeHelperError::from(json), YoutubeHelperError::JsonParse(_)));
}
