use youtube_helper_rs::metadata::{metadata_args, metadata_json_line};
use youtube_helper_rs::ytdlp::ProcessOutcome;
use youtube_helper_rs::YoutubeHelperError;

fn outcome(success: bool, stdout: &str, stderr: &str) -> ProcessOutcome {
    ProcessOutcome {
        success,
        status: if success { "exit status: 0" } else { "exit status: 1" }.to_string(),
        stdout: stdout.to_string(),
        stderr: stderr.to_string(),
    }
}

#[test]
fn metadata_args_dump_json_for_one_video() {
    let args = metadata_args("https://example.com/video");
    assert_eq!(
        args,
        vec!["--dump-json", "--no-playlist", "--no-warnings", "https://example.com/video"]
    );
}

#[test]
fn metadata_json_line_maps_generic_failure_to_command_failed() {
    let out = outcome(false, "", "ERROR: rate limited\n");
    match metadata_json_line("https://example.com/video", &out) {
        Err(YoutubeHelperError::CommandFailed { status, stderr }) => {
            assert_eq!(status, "exit status: 1");
            assert_eq!(stderr, "ERROR: rate limited\n");
        }
        other => panic!("unexpected: {:?}", other),
    }
}

#[test]
fn metadata_json_line_maps_unsupported_url_to_invalid_url() {
    let out = outcome(false, "", "ERROR: Unsupported URL: https://example.com/x\n");
    let r = metadata_json_line("https://example.com/x", &out);
    assert!(matches!(r, Err(YoutubeHelperError::InvalidUrl { .. })));
}

#[test]
fn metadata_json_line_errors_when_ytdlp_prints_no_json() {
    let out = outcome(true, "", "");
    match metadata_json_line("https://example.com/video", &out) {
        Err(YoutubeHelperError::CommandFailed { status, stderr }) => {
            assert_eq!(status, "exit status: 0");
            assert_eq!(stderr, "yt-dlp produced no JSON output on stdout");
        }
        other => panic!("unexpected: {:?}", other),
    }
    let blank = outcome(true, "\n  \r\n\t\n", "");
    assert!(matches!(
        metadata_json_line("https://example.com/video", &blank),
        Err(YoutubeHelperError::CommandFailed { .. })
    ));
}

#[test]
fn metadata_json_line_takes_the_first_nonblank_line() {
    let json = r#"{"id":"abc123","title":"Fake Title","duration":42.0,"uploader":"Someone"}"#;
    let out = outcome(true, &format!("\n   \n{}\r\nWARNING: later\n", json), "");
    let line = metadata_json_line("https://example.com/video", &out).expect("a JSON line");
    assert_eq!(line, json);
    let value: serde_json::Value = serde_json::from_str(&line).unwrap();
    assert_eq!(value["id"], "abc123");
    assert_eq!(value["title"], "Fake Title");
    assert_eq!(value["uploader"], "Someone");
}

#[test]
fn metadata_json_line_keeps_inner_whitespace_and_bare_carriage_return() {
    let out = outcome(true, "  {\"a\": 1} \rx\n", "");
    let line = metadata_json_line("https://example.com/video", &out).unwrap();
    assert_eq!(line, "  {\"a\": 1} \rx");
    let out = outcome(true, "{}\r", "");
    assert_eq!(metadata_json_line("https://example.com/video", &out).unwrap(), "{}\r");
}

#[test]
fn metadata_json_line_is_unchanged_by_a_final_line_ending() {
    let a = outcome(true, "{}\nmore", "");
    let b = outcome(true, "{}\nmore\n", "");
    let u = "https://example.com/video";
    assert_eq!(metadata_json_line(u, &a).unwrap(), metadata_json_line(u, &b).unwrap());
}

#[test]
fn metadata_json_line_is_unchanged_by_later_output() {
    let u = "https://example.com/video";
    let a = outcome(true, "\n{\"id\":\"x\"}\n", "");
    let b = outcome(true, "\n{\"id\":\"x\"}\nWARNING: something\n{\"id\":\"y\"}", "");
    assert_eq!(metadata_json_line(u, &a).unwrap(), metadata_json_line(u, &b).unwrap());
}
