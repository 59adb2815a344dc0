use std::path::PathBuf;
use youtube_helper_rs::download::{download_args, printed_output_path, require_existing_file, OUTPUT_TEMPLATE};
use youtube_helper_rs::ytdlp::ProcessOutcome;
use youtube_helper_rs::YoutubeHelperError;

fn outcome(success: bool, stdout: &str, stderr: &str) -> ProcessOutcome {
    ProcessOutcome {
        success,
        status: if success { "exit status: 0" } else { "exit status: 1" }.to_string(),
        stdout: stdout.to_string(),
        stderr: stderr.to_string(),
    }
}

#[test]
fn download_args_extract_wav_and_print_final_path() {
    assert_eq!(OUTPUT_TEMPLATE, "%(id)s.%(ext)s");
    let args = download_args("https://example.com/video", "/out/%(id)s.%(ext)s");
    assert_eq!(
        args,
        vec![
            "-x",
            "--audio-format",
            "wav",
            "--no-playlist",
            "--no-warnings",
            "--print",
            "after_move:filepath",
            "-o",
            "/out/%(id)s.%(ext)s",
            "https://example.com/video",
        ]
    );
}

#[test]
fn printed_output_path_maps_generic_failure_to_command_failed() {
    let out = outcome(false, "", "ERROR: network unreachable\n");
    let r = printed_output_path("https://example.com/video", &out, PathBuf::from("/out"));
    assert!(matches!(r, Err(YoutubeHelperError::CommandFailed { .. })));
}

#[test]
fn printed_output_path_errors_when_ytdlp_prints_no_path() {
    let out = outcome(true, "", "");
    match printed_output_path("https://example.com/video", &out, PathBuf::from("/out")) {
        Err(YoutubeHelperError::OutputFileNotFound { directory }) => {
            assert_eq!(directory, PathBuf::from("/out"))
        }
        other => panic!("unexpected: {:?}", other),
    }
    let blank = outcome(true, " \n\t\r\n", "");
    assert!(matches!(
        printed_output_path("https://example.com/video", &blank, PathBuf::from("/out")),
        Err(YoutubeHelperError::OutputFileNotFound { .. })
    ));
}

#[test]
fn printed_output_path_takes_the_last_printed_line_trimmed() {
    let out = outcome(true, "/out/first.wav\n  /out/fake.wav \r\n\n  \n", "");
    let p = printed_output_path("https://example.com/video", &out, PathBuf::from("/out")).unwrap();
    assert_eq!(p, "/out/fake.wav");
}

#[test]
fn printed_output_path_is_unchanged_by_a_final_line_ending() {
    let u = "https://example.com/video";
    let a = outcome(true, "/out/a.wav\r", "");
    let b = outcome(true, "/out/a.wav\r\n", "");
    let pa = printed_output_path(u, &a, PathBuf::from("/out")).unwrap();
    let pb = printed_output_path(u, &b, PathBuf::from("/out")).unwrap();
    assert_eq!(pa, pb);
    assert_eq!(pa, "/out/a.wav");
}

#[test]
fn require_existing_file_keeps_only_existing_files() {
    assert_eq!(
        require_existing_file("/out/fake.wav".to_string(), true, PathBuf::from("/out")).unwrap(),
        "/out/fake.wav"
    );
    match require_existing_file("/out/ghost.wav".to_string(), false, PathBuf::from("/out")) {
        Err(YoutubeHelperError::OutputFileNotFound { directory }) => {
            assert_eq!(directory, PathBuf::from("/out"))
        }
        other => panic!("unexpected: {:?}", other),
    }
}
