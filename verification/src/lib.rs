//! A typed wrapper around the `yt-dlp` command-line program: the library
//! decides what to ask `yt-dlp` for and what its answer means; running the
//! process and touching the file system is left to the caller.

pub mod text;
pub mod error;
pub mod ytdlp;
pub mod metadata;
pub mod download;

pub use download::{download_args, printed_output_path, require_existing_file, OUTPUT_TEMPLATE};
pub use error::{Result, YoutubeHelperError};
pub use metadata::{metadata_args, metadata_json_line};
pub use ytdlp::{binary_name, map_failure, spawn_error, validate_url, ProcessOutcome, BINARY_ENV_VAR};
