//! Audio download through `yt-dlp -x --audio-format wav`: what to run, and
//! which file the run reports to have produced.

use vstd::prelude::*;
use crate::error::YoutubeHelperError;
use crate::metadata::args_view;
use crate::text::{
    is_blank,
    lemma_blank_iff_trim_empty,
    is_white_space,
    last_nonempty_trimmed,
    lemma_last_nonempty_index,
    lemma_lines_one_line,
    lemma_trim_bounds,
    lemma_trim_end_at,
    lemma_trim_start_at,
    last_nonempty_trimmed_line,
    lemma_last_nonempty_append_blank,
    lemma_lines_append,
    lemma_lines_of_blank,
    lemma_trim_drop_last_white,
    lines,
    split_lines,
    strip_cr,
    trim,
};
use crate::ytdlp::{ProcessOutcome, is_failure_report, map_failure};

verus! {

/// The output file name template, joined to the output directory by the
/// caller: the video id and the extension.
pub const OUTPUT_TEMPLATE: &'static str = "%(id)s.%(ext)s";

/// The arguments of `yt-dlp` that extract the audio of `url` as WAV into the
/// output path `template` and print the final file path once post-processing
/// is done.
pub fn download_args(url: &str, template: &str) -> (args: Vec<String>)
    ensures
        args_view(args@) == seq![
            "-x"@,
            "--audio-format"@,
            "wav"@,
            "--no-playlist"@,
            "--no-warnings"@,
            "--print"@,
            "after_move:filepath"@,
            "-o"@,
            template@,
            url@,
        ],
{
    let mut args: Vec<String> = Vec::new();
    args.push("-x".to_owned());
    args.push("--audio-format".to_owned());
    args.push("wav".to_owned());
    args.push("--no-playlist".to_owned());
    args.push("--no-warnings".to_owned());
    args.push("--print".to_owned());
    args.push("after_move:filepath".to_owned());
    args.push("-o".to_owned());
    args.push(template.to_owned());
    args.push(url.to_owned());
    assert(args_view(args@) =~= seq![
        "-x"@,
        "--audio-format"@,
        "wav"@,
        "--no-playlist"@,
        "--no-warnings"@,
        "--print"@,
        "after_move:filepath"@,
        "-o"@,
        template@,
        url@,
    ]);
    args
}

/// The path that a finished download run on `url` printed: the last line of
/// stdout that is not empty once trimmed, trimmed. A failed run gives its
/// failure report; a successful run that printed nothing gives
/// `OutputFileNotFound` for `out_dir`.
pub fn printed_output_path(
    url: &str,
    outcome: &ProcessOutcome,
    out_dir: std::path::PathBuf,
) -> (r: Result<String, YoutubeHelperError>)
    ensures
        !outcome.success ==> (r matches Err(e) && is_failure_report(
            e,
            url@,
            outcome.status@,
            outcome.stderr@,
        )),
        outcome.success ==> match last_nonempty_trimmed(lines(outcome.stdout@)) {
            Some(path) => r matches Ok(p) && p@ == path,
            None => r == Err::<String, YoutubeHelperError>(
                YoutubeHelperError::OutputFileNotFound { directory: out_dir },
            ),
        },
{
    if !outcome.success {
        return Err(map_failure(url, outcome));
    }
    match last_nonempty_trimmed_line(outcome.stdout.as_str()) {
        Some(path) => Ok(path),
        None => Err(YoutubeHelperError::OutputFileNotFound { directory: out_dir }),
    }
}

/// The printed path, kept only if it names an existing regular file;
/// `OutputFileNotFound` for `out_dir` otherwise.
pub fn require_existing_file(printed: String, is_file: bool, out_dir: std::path::PathBuf) -> (r:
    Result<String, YoutubeHelperError>)
    ensures
        is_file ==> r == Ok::<String, YoutubeHelperError>(printed),
        !is_file ==> r == Err::<String, YoutubeHelperError>(
            YoutubeHelperError::OutputFileNotFound { directory: out_dir },
        ),
{
    if is_file {
        Ok(printed)
    } else {
        Err(YoutubeHelperError::OutputFileNotFound { directory: out_dir })
    }
}

/// A final line ending on stdout does not change the path that is taken.
pub proof fn printed_path_ignores_final_line_ending(out: Seq<char>)
    ensures
        last_nonempty_trimmed(lines(out.push('\n'))) == last_nonempty_trimmed(lines(out)),
{
    let (d, c) = split_lines(out);
    assert(out.push('\n').drop_last() =~= out);
    assert(split_lines(out.push('\n')) == (d.push(strip_cr(c)), Seq::<char>::empty()));
    let x = strip_cr(c);
    if c.len() == 0 {
        assert(is_blank(x));
        lemma_last_nonempty_append_blank(d, seq![x]);
        assert(d + seq![x] =~= d.push(x));
    } else {
        if c.last() == '\r' {
            lemma_trim_drop_last_white(c);
        }
        assert(trim(x) == trim(c));
        assert(d.push(x).drop_last() =~= d);
        assert(d.push(c).drop_last() =~= d);
    }
}

/// White space that `yt-dlp` prints after the line with the path does not
/// change the path that is taken.
pub proof fn printed_path_ignores_trailing_blank_output(out: Seq<char>, extra: Seq<char>)
    requires
        out.len() > 0,
        out.last() == '\n',
        is_blank(extra),
    ensures
        last_nonempty_trimmed(lines(out + extra)) == last_nonempty_trimmed(lines(out)),
{
    lemma_lines_append(out, extra);
    lemma_lines_of_blank(extra);
    lemma_last_nonempty_append_blank(lines(out), lines(extra));
}

/// When stdout is a single line `p` (no white space at either end) followed
/// by a line ending, the path taken is exactly `p`: inner white space is kept.
pub proof fn printed_path_is_the_whole_single_line(p: Seq<char>)
    requires
        p.len() > 0,
        forall|i: int| 0 <= i < p.len() ==> #[trigger] p[i] != '\n',
        !is_white_space(p[0]),
        !is_white_space(p.last()),
    ensures
        last_nonempty_trimmed(lines(p.push('\n'))) == Some(p),
{
    lemma_lines_one_line(p);
    assert(p.last() != '\r');
    assert(strip_cr(p) == p);
    lemma_trim_start_at(p, 0);
    assert(p.skip(0) =~= p);
    lemma_trim_end_at(p, p.len() as int);
    assert(p.take(p.len() as int) =~= p);
    assert(trim(p) == p);
    assert(seq![p].last() == p);
}

/// The path taken is always one line of stdout with exactly its leading and
/// trailing white space removed (so it neither begins nor ends with white
/// space, and keeps all inner white space), and every line after it is all
/// white space.
pub proof fn printed_path_is_a_trimmed_line(out: Seq<char>)
    ensures
        last_nonempty_trimmed(lines(out)) matches Some(x) ==> exists|k: int, a: int, b: int|
            0 <= k < lines(out).len() && 0 <= a < b <= lines(out)[k].len() && x == #[trigger] lines(
                out,
            )[k].subrange(a, b) && !is_white_space(x[0]) && !is_white_space(x.last()) && (forall|
                i: int,
            | 0 <= i < a ==> is_white_space(#[trigger] lines(out)[k][i])) && (forall|i: int|
                b <= i < lines(out)[k].len() ==> is_white_space(#[trigger] lines(out)[k][i]))
                && forall|j: int, i: int|
                k < j < lines(out).len() && 0 <= i < lines(out)[j].len() ==> is_white_space(
                    #[trigger] lines(out)[j][i],
                ),
{
    let ls = lines(out);
    if last_nonempty_trimmed(ls) is Some {
        let k = lemma_last_nonempty_index(ls);
        let l = ls[k];
        let (a, b) = lemma_trim_bounds(l);
        let x = l.subrange(a, b);
        assert(x[0] == l[a]);
        assert(x.last() == l[b - 1]);
        assert forall|j: int, i: int|
            k < j < ls.len() && 0 <= i < ls[j].len() implies is_white_space(#[trigger] ls[j][i]) by {
            assert(is_blank(ls[j]));
        }
        assert(ls[k].subrange(a, b) == x);
    }
}

/// When stdout is all white space (or empty), no path is taken.
pub proof fn no_path_in_blank_output(out: Seq<char>)
    requires
        forall|i: int| 0 <= i < out.len() ==> is_white_space(#[trigger] out[i]),
    ensures
        last_nonempty_trimmed(lines(out)) is None,
{
    assert(is_blank(out));
    lemma_lines_of_blank(out);
    if last_nonempty_trimmed(lines(out)) is Some {
        let k = lemma_last_nonempty_index(lines(out));
        lemma_blank_iff_trim_empty(lines(out)[k]);
    }
}

} // verus!
