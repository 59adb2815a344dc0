//! Video metadata through `yt-dlp --dump-json`: what to run, and which line
//! of its output holds the JSON document. Turning that line into a
//! `VideoMetadata` value is serde's work, done by the caller.

use vstd::prelude::*;
use crate::error::{YoutubeHelperError, is_command_failed};
use crate::text::{
    first_nonblank,
    first_nonblank_line,
    is_blank,
    is_white_space,
    lemma_first_nonblank_append,
    lemma_first_nonblank_index,
    lemma_lines_one_line,
    lemma_first_nonblank_push_blank,
    lemma_lines_append,
    lemma_lines_of_blank,
    lemma_split_lines_tail,
    lines,
    split_lines,
    strip_cr,
};
use crate::ytdlp::{ProcessOutcome, is_failure_report, map_failure};

verus! {

/// The stderr text reported when `yt-dlp` succeeded but printed no JSON.
pub open spec fn no_json_message() -> Seq<char> {
    "yt-dlp produced no JSON output on stdout"@
}

/// The texts of a list of arguments.
pub open spec fn args_view(args: Seq<String>) -> Seq<Seq<char>> {
    args.map_values(|a: String| a@)
}

/// The arguments of `yt-dlp` that print the metadata of `url` as JSON,
/// without downloading media: `--dump-json --no-playlist --no-warnings <url>`.
pub fn metadata_args(url: &str) -> (args: Vec<String>)
    ensures
        args_view(args@) == seq!["--dump-json"@, "--no-playlist"@, "--no-warnings"@, url@],
{
    let mut args: Vec<String> = Vec::new();
    args.push("--dump-json".to_owned());
    args.push("--no-playlist".to_owned());
    args.push("--no-warnings".to_owned());
    args.push(url.to_owned());
    assert(args_view(args@) =~= seq!["--dump-json"@, "--no-playlist"@, "--no-warnings"@, url@]);
    args
}

/// The JSON line of a finished `yt-dlp --dump-json` run on `url`: the first
/// line of stdout that is not blank (robust against trailing newlines and
/// stray text). A failed run gives its failure report; a successful run
/// without such a line gives `CommandFailed`.
pub fn metadata_json_line(url: &str, outcome: &ProcessOutcome) -> (r: Result<
    String,
    YoutubeHelperError,
>)
    ensures
        !outcome.success ==> (r matches Err(e) && is_failure_report(
            e,
            url@,
            outcome.status@,
            outcome.stderr@,
        )),
        outcome.success ==> match first_nonblank(lines(outcome.stdout@)) {
            Some(line) => r matches Ok(l) && l@ == line,
            None => r matches Err(e) && is_command_failed(e, outcome.status@, no_json_message()),
        },
{
    if !outcome.success {
        return Err(map_failure(url, outcome));
    }
    match first_nonblank_line(outcome.stdout.as_str()) {
        Some(line) => Ok(line),
        None => Err(
            YoutubeHelperError::CommandFailed {
                status: outcome.status.clone(),
                stderr: "yt-dlp produced no JSON output on stdout".to_owned(),
            },
        ),
    }
}

/// Whatever `yt-dlp` prints after a line that holds the JSON document (a
/// later warning, more lines) does not change the line that is taken.
pub proof fn json_line_ignores_later_output(earlier: Seq<char>, later: Seq<char>)
    requires
        earlier.len() > 0,
        earlier.last() == '\n',
        first_nonblank(lines(earlier)) is Some,
    ensures
        first_nonblank(lines(earlier + later)) == first_nonblank(lines(earlier)),
{
    lemma_lines_append(earlier, later);
    lemma_first_nonblank_append(lines(earlier), lines(later));
}

/// A final line ending on stdout does not change the line that is taken,
/// unless stdout ends with a carriage return (which the line ending then
/// completes into `"\r\n"` and removes from the line).
pub proof fn json_line_ignores_final_line_ending(out: Seq<char>)
    requires
        !(out.len() > 0 && out.last() == '\r'),
    ensures
        first_nonblank(lines(out.push('\n'))) == first_nonblank(lines(out)),
{
    let (d, c) = split_lines(out);
    assert(out.push('\n').drop_last() =~= out);
    assert(split_lines(out.push('\n')) == (d.push(strip_cr(c)), Seq::<char>::empty()));
    lemma_split_lines_tail(out);
    if c.len() == 0 {
        assert(is_blank(strip_cr(c)));
        lemma_first_nonblank_push_blank(d, strip_cr(c));
    } else {
        assert(strip_cr(c) == c);
    }
}

/// When stdout is a single line `l` (any length, not all white space, not
/// ending in a carriage return) followed by a line ending, the JSON text
/// taken is exactly `l`, all of it.
pub proof fn json_line_is_the_whole_single_line(l: Seq<char>)
    requires
        exists|i: int| 0 <= i < l.len() && !is_white_space(#[trigger] l[i]),
        forall|i: int| 0 <= i < l.len() ==> #[trigger] l[i] != '\n',
        l.last() != '\r',
    ensures
        first_nonblank(lines(l.push('\n'))) == Some(l),
        first_nonblank(lines(l.push('\r').push('\n'))) == Some(l),
{
    lemma_lines_one_line(l);
    assert(strip_cr(l) == l);
    assert(!is_blank(l));
    assert(seq![l][0] == l);
    let lr = l.push('\r');
    assert forall|i: int| 0 <= i < lr.len() implies #[trigger] lr[i] != '\n' by {
        if i < l.len() {
            assert(lr[i] == l[i]);
        }
    }
    lemma_lines_one_line(lr);
    assert(lr.drop_last() =~= l);
    assert(strip_cr(lr) == l);
}

/// When stdout is all white space (or empty), no JSON text is taken.
pub proof fn no_json_line_in_blank_output(out: Seq<char>)
    requires
        forall|i: int| 0 <= i < out.len() ==> is_white_space(#[trigger] out[i]),
    ensures
        first_nonblank(lines(out)) is None,
{
    assert(is_blank(out));
    lemma_lines_of_blank(out);
    if first_nonblank(lines(out)) is Some {
        let k = lemma_first_nonblank_index(lines(out));
    }
}

/// The JSON text taken is always one whole line of stdout, not all white
/// space, and every line before it is all white space.
pub proof fn json_line_is_a_whole_line(out: Seq<char>)
    ensures
        first_nonblank(lines(out)) matches Some(x) ==> exists|k: int|
            0 <= k < lines(out).len() && #[trigger] lines(out)[k] == x && (exists|i: int|
                0 <= i < x.len() && !is_white_space(#[trigger] x[i])) && forall|j: int, i: int|
                0 <= j < k && 0 <= i < lines(out)[j].len() ==> is_white_space(
                    #[trigger] lines(out)[j][i],
                ),
{
    let ls = lines(out);
    if first_nonblank(ls) is Some {
        let k = lemma_first_nonblank_index(ls);
        let x = ls[k];
        assert forall|j: int, i: int| 0 <= j < k && 0 <= i < ls[j].len() implies is_white_space(
            #[trigger] ls[j][i],
        ) by {
            assert(is_blank(ls[j]));
        }
        assert(0 <= k < ls.len() && ls[k] == x);
    }
}

} // verus!
