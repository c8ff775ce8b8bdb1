//! A report on the installed yt-dlp, for finding out what is wrong with it.
use crate::text::{cat3, cat, lossy_text, decimal, lossy_utf8, signed_decimal, signed_text};
use vstd::prelude::*;

verus! {

/// The text that `Debug` makes of a string: in quotes, with escapes.
pub uninterp spec fn debug_quoted(text: Seq<char>) -> Seq<char>;

/// The formatting of a string with `{:?}`, which puts it in quotes and writes
/// characters that do not print as escapes.
#[verifier::external_body]
fn quote(text: &str) -> (r: String)
    ensures
        r@ == debug_quoted(text@),
{
    format!("{:?}", text)
}

/// How a run of `yt-dlp --version` went.
pub enum RunOutcome<'a> {
    /// It ended, with an exit code unless it was killed, and printed this.
    Ended { code: Option<i32>, stdout: &'a [u8], stderr: &'a [u8] },
    /// It could not be started, for this reason.
    NotStarted { reason: &'a str },
}

/// The line on a run that ended with the given code and quoted outputs.
pub open spec fn ended_line(code: Option<i32>, stdout: Seq<char>, stderr: Seq<char>) -> Seq<char> {
    "exit="@ + signed_decimal(
        match code {
            Some(c) => c as int,
            None => -1,
        },
    ) + " stdout="@ + stdout + " stderr="@ + stderr
}

/// The line on a run.
pub open spec fn run_line(run: RunOutcome) -> Seq<char> {
    match run {
        RunOutcome::Ended { code, stdout, stderr } => ended_line(
            code,
            debug_quoted(lossy_utf8(stdout@)),
            debug_quoted(lossy_utf8(stderr@)),
        ),
        RunOutcome::NotStarted { reason } => "spawn error: "@ + reason@,
    }
}

/// Writes the line on a run that ended, from its exit code and its outputs as
/// they are to be shown.
pub fn ended_text(code: Option<i32>, stdout: &str, stderr: &str) -> (r: String)
    ensures
        r@ == ended_line(code, stdout@, stderr@),
{
    let shown: i32 = match code {
        Some(c) => c,
        None => -1,
    };
    let number = signed_text(shown);
    let a = cat3("exit=", number.as_str(), " stdout=");
    let b = cat3(a.as_str(), stdout, " stderr=");
    cat(b.as_str(), stderr)
}

/// Writes the line on a run.
pub fn raw_version_output(run: RunOutcome) -> (r: String)
    ensures
        r@ == run_line(run),
{
    match run {
        RunOutcome::Ended { code, stdout, stderr } => {
            let out = lossy_text(stdout);
            let err = lossy_text(stderr);
            let out_shown = quote(out.as_str());
            let err_shown = quote(err.as_str());
            ended_text(code, out_shown.as_str(), err_shown.as_str())
        },
        RunOutcome::NotStarted { reason } => cat("spawn error: ", reason),
    }
}

/// The report.
pub struct DebugInfo {
    pub data_path: String,
    pub data_exists: bool,
    pub resource_path: String,
    pub resource_exists: bool,
    pub raw_version_output: String,
}

/// Puts the report together.
pub fn ytdlp_debug_info(
    data_path: String,
    data_exists: bool,
    resource_path: String,
    resource_exists: bool,
    run: RunOutcome,
) -> (r: DebugInfo)
    ensures
        r.data_path@ == data_path@,
        r.data_exists == data_exists,
        r.resource_path@ == resource_path@,
        r.resource_exists == resource_exists,
        r.raw_version_output@ == run_line(run),
{
    DebugInfo {
        data_path,
        data_exists,
        resource_path,
        resource_exists,
        raw_version_output: raw_version_output(run),
    }
}

/// The line on a run that ended gives exit code and both outputs; a run that
/// was killed counts as -1. One that could not be started gives the reason.
pub proof fn report_gives_code_and_outputs(
    c: i32,
    out: Seq<char>,
    err: Seq<char>,
    stdout: &[u8],
    stderr: &[u8],
    reason: &str,
)
    ensures
        ended_line(Some(c), out, err) == "exit="@ + signed_decimal(c as int) + " stdout="@ + out
            + " stderr="@ + err,
        ended_line(None, out, err) == "exit=-1 stdout="@ + out + " stderr="@ + err,
        run_line(RunOutcome::Ended { code: Some(c), stdout, stderr }) == ended_line(
            Some(c),
            debug_quoted(lossy_utf8(stdout@)),
            debug_quoted(lossy_utf8(stderr@)),
        ),
        run_line(RunOutcome::Ended { code: None, stdout, stderr }) == ended_line(
            None,
            debug_quoted(lossy_utf8(stdout@)),
            debug_quoted(lossy_utf8(stderr@)),
        ),
        run_line(RunOutcome::NotStarted { reason }) == "spawn error: "@ + reason@,
{
    reveal_strlit("exit=");
    reveal_strlit(" stdout=");
    reveal_strlit("exit=-1 stdout=");
    assert(signed_decimal(-1) =~= seq!['-', '1']) by {
        assert(decimal(1) =~= seq!['1']);
    }
    assert("exit="@ + signed_decimal(-1) + " stdout="@ =~= "exit=-1 stdout="@);
}

} // verus!
