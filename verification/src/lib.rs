//! Resolution of HLS playlists and bounded, resumable download of their
//! segments, with the decisions stated as contracts and proved.
//!
//! The library decides; the program around it fetches, waits, writes and
//! runs the merger, and reports back what happened.

pub mod cli;
pub mod crypto;
pub mod downloader;
pub mod error;
pub mod gui;
pub mod http;
pub mod keys;
pub mod merger;
pub mod playlist;
pub mod text;
pub mod urls;

use crate::cli::Args;
use crate::downloader::RunResult;
use crate::error::{description, ChunkError};
use crate::http::{
    build_http_client, custom_headers, headers_view, ClientSettings, HeaderError, USER_AGENT,
    USER_AGENT_NAME,
};
use crate::merger::{
    cleanup_outcome, file_list, merge_arguments, merge_outcome, merge_segments, CleanupError,
    MergeError, MergePlan, DEFAULT_MERGER,
};
use crate::text::{decimal, decimal_digits, texts};
use crate::urls::{parse_url, parsed_url};
use vstd::prelude::*;
use vstd::string::*;

verus! {

/// The SHA-256 digest of the UTF-8 bytes of `text`, in lower-case
/// hexadecimal.
pub uninterp spec fn sha256_hex(text: Seq<char>) -> Seq<char>;

/// Calls `sha256::digest`, which writes the 32 bytes of the digest as 64
/// hexadecimal digits.
#[verifier::external_body]
fn sha256_digest(text: &str) -> (r: String)
    ensures
        r@ == sha256_hex(text@),
        r@.len() == 64,
{
    sha256::digest(text)
}

/// The name of the directory that holds the segments of the run on `url`:
/// the first 12 digits of the URL's digest.
pub open spec fn run_directory(url: Seq<char>) -> Seq<char> {
    sha256_hex(url).subrange(0, 12)
}

/// Names the directory that holds the segments of the run on `url`.
pub fn segments_directory(url: &str) -> (r: String)
    ensures
        r@ == run_directory(url@),
{
    let digest = sha256_digest(url);
    digest.as_str().substring_char(0, 12).to_owned()
}

/// Why a run ended without its video.
#[derive(Clone, Copy, Debug, PartialEq, Eq)]
pub enum RunError {
    /// A custom header is not allowed.
    Headers(HeaderError),
    /// The playlist's URL is no URL.
    InvalidUrl,
    /// `failed` of `total` segments did not reach the disk.
    DownloadFailed { failed: usize, total: usize },
    /// The merger failed; the segments are still there.
    Merge(MergeError),
}

/// What a run starts from.
#[derive(Debug, Clone, PartialEq, Eq)]
pub struct RunPlan {
    /// The settings of the HTTP client.
    pub client: ClientSettings,
    /// The playlist's URL, as the URL parser writes it.
    pub url: String,
    /// The name of the run's directory, inside the output directory.
    pub directory: String,
}

/// Prepares a run: the client's settings from the custom headers, the
/// playlist's URL, and the directory for the segments.
///
/// The headers are looked at before the URL.
pub fn run(args: &Args) -> (r: Result<RunPlan, RunError>)
    ensures
        match r {
            Ok(plan) => {
                &&& custom_headers(texts(args.headers@), args.headers@.len()) matches Ok(
                    added,
                )
                &&& headers_view(plan.client.headers@) == seq![(USER_AGENT_NAME@, USER_AGENT@)]
                    + added
                &&& plan.client.timeout_secs == 30
                &&& parsed_url(args.url@) == Some(plan.url@)
                &&& plan.directory@ == run_directory(args.url@)
            },
            Err(RunError::Headers(e)) => custom_headers(
                texts(args.headers@),
                args.headers@.len(),
            ) == Err::<Seq<(Seq<char>, Seq<char>)>, HeaderError>(e),
            Err(RunError::InvalidUrl) => {
                &&& custom_headers(texts(args.headers@), args.headers@.len()) is Ok
                &&& parsed_url(args.url@) is None
            },
            Err(_) => false,
        },
{
    let client = match build_http_client(args.headers.as_slice()) {
        Ok(client) => client,
        Err(e) => {
            return Err(RunError::Headers(e));
        },
    };
    let url = match parse_url(args.url.as_str()) {
        Some(url) => url,
        None => {
            return Err(RunError::InvalidUrl);
        },
    };
    let directory = segments_directory(args.url.as_str());
    Ok(RunPlan { client, url, directory })
}

/// What happened in a run that was prepared.
#[derive(Debug, Clone, PartialEq, Eq)]
pub enum RunEvent {
    /// The downloads ended.
    Downloaded { failed: usize, total: usize },
    /// The merger ended.
    Merged { success: bool, code: Option<i32> },
    /// The segments were removed, but for those that `failures` reports.
    Cleaned { failures: Vec<String> },
}

/// What a run does next.
#[derive(Debug, Clone, PartialEq, Eq)]
pub enum RunStep {
    /// Write the list, run the merger.
    Merge(MergePlan),
    /// Remove the segments.
    Cleanup,
    /// The run succeeded. `warning` holds what the clean-up could not remove.
    Succeed { warning: Option<CleanupError> },
    /// The run failed.
    Fail(RunError),
}

/// Decides what a run does after `event`.
///
/// With a failed segment nothing is merged: the run fails. Without one, the
/// segments are merged unless the run was asked not to. A merger that failed
/// fails the run and leaves the segments. After a merge the segments are
/// removed unless the run was asked to keep them; what the clean-up could not
/// remove is a warning on a run that succeeded.
pub fn next_step(args: &Args, event: RunEvent) -> (r: RunStep)
    ensures
        match event {
            RunEvent::Downloaded { failed, total } => if failed > 0 {
                r == RunStep::Fail(RunError::DownloadFailed { failed, total })
            } else if args.no_merge {
                r == (RunStep::Succeed { warning: None })
            } else {
                &&& r matches RunStep::Merge(plan)
                &&& plan.file_list@ == file_list(total as nat)
                &&& plan.program@ == match args.ffmpeg_path {
                    Some(path) => path@,
                    None => DEFAULT_MERGER@,
                }
                &&& texts(plan.arguments@) == merge_arguments(args.output_video@)
            },
            RunEvent::Merged { success, code } => if !success {
                r == RunStep::Fail(RunError::Merge(MergeError { code }))
            } else if args.keep_segments {
                r == (RunStep::Succeed { warning: None })
            } else {
                r is Cleanup
            },
            RunEvent::Cleaned { failures } => if failures@.len() == 0 {
                r == (RunStep::Succeed { warning: None })
            } else {
                r matches RunStep::Succeed { warning: Some(e) } && e.failures == failures
            },
        },
{
    match event {
        RunEvent::Downloaded { failed, total } => {
            if failed > 0 {
                RunStep::Fail(RunError::DownloadFailed { failed, total })
            } else if args.no_merge {
                RunStep::Succeed { warning: None }
            } else {
                let merger = match &args.ffmpeg_path {
                    Some(path) => Some(path.as_str()),
                    None => None,
                };
                RunStep::Merge(merge_segments(args.output_video.as_str(), merger, total))
            }
        },
        RunEvent::Merged { success, code } => match merge_outcome(success, code) {
            Err(e) => RunStep::Fail(RunError::Merge(e)),
            Ok(()) => if args.keep_segments {
                RunStep::Succeed { warning: None }
            } else {
                RunStep::Cleanup
            },
        },
        RunEvent::Cleaned { failures } => match cleanup_outcome(failures) {
            Ok(()) => RunStep::Succeed { warning: None },
            Err(e) => RunStep::Succeed { warning: Some(e) },
        },
    }
}

/// The line that reports one failed segment.
pub open spec fn failure_line(index: nat, cause: ChunkError) -> Seq<char> {
    "segment "@ + decimal_digits(index) + ": "@ + description(cause)
}

/// The line that sums up the downloads.
pub open spec fn summary_line(failed: nat, total: nat) -> Seq<char> {
    decimal_digits(failed) + " of "@ + decimal_digits(total) + " failed"@
}

/// Reports the failed downloads: one line for each failed segment, by rising
/// index, and a last line that counts them.
pub fn failure_report(result: &RunResult) -> (r: Vec<String>)
    ensures
        r@.len() == result.failures@.len() + 1,
        forall|k: int|
            0 <= k < result.failures@.len() ==> (#[trigger] r@[k])@ == failure_line(
                result.failures@[k].index as nat,
                result.failures@[k].cause,
            ),
        r@[result.failures@.len() as int]@ == summary_line(
            result.failed as nat,
            result.total as nat,
        ),
{
    let count = result.failures.len();
    let mut lines: Vec<String> = Vec::new();
    let mut i: usize = 0;
    while i < count
        invariant
            i <= count,
            count == result.failures@.len(),
            lines@.len() == i,
            forall|k: int|
                0 <= k < i ==> (#[trigger] lines@[k])@ == failure_line(
                    result.failures@[k].index as nat,
                    result.failures@[k].cause,
                ),
        decreases count - i,
    {
        let failure = &result.failures[i];
        let mut line = "segment ".to_owned();
        line.append(decimal(failure.index).as_str());
        line.append(": ");
        line.append(failure.cause.describe().as_str());
        lines.push(line);
        i = i + 1;
    }
    let mut last = decimal(result.failed);
    last.append(" of ");
    last.append(decimal(result.total).as_str());
    last.append(" failed");
    lines.push(last);
    lines
}

} // verus!
