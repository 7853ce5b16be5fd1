use m3u8_downloader_rs::cli::Args;
use m3u8_downloader_rs::downloader::{download_segments, Failure, RunResult};
use m3u8_downloader_rs::error::{ChunkError, TransportError};
use m3u8_downloader_rs::crypto::DecryptError;
use m3u8_downloader_rs::http::{Header, HeaderError, USER_AGENT, USER_AGENT_NAME};
use m3u8_downloader_rs::merger::{CleanupError, MergeError};
use m3u8_downloader_rs::playlist::MediaSegment;
use m3u8_downloader_rs::{failure_report, next_step, run, segments_directory, RunError, RunEvent, RunStep};

fn args(url: &str) -> Args {
    Args {
        url: url.to_string(),
        output_dir: "output".to_string(),
        output_video: "output_video.mp4".to_string(),
        threads: 10,
        ffmpeg_path: None,
        no_merge: false,
        keep_segments: false,
        headers: Vec::new(),
    }
}

#[test]
fn directory_is_the_start_of_the_urls_digest() {
    assert_eq!(segments_directory("hello"), "2cf24dba5fb0");
    assert_eq!(segments_directory(""), "e3b0c44298fc");
    assert_eq!(segments_directory("abc"), "ba7816bf8f01");
}

#[test]
fn run_is_prepared_from_the_arguments() {
    let mut asked = args("HTTPS://Example.com/hls/master.m3u8");
    asked.headers = vec!["Cookie: a=b".to_string(), "ignored".to_string()];
    let plan = run(&asked).unwrap();
    assert_eq!(plan.url, "https://example.com/hls/master.m3u8");
    assert_eq!(plan.directory, segments_directory("HTTPS://Example.com/hls/master.m3u8"));
    assert_eq!(plan.directory.len(), 12);
    assert_eq!(plan.client.timeout_secs, 30);
    assert_eq!(
        plan.client.headers,
        vec![
            Header { name: USER_AGENT_NAME.to_string(), value: USER_AGENT.to_string() },
            Header { name: "Cookie".to_string(), value: "a=b".to_string() },
        ]
    );
}

#[test]
fn run_refuses_what_is_no_url() {
    assert_eq!(run(&args("not a url")), Err(RunError::InvalidUrl));
    assert_eq!(run(&args("")), Err(RunError::InvalidUrl));
    assert_eq!(run(&args("/relative/path.m3u8")), Err(RunError::InvalidUrl));
}

#[test]
fn run_looks_at_headers_before_the_url() {
    let mut asked = args("not a url");
    asked.headers = vec!["Bad Name: x".to_string()];
    assert_eq!(run(&asked), Err(RunError::Headers(HeaderError::InvalidName { index: 0 })));
    let mut asked = args("https://example.com/a.m3u8");
    asked.headers = vec!["Ok: fine".to_string(), "X: a\nb".to_string()];
    assert_eq!(run(&asked), Err(RunError::Headers(HeaderError::InvalidValue { index: 1 })));
}

#[test]
fn any_failed_segment_stops_before_the_merge() {
    let asked = args("https://example.com/a.m3u8");
    for failed in [1usize, 2, 10] {
        let step = next_step(&asked, RunEvent::Downloaded { failed, total: 10 });
        assert_eq!(step, RunStep::Fail(RunError::DownloadFailed { failed, total: 10 }));
    }
    let mut unmerged = args("https://example.com/a.m3u8");
    unmerged.no_merge = true;
    let step = next_step(&unmerged, RunEvent::Downloaded { failed: 1, total: 10 });
    assert_eq!(step, RunStep::Fail(RunError::DownloadFailed { failed: 1, total: 10 }));
}

#[test]
fn full_download_is_merged() {
    let mut asked = args("https://example.com/a.m3u8");
    asked.output_video = "film.mp4".to_string();
    asked.ffmpeg_path = Some("/usr/local/bin/ffmpeg".to_string());
    match next_step(&asked, RunEvent::Downloaded { failed: 0, total: 2 }) {
        RunStep::Merge(plan) => {
            assert_eq!(plan.program, "/usr/local/bin/ffmpeg");
            assert_eq!(plan.file_list, "file 'index0.ts'\nfile 'index1.ts'\n");
            assert_eq!(plan.arguments.last().map(String::as_str), Some("film.mp4"));
        }
        other => panic!("expected a merge, got {:?}", other),
    }
}

#[test]
fn merge_is_skipped_on_request() {
    let mut asked = args("https://example.com/a.m3u8");
    asked.no_merge = true;
    let step = next_step(&asked, RunEvent::Downloaded { failed: 0, total: 2 });
    assert_eq!(step, RunStep::Succeed { warning: None });
}

#[test]
fn failed_merge_fails_the_run() {
    let asked = args("https://example.com/a.m3u8");
    let step = next_step(&asked, RunEvent::Merged { success: false, code: Some(1) });
    assert_eq!(step, RunStep::Fail(RunError::Merge(MergeError { code: Some(1) })));
    let mut keeping = args("https://example.com/a.m3u8");
    keeping.keep_segments = true;
    let step = next_step(&keeping, RunEvent::Merged { success: false, code: None });
    assert_eq!(step, RunStep::Fail(RunError::Merge(MergeError { code: None })));
}

#[test]
fn segments_are_removed_after_the_merge_unless_kept() {
    let asked = args("https://example.com/a.m3u8");
    assert_eq!(next_step(&asked, RunEvent::Merged { success: true, code: Some(0) }), RunStep::Cleanup);
    let mut keeping = args("https://example.com/a.m3u8");
    keeping.keep_segments = true;
    assert_eq!(
        next_step(&keeping, RunEvent::Merged { success: true, code: Some(0) }),
        RunStep::Succeed { warning: None }
    );
}

#[test]
fn failed_cleanup_is_only_a_warning() {
    let asked = args("https://example.com/a.m3u8");
    assert_eq!(next_step(&asked, RunEvent::Cleaned { failures: Vec::new() }), RunStep::Succeed { warning: None });
    let failures = vec!["index1.ts: busy".to_string(), "index4.ts: gone".to_string()];
    assert_eq!(
        next_step(&asked, RunEvent::Cleaned { failures: failures.clone() }),
        RunStep::Succeed { warning: Some(CleanupError { failures }) }
    );
}

#[test]
fn report_has_a_line_for_each_failure_and_a_count() {
    let timeout = TransportError { timeout: true, connect: false, status: None };
    let connect = TransportError { timeout: false, connect: true, status: None };
    let status = TransportError { timeout: false, connect: false, status: Some(503) };
    let other = TransportError { timeout: false, connect: false, status: None };
    let causes = [
        ChunkError::Fetch(timeout),
        ChunkError::Fetch(connect),
        ChunkError::Fetch(status),
        ChunkError::Fetch(other),
        ChunkError::KeyUri,
        ChunkError::IvDecode,
        ChunkError::Decrypt(DecryptError::UnalignedInput),
        ChunkError::Decrypt(DecryptError::BadPadding),
        ChunkError::Io,
        ChunkError::TaskFailed,
    ];
    let failures: Vec<Failure> =
        causes.iter().enumerate().map(|(i, cause)| Failure { index: 3 * i, cause: *cause }).collect();
    let result = RunResult { total: 40, succeeded: 30, failed: 10, failures };
    assert_eq!(
        failure_report(&result),
        vec![
            "segment 0: request timed out",
            "segment 3: connection failed",
            "segment 6: server answered 503",
            "segment 9: request failed",
            "segment 12: key URI cannot be resolved",
            "segment 15: initialization vector is not hexadecimal",
            "segment 18: ciphertext is not made of whole blocks",
            "segment 21: padding is malformed",
            "segment 24: segment could not be written",
            "segment 27: task ended without an outcome",
            "10 of 40 failed",
        ]
    );
}

#[test]
fn report_of_a_full_download_is_the_count_alone() {
    let result = RunResult { total: 3, succeeded: 3, failed: 0, failures: Vec::new() };
    assert_eq!(failure_report(&result), vec!["0 of 3 failed"]);
}

#[test]
fn a_run_with_one_failure_is_reported_and_not_merged() {
    let segments: Vec<MediaSegment> =
        (0..10).map(|i| MediaSegment { uri: format!("s{}.ts", i), key: None }).collect();
    let mut plan = download_segments(&segments, "https://example.com/v/index.m3u8", 3, None).unwrap();
    let cause = ChunkError::Fetch(TransportError { timeout: false, connect: false, status: Some(404) });
    while !plan.is_finished() {
        let index = plan.next_task().unwrap();
        assert!(plan.complete(index, if index == 3 { Err(cause) } else { Ok(()) }));
    }
    let summary = plan.summary();
    assert_eq!(failure_report(&summary), vec!["segment 3: server answered 404", "1 of 10 failed"]);
    let step = next_step(
        &args("https://example.com/master.m3u8"),
        RunEvent::Downloaded { failed: summary.failed, total: summary.total },
    );
    assert_eq!(step, RunStep::Fail(RunError::DownloadFailed { failed: 1, total: 10 }));
}
