use aes::cipher::block_padding::Pkcs7;
use aes::cipher::{BlockEncryptMut, KeyIvInit};
use m3u8_downloader_rs::crypto::DecryptError;
use m3u8_downloader_rs::downloader::{
    begin_segment, download_segments, key_from_response, segment_file, try_download_segment,
    ChunkStart, ChunkStatus, DownloadError, Failure, HttpResponse, Retry, RetryStep,
};
use m3u8_downloader_rs::error::{is_retryable_error, ChunkError, TransportError};
use m3u8_downloader_rs::keys::key_material;
use m3u8_downloader_rs::playlist::{KeyInfo, MediaSegment};

fn status(code: u16) -> TransportError {
    TransportError { timeout: false, connect: false, status: Some(code) }
}

fn reply(code: u16, body: &[u8]) -> Result<HttpResponse, TransportError> {
    Ok(HttpResponse { status: code, body: body.to_vec() })
}

fn segments(count: usize) -> Vec<MediaSegment> {
    (0..count).map(|i| MediaSegment { uri: format!("seg{}.ts", i), key: None }).collect()
}

fn drive(responses: &[Result<HttpResponse, TransportError>]) -> (usize, Vec<u64>, Result<(), ChunkError>) {
    let mut retry = Retry::new();
    let mut attempts = 0;
    let mut waits = Vec::new();
    loop {
        let response = responses[attempts.min(responses.len() - 1)].clone();
        attempts += 1;
        let written = try_download_segment(response, &None).map(|_| ());
        match retry.download_segment(written) {
            RetryStep::Done(outcome) => return (attempts, waits, outcome),
            RetryStep::Again { wait_ms, next } => {
                waits.push(wait_ms);
                retry = next;
            }
        }
    }
}

#[test]
fn existing_file_is_done_without_a_request() {
    let key = Some(KeyInfo { method: "AES-128".to_string(), uri: "k.bin".to_string(), iv: None });
    assert_eq!(begin_segment(true, &key, "https://a.example/m.m3u8"), ChunkStart::Done(Ok(())));
    assert_eq!(begin_segment(true, &None, "https://a.example/m.m3u8"), ChunkStart::Done(Ok(())));
    assert_eq!(begin_segment(true, &key, "no url at all"), ChunkStart::Done(Ok(())));
}

#[test]
fn missing_file_without_key_is_fetched() {
    assert_eq!(begin_segment(false, &None, "https://a.example/m.m3u8"), ChunkStart::Fetch);
}

#[test]
fn missing_file_with_key_asks_for_the_key() {
    let key = Some(KeyInfo { method: "AES-128".to_string(), uri: "k.bin".to_string(), iv: None });
    assert_eq!(
        begin_segment(false, &key, "https://a.example/hls/m.m3u8"),
        ChunkStart::NeedKey { key_url: "https://a.example/hls/k.bin".to_string() }
    );
}

#[test]
fn unusable_key_uri_fails_the_segment() {
    let key = Some(KeyInfo { method: "AES-128".to_string(), uri: "k.bin".to_string(), iv: None });
    assert_eq!(begin_segment(false, &key, "nowhere"), ChunkStart::Done(Err(ChunkError::KeyUri)));
}

#[test]
fn always_503_is_tried_three_times() {
    let (attempts, waits, outcome) = drive(&[reply(503, b"")]);
    assert_eq!(attempts, 3);
    assert_eq!(waits, vec![100, 200]);
    assert_eq!(outcome, Err(ChunkError::Fetch(status(503))));
}

#[test]
fn a_404_is_tried_once() {
    let (attempts, waits, outcome) = drive(&[reply(404, b"")]);
    assert_eq!(attempts, 1);
    assert!(waits.is_empty());
    assert_eq!(outcome, Err(ChunkError::Fetch(status(404))));
}

#[test]
fn success_after_two_failures() {
    let timeout = TransportError { timeout: true, connect: false, status: None };
    let (attempts, waits, outcome) = drive(&[reply(500, b""), Err(timeout), reply(200, b"data")]);
    assert_eq!(attempts, 3);
    assert_eq!(waits, vec![100, 200]);
    assert_eq!(outcome, Ok(()));
}

#[test]
fn success_at_once_needs_no_wait() {
    let (attempts, waits, outcome) = drive(&[reply(200, b"data")]);
    assert_eq!(attempts, 1);
    assert!(waits.is_empty());
    assert_eq!(outcome, Ok(()));
}

#[test]
fn the_cause_after_three_failures_is_that_of_the_second() {
    let connect = TransportError { timeout: false, connect: true, status: None };
    let (attempts, _, outcome) = drive(&[reply(503, b""), reply(429, b""), Err(connect)]);
    assert_eq!(attempts, 3);
    assert_eq!(outcome, Err(ChunkError::Fetch(status(429))));
}

#[test]
fn waits_double_and_never_shrink() {
    let (_, waits, _) = drive(&[reply(502, b"")]);
    assert_eq!(waits.len(), 2);
    assert_eq!(waits[0], 100);
    assert_eq!(waits[1], 2 * waits[0]);
    assert!(waits[0] <= waits[1]);
}

#[test]
fn attempts_are_counted_from_one() {
    let retry = Retry::new();
    assert_eq!(retry.attempt(), 1);
    match retry.download_segment(Err(ChunkError::Fetch(status(500)))) {
        RetryStep::Again { wait_ms, next } => {
            assert_eq!(wait_ms, 100);
            assert_eq!(next.attempt(), 2);
        }
        RetryStep::Done(_) => panic!("a 500 is worth another attempt"),
    }
}

#[test]
fn local_failures_are_not_retried() {
    for cause in [
        ChunkError::Io,
        ChunkError::Decrypt(DecryptError::BadPadding),
        ChunkError::Decrypt(DecryptError::UnalignedInput),
        ChunkError::KeyUri,
        ChunkError::IvDecode,
        ChunkError::TaskFailed,
    ] {
        assert!(!is_retryable_error(&cause));
        match Retry::new().download_segment(Err(cause)) {
            RetryStep::Done(outcome) => assert_eq!(outcome, Err(cause)),
            RetryStep::Again { .. } => panic!("{:?} must not be retried", cause),
        }
    }
}

#[test]
fn retryable_failures_are_timeouts_connects_5xx_and_429() {
    let timeout = TransportError { timeout: true, connect: false, status: None };
    let connect = TransportError { timeout: false, connect: true, status: None };
    let other = TransportError { timeout: false, connect: false, status: None };
    assert!(is_retryable_error(&ChunkError::Fetch(timeout)));
    assert!(is_retryable_error(&ChunkError::Fetch(connect)));
    assert!(!is_retryable_error(&ChunkError::Fetch(other)));
    assert!(is_retryable_error(&ChunkError::Fetch(status(500))));
    assert!(is_retryable_error(&ChunkError::Fetch(status(599))));
    assert!(is_retryable_error(&ChunkError::Fetch(status(429))));
    assert!(!is_retryable_error(&ChunkError::Fetch(status(499))));
    assert!(!is_retryable_error(&ChunkError::Fetch(status(600))));
    assert!(!is_retryable_error(&ChunkError::Fetch(status(404))));
    assert!(!is_retryable_error(&ChunkError::Fetch(status(400))));
    assert!(!is_retryable_error(&ChunkError::Fetch(status(200))));
}

#[test]
fn plain_body_is_written_as_it_is() {
    assert_eq!(try_download_segment(reply(200, b"abc"), &None), Ok(b"abc".to_vec()));
    assert_eq!(try_download_segment(reply(302, b"abc"), &None), Ok(b"abc".to_vec()));
}

#[test]
fn error_statuses_are_fetch_failures() {
    assert_eq!(try_download_segment(reply(400, b"x"), &None), Err(ChunkError::Fetch(status(400))));
    assert_eq!(try_download_segment(reply(599, b"x"), &None), Err(ChunkError::Fetch(status(599))));
    assert_eq!(try_download_segment(reply(600, b"x"), &None), Ok(b"x".to_vec()));
    assert_eq!(try_download_segment(reply(399, b"x"), &None), Ok(b"x".to_vec()));
}

#[test]
fn transport_failure_is_a_fetch_failure() {
    let timeout = TransportError { timeout: true, connect: false, status: None };
    assert_eq!(try_download_segment(Err(timeout), &None), Err(ChunkError::Fetch(timeout)));
}

#[test]
fn undecryptable_body_is_a_decrypt_failure() {
    let material = Some(key_material(vec![1u8; 16], &None, 0).unwrap());
    assert_eq!(
        try_download_segment(reply(200, &[0u8; 15]), &material),
        Err(ChunkError::Decrypt(DecryptError::UnalignedInput))
    );
    assert_eq!(
        try_download_segment(reply(200, &[]), &material),
        Err(ChunkError::Decrypt(DecryptError::BadPadding))
    );
}

#[test]
fn encrypted_body_is_decrypted_before_it_is_written() {
    let plain = b"one whole transport stream packet and a bit".to_vec();
    let key = *b"sixteen byte key";
    let mut iv = [0u8; 16];
    iv[15] = 5;
    let mut buf = vec![0u8; plain.len() + 16];
    buf[..plain.len()].copy_from_slice(&plain);
    let cipher = cbc::Encryptor::<aes::Aes128>::new((&key).into(), (&iv).into());
    let len = cipher.encrypt_padded_mut::<Pkcs7>(&mut buf, plain.len()).unwrap().len();
    buf.truncate(len);
    let material = Some(key_from_response(reply(200, &key), &None, 5).unwrap());
    assert_eq!(try_download_segment(reply(200, &buf), &material), Ok(plain.clone()));
    let other = Some(key_from_response(reply(200, &key), &None, 6).unwrap());
    assert!(try_download_segment(reply(200, &buf), &other) != Ok(plain));
}

#[test]
fn key_response_gives_fitted_key_whatever_the_status() {
    let material = key_from_response(reply(404, &[7u8; 20]), &None, 2).unwrap();
    assert_eq!(material.key(), &[7u8; 16][..]);
    let mut iv = [0u8; 16];
    iv[15] = 2;
    assert_eq!(material.iv(), &iv[..]);
}

#[test]
fn failed_key_request_is_a_fetch_failure() {
    let connect = TransportError { timeout: false, connect: true, status: None };
    assert_eq!(key_from_response(Err(connect), &None, 0).err(), Some(ChunkError::Fetch(connect)));
    let bad_iv = Some("xyz".to_string());
    assert_eq!(key_from_response(reply(200, &[1u8; 16]), &bad_iv, 0).err(), Some(ChunkError::IvDecode));
}

#[test]
fn segment_files_are_named_by_index() {
    assert_eq!(segment_file(0), "index0.ts");
    assert_eq!(segment_file(7), "index7.ts");
    assert_eq!(segment_file(10), "index10.ts");
    assert_eq!(segment_file(1234567890), "index1234567890.ts");
    assert_eq!(segment_file(usize::MAX), format!("index{}.ts", usize::MAX));
}

#[test]
fn plan_resolves_every_segment_up_front() {
    let list = segments(3);
    let plan = download_segments(&list, "https://cdn.example.com/hls/media.m3u8", 2, None).unwrap();
    assert_eq!(plan.len(), 3);
    assert_eq!(plan.in_flight(), 0);
    assert_eq!(plan.base_url(), "https://cdn.example.com/hls/media.m3u8");
    assert_eq!(plan.key_info(), &None);
    for i in 0..3 {
        let job = plan.job(i).unwrap();
        assert_eq!(job.index, i);
        assert_eq!(job.url, format!("https://cdn.example.com/hls/seg{}.ts", i));
        assert_eq!(job.file_name, format!("index{}.ts", i));
        assert_eq!(plan.status(i), Some(ChunkStatus::Pending));
    }
    assert!(plan.job(3).is_none());
    assert_eq!(plan.status(3), None);
}

#[test]
fn one_unresolvable_uri_fails_the_whole_plan() {
    let mut list = segments(4);
    list[2].uri = "https://[broken".to_string();
    list[3].uri = "https://[broken too".to_string();
    let plan = download_segments(&list, "https://cdn.example.com/hls/media.m3u8", 2, None);
    assert_eq!(plan.err(), Some(DownloadError::UriResolution { index: 2 }));
    let no_base = download_segments(&segments(2), "relative/base", 2, None);
    assert_eq!(no_base.err(), Some(DownloadError::UriResolution { index: 0 }));
}

#[test]
fn empty_plan_is_finished_at_once() {
    let mut plan = download_segments(&[], "https://cdn.example.com/m.m3u8", 4, None).unwrap();
    assert!(plan.is_finished());
    assert_eq!(plan.next_task(), None);
    let summary = plan.summary();
    assert_eq!((summary.total, summary.succeeded, summary.failed), (0, 0, 0));
}

#[test]
fn no_more_than_three_of_ten_are_under_way() {
    let list = segments(10);
    let mut plan = download_segments(&list, "https://cdn.example.com/hls/m.m3u8", 3, None).unwrap();
    let mut under_way: Vec<usize> = Vec::new();
    let mut most = 0;
    let mut begun = Vec::new();
    while !plan.is_finished() {
        while let Some(index) = plan.next_task() {
            under_way.push(index);
            begun.push(index);
            assert!(under_way.len() <= 3);
            assert_eq!(plan.in_flight(), under_way.len());
        }
        most = most.max(under_way.len());
        assert!(!under_way.is_empty());
        let ended = under_way.remove(under_way.len() / 2);
        assert!(plan.complete(ended, Ok(())));
    }
    assert_eq!(most, 3);
    assert_eq!(begun, (0..10).collect::<Vec<usize>>());
    assert_eq!(plan.in_flight(), 0);
}

#[test]
fn one_failure_leaves_the_other_nine_alone() {
    let list = segments(10);
    let mut plan = download_segments(&list, "https://cdn.example.com/hls/m.m3u8", 3, None).unwrap();
    let failure = ChunkError::Fetch(status(404));
    while !plan.is_finished() {
        let mut begun = Vec::new();
        while let Some(index) = plan.next_task() {
            begun.push(index);
        }
        for index in begun {
            let outcome = if index == 3 { Err(failure) } else { Ok(()) };
            assert!(plan.complete(index, outcome));
        }
    }
    let summary = plan.summary();
    assert_eq!(summary.total, 10);
    assert_eq!(summary.succeeded, 9);
    assert_eq!(summary.failed, 1);
    assert_eq!(summary.failures, vec![Failure { index: 3, cause: failure }]);
    for i in 0..10 {
        let expected = if i == 3 { Err(failure) } else { Ok(()) };
        assert_eq!(plan.status(i), Some(ChunkStatus::Finished(expected)));
    }
}

#[test]
fn outcomes_are_taken_only_from_segments_under_way() {
    let list = segments(3);
    let mut plan = download_segments(&list, "https://cdn.example.com/hls/m.m3u8", 1, None).unwrap();
    assert!(!plan.complete(0, Ok(())));
    assert_eq!(plan.next_task(), Some(0));
    assert_eq!(plan.next_task(), None);
    assert!(!plan.complete(1, Ok(())));
    assert!(!plan.complete(7, Ok(())));
    assert!(plan.complete(0, Err(ChunkError::Io)));
    assert!(!plan.complete(0, Ok(())));
    assert_eq!(plan.status(0), Some(ChunkStatus::Finished(Err(ChunkError::Io))));
    assert_eq!(plan.next_task(), Some(1));
    assert_eq!(plan.status(1), Some(ChunkStatus::Running));
    assert_eq!(plan.status(2), Some(ChunkStatus::Pending));
    assert!(!plan.is_finished());
    let summary = plan.summary();
    assert_eq!((summary.total, summary.succeeded, summary.failed), (3, 0, 1));
}

#[test]
fn failures_are_listed_by_rising_index() {
    let list = segments(5);
    let mut plan = download_segments(&list, "https://cdn.example.com/hls/m.m3u8", 5, None).unwrap();
    while plan.next_task().is_some() {}
    assert!(plan.complete(4, Err(ChunkError::Io)));
    assert!(plan.complete(1, Err(ChunkError::KeyUri)));
    assert!(plan.complete(0, Ok(())));
    assert!(plan.complete(2, Ok(())));
    assert!(plan.complete(3, Err(ChunkError::IvDecode)));
    assert!(plan.is_finished());
    let summary = plan.summary();
    assert_eq!(
        summary.failures,
        vec![
            Failure { index: 1, cause: ChunkError::KeyUri },
            Failure { index: 3, cause: ChunkError::IvDecode },
            Failure { index: 4, cause: ChunkError::Io },
        ]
    );
    assert_eq!(summary.succeeded + summary.failed, summary.total);
}
