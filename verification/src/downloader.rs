//! The download of one rendition's segments: what to do with each response,
//! when to try again, and how many segments may be under way at once.

use crate::crypto::{decrypt_data, decrypted};
use crate::error::{
    is_client_error, is_retryable_error, is_server_error, retryable, ChunkError, TransportError,
};
use crate::keys::{fitted, iv_for, key_material, key_url, key_url_for, KeyMaterial};
use crate::playlist::{KeyInfo, MediaSegment};
use crate::text::{decimal, decimal_digits, lemma_decimal_digits_injective, text_of};
use crate::urls::{join_url, joined_url};
use vstd::prelude::*;
use vstd::string::*;

verus! {

/// How often a segment is requested at most.
pub const MAX_ATTEMPTS: u8 = 3;

/// The wait before the second attempt, in milliseconds.
pub const FIRST_WAIT_MS: u64 = 100;

/// The wait before retry number `retry`, counted from zero: 100 ms at first,
/// then twice the wait before, and never more than a `u64` holds.
pub open spec fn backoff_ms(retry: nat) -> nat
    decreases retry,
{
    if retry == 0 {
        100
    } else if 2 * backoff_ms((retry - 1) as nat) > u64::MAX {
        u64::MAX as nat
    } else {
        2 * backoff_ms((retry - 1) as nat)
    }
}

/// Where the attempts on one segment stand.
pub struct RetryModel {
    /// The attempt under way, counted from one.
    pub attempt: nat,
    /// The wait before the next attempt, should this one fail.
    pub wait_ms: nat,
    /// The failure that led to the latest retry.
    pub last_error: Option<ChunkError>,
}

/// What follows an attempt.
pub enum RetryOutcome {
    /// The segment is done, for better or worse.
    Done(Result<(), ChunkError>),
    /// Wait `wait_ms`, then try again from `next`.
    Again { wait_ms: nat, next: RetryModel },
}

/// The state before the first attempt.
pub open spec fn fresh() -> RetryModel {
    RetryModel { attempt: 1, wait_ms: 100, last_error: None }
}

/// A state that attempts can reach.
pub open spec fn valid_retry(s: RetryModel) -> bool {
    &&& 1 <= s.attempt <= MAX_ATTEMPTS
    &&& s.wait_ms == backoff_ms((s.attempt - 1) as nat)
    &&& (s.attempt == 1 ==> s.last_error is None)
    &&& (s.attempt > 1 ==> s.last_error is Some && retryable(s.last_error->0))
}

/// What follows when the attempt under way in `s` ends in `result`.
///
/// Success and failures that are not worth another attempt end the segment
/// at once. A retryable failure leads to another attempt while fewer than
/// three were made; after the third the segment fails, with the
/// failure that led to the latest retry as its cause.
pub open spec fn retry_step(s: RetryModel, result: Result<(), ChunkError>) -> RetryOutcome {
    match result {
        Ok(()) => RetryOutcome::Done(Ok(())),
        Err(e) => if !retryable(e) {
            RetryOutcome::Done(Err(e))
        } else if s.attempt < MAX_ATTEMPTS {
            RetryOutcome::Again {
                wait_ms: s.wait_ms,
                next: RetryModel {
                    attempt: s.attempt + 1,
                    wait_ms: backoff_ms(s.attempt),
                    last_error: Some(e),
                },
            }
        } else {
            match s.last_error {
                Some(cause) => RetryOutcome::Done(Err(cause)),
                None => RetryOutcome::Done(Err(e)),
            }
        },
    }
}

/// The attempts on one segment.
#[derive(Debug)]
pub struct Retry {
    attempt: u8,
    wait_ms: u64,
    last_error: Option<ChunkError>,
}

/// What to do after an attempt.
#[derive(Debug)]
pub enum RetryStep {
    /// The segment is done, for better or worse.
    Done(Result<(), ChunkError>),
    /// Wait `wait_ms` milliseconds, then try again and report to `next`.
    Again { wait_ms: u64, next: Retry },
}

impl View for Retry {
    type V = RetryModel;

    closed spec fn view(&self) -> RetryModel {
        RetryModel {
            attempt: self.attempt as nat,
            wait_ms: self.wait_ms as nat,
            last_error: self.last_error,
        }
    }
}

impl View for RetryStep {
    type V = RetryOutcome;

    open spec fn view(&self) -> RetryOutcome {
        match *self {
            RetryStep::Done(r) => RetryOutcome::Done(r),
            RetryStep::Again { wait_ms, next } => RetryOutcome::Again {
                wait_ms: wait_ms as nat,
                next: next@,
            },
        }
    }
}

impl Retry {
    #[verifier::type_invariant]
    closed spec fn inv(&self) -> bool {
        valid_retry(self@)
    }

    /// The state before the first attempt.
    pub fn new() -> (r: Self)
        ensures
            r@ == fresh(),
    {
        Retry { attempt: 1, wait_ms: FIRST_WAIT_MS, last_error: None }
    }

    /// The attempt under way, counted from one.
    pub fn attempt(&self) -> (r: u8)
        ensures
            r == self@.attempt,
            valid_retry(self@),
    {
        proof {
            use_type_invariant(self);
        }
        self.attempt
    }

    /// Decides what follows the attempt that ended in `result`.
    pub fn download_segment(self, result: Result<(), ChunkError>) -> (step: RetryStep)
        ensures
            step@ == retry_step(self@, result),
            valid_retry(self@),
    {
        proof {
            use_type_invariant(&self);
        }
        match result {
            Ok(()) => RetryStep::Done(Ok(())),
            Err(e) => {
                if !is_retryable_error(&e) {
                    RetryStep::Done(Err(e))
                } else if self.attempt < MAX_ATTEMPTS {
                    let wait_ms = self.wait_ms;
                    let next = Retry {
                        attempt: self.attempt + 1,
                        wait_ms: wait_ms.saturating_add(wait_ms),
                        last_error: Some(e),
                    };
                    RetryStep::Again { wait_ms, next }
                } else {
                    match self.last_error {
                        Some(cause) => RetryStep::Done(Err(cause)),
                        None => RetryStep::Done(Err(e)),
                    }
                }
            },
        }
    }
}

/// Each wait is at least the one before it, and twice the one before it as
/// long as that fits in a `u64`.
pub proof fn lemma_backoff_doubles(retry: nat)
    ensures
        backoff_ms(retry) <= backoff_ms(retry + 1),
        100 <= backoff_ms(retry) <= u64::MAX,
        2 * backoff_ms(retry) <= u64::MAX ==> backoff_ms(retry + 1) == 2 * backoff_ms(retry),
        2 * backoff_ms(retry) > u64::MAX ==> backoff_ms(retry + 1) == u64::MAX,
    decreases retry,
{
    if retry > 0 {
        lemma_backoff_doubles((retry - 1) as nat);
    }
}

/// The waits of one segment: 100 ms before the second attempt, 200 ms before
/// the third.
pub proof fn lemma_backoff_values()
    ensures
        backoff_ms(0) == 100,
        backoff_ms(1) == 200,
{
    reveal_with_fuel(backoff_ms, 3);
}

/// An attempt moves a reachable state to a reachable state, one attempt
/// further and with the next wait in the row.
pub proof fn lemma_retry_step_valid(s: RetryModel, result: Result<(), ChunkError>)
    requires
        valid_retry(s),
    ensures
        match retry_step(s, result) {
            RetryOutcome::Done(_) => true,
            RetryOutcome::Again { wait_ms, next } => {
                &&& valid_retry(next)
                &&& next.attempt == s.attempt + 1
                &&& wait_ms == backoff_ms((s.attempt - 1) as nat)
                &&& wait_ms <= next.wait_ms
            },
        },
{
    lemma_backoff_doubles((s.attempt - 1) as nat);
}

/// A segment whose every attempt fails in a retryable way is tried three
/// times, with waits of 100 ms and 200 ms in between, and then fails.
pub proof fn lemma_retryable_failures_end_after_three(
    e1: ChunkError,
    e2: ChunkError,
    e3: ChunkError,
)
    requires
        retryable(e1),
        retryable(e2),
        retryable(e3),
    ensures
        retry_step(fresh(), Err(e1)) matches RetryOutcome::Again { wait_ms: w1, next: s1 } && {
            &&& w1 == 100
            &&& retry_step(s1, Err(e2)) matches RetryOutcome::Again { wait_ms: w2, next: s2 } && {
                &&& w2 == 200
                &&& retry_step(s2, Err(e3)) == RetryOutcome::Done(Err(e2))
            }
        },
{
    reveal_with_fuel(backoff_ms, 3);
}

/// A failure that is not worth another attempt ends the segment at the
/// attempt it comes from, the first included.
pub proof fn lemma_terminal_failure_ends_at_once(s: RetryModel, e: ChunkError)
    requires
        !retryable(e),
    ensures
        retry_step(s, Err(e)) == RetryOutcome::Done(Err(e)),
{
}

/// A response as the transport hands it over.
#[derive(Debug, Clone, PartialEq, Eq)]
pub struct HttpResponse {
    /// The status code.
    pub status: u16,
    /// The whole body.
    pub body: Vec<u8>,
}

/// The failure that stands for a response with an error status.
pub open spec fn status_error(status: u16) -> ChunkError {
    ChunkError::Fetch(TransportError { timeout: false, connect: false, status: Some(status) })
}

/// What one attempt yields for the disk.
///
/// A failed request and a 4xx or 5xx status are fetch failures. Any other
/// response gives its body, decrypted where the run has a key.
pub open spec fn attempt_yield(
    response: Result<HttpResponse, TransportError>,
    key: Option<KeyMaterial>,
) -> Result<Seq<u8>, ChunkError> {
    match response {
        Err(t) => Err(ChunkError::Fetch(t)),
        Ok(reply) => if is_client_error(reply.status) || is_server_error(reply.status) {
            Err(status_error(reply.status))
        } else {
            match key {
                None => Ok(reply.body@),
                Some(m) => match decrypted(reply.body@, m.key_bytes(), m.iv_bytes()) {
                    Ok(plain) => Ok(plain),
                    Err(e) => Err(ChunkError::Decrypt(e)),
                },
            }
        },
    }
}

/// Turns the response of one attempt into the bytes to write, or into the
/// failure of the attempt.
pub fn try_download_segment(
    response: Result<HttpResponse, TransportError>,
    key: &Option<KeyMaterial>,
) -> (r: Result<Vec<u8>, ChunkError>)
    ensures
        match r {
            Ok(bytes) => attempt_yield(response, *key) == Ok::<Seq<u8>, ChunkError>(bytes@),
            Err(e) => attempt_yield(response, *key) == Err::<Seq<u8>, ChunkError>(e),
        },
{
    match response {
        Err(t) => Err(ChunkError::Fetch(t)),
        Ok(reply) => {
            let status = reply.status;
            if 400 <= status && status < 600 {
                return Err(
                    ChunkError::Fetch(
                        TransportError { timeout: false, connect: false, status: Some(status) },
                    ),
                );
            }
            match key {
                None => Ok(reply.body),
                Some(m) => match decrypt_data(reply.body.as_slice(), m.key(), m.iv()) {
                    Ok(plain) => Ok(plain),
                    Err(e) => Err(ChunkError::Decrypt(e)),
                },
            }
        },
    }
}

/// The key material that the response to the key request gives for the
/// segment at `index`. Only a failed request is a fetch failure: the body
/// counts as the key whatever the status.
pub open spec fn key_yield(
    response: Result<HttpResponse, TransportError>,
    iv: Option<Seq<char>>,
    index: nat,
) -> Result<(Seq<u8>, Seq<u8>), ChunkError> {
    match response {
        Err(t) => Err(ChunkError::Fetch(t)),
        Ok(reply) => match iv_for(iv, index) {
            Some(iv_bytes) => Ok((fitted(reply.body@), iv_bytes)),
            None => Err(ChunkError::IvDecode),
        },
    }
}

/// Makes the key material for the segment at `index` out of the response to
/// the key request.
pub fn key_from_response(
    response: Result<HttpResponse, TransportError>,
    iv: &Option<String>,
    index: usize,
) -> (r: Result<KeyMaterial, ChunkError>)
    ensures
        match r {
            Ok(m) => key_yield(response, text_of(*iv), index as nat) == Ok::<
                (Seq<u8>, Seq<u8>),
                ChunkError,
            >((m.key_bytes(), m.iv_bytes())),
            Err(e) => key_yield(response, text_of(*iv), index as nat) == Err::<
                (Seq<u8>, Seq<u8>),
                ChunkError,
            >(e),
        },
{
    match response {
        Err(t) => Err(ChunkError::Fetch(t)),
        Ok(reply) => key_material(reply.body, iv, index),
    }
}

/// How the work on one segment begins.
#[derive(Debug, PartialEq, Eq)]
pub enum ChunkStart {
    /// Nothing is requested: the segment is done at once, with this outcome.
    Done(Result<(), ChunkError>),
    /// The run has a key: fetch it from `key_url` first.
    NeedKey { key_url: String },
    /// The run has no key: fetch the segment.
    Fetch,
}

/// Decides how the work on one segment begins, given whether its file exists.
///
/// A segment whose file exists has succeeded, and nothing is requested for
/// it, whatever the run's key descriptor says. One whose key's URI cannot be
/// resolved has failed before anything is requested.
pub fn begin_segment(exists: bool, key_info: &Option<KeyInfo>, base_url: &str) -> (r: ChunkStart)
    ensures
        exists ==> r == ChunkStart::Done(Ok(())),
        !exists && key_info is None ==> r is Fetch,
        !exists && key_info is Some ==> match key_url_for(base_url@, key_info->0.uri@) {
            Some(url) => r matches ChunkStart::NeedKey { key_url } && key_url@ == url,
            None => r == ChunkStart::Done(Err(ChunkError::KeyUri)),
        },
{
    if exists {
        return ChunkStart::Done(Ok(()));
    }
    match key_info {
        None => ChunkStart::Fetch,
        Some(info) => match key_url(base_url, info.uri.as_str()) {
            Ok(url) => ChunkStart::NeedKey { key_url: url },
            Err(e) => ChunkStart::Done(Err(e)),
        },
    }
}

/// The name of the file that holds the segment at `index`.
pub open spec fn segment_file_name(index: nat) -> Seq<char> {
    "index"@ + decimal_digits(index) + ".ts"@
}

/// Names the file that holds the segment at `index`.
pub fn segment_file(index: usize) -> (r: String)
    ensures
        r@ == segment_file_name(index as nat),
{
    let mut name = "index".to_owned();
    let digits = decimal(index);
    name.append(digits.as_str());
    name.append(".ts");
    name
}

/// No two segments share a file.
pub proof fn lemma_segment_files_differ(a: nat, b: nat)
    requires
        segment_file_name(a) == segment_file_name(b),
    ensures
        a == b,
{
    reveal_strlit("index");
    reveal_strlit(".ts");
    let da = decimal_digits(a);
    let db = decimal_digits(b);
    let na = segment_file_name(a);
    let nb = segment_file_name(b);
    assert(na.len() == 5 + da.len() + 3);
    assert(nb.len() == 5 + db.len() + 3);
    assert(da =~= na.subrange(5, na.len() - 3));
    assert(db =~= nb.subrange(5, nb.len() - 3));
    lemma_decimal_digits_injective(a, b);
}

/// Where one segment stands.
#[derive(Clone, Copy, Debug, PartialEq, Eq)]
pub enum ChunkStatus {
    /// Not begun.
    Pending,
    /// Under way.
    Running,
    /// Ended, with this outcome.
    Finished(Result<(), ChunkError>),
}

/// One segment to fetch.
#[derive(Debug, Clone, PartialEq, Eq)]
pub struct ChunkJob {
    /// Its place in the playlist, from zero.
    pub index: usize,
    /// Where it is.
    pub url: String,
    /// The file that will hold it, inside the run's directory.
    pub file_name: String,
}

/// One segment that did not reach the disk.
#[derive(Clone, Copy, Debug, PartialEq, Eq)]
pub struct Failure {
    /// The segment's place in the playlist.
    pub index: usize,
    /// Why it failed.
    pub cause: ChunkError,
}

/// How a run's downloads ended.
#[derive(Debug, Clone, PartialEq, Eq)]
pub struct RunResult {
    /// The number of segments.
    pub total: usize,
    /// How many of them are on disk.
    pub succeeded: usize,
    /// How many failed.
    pub failed: usize,
    /// The failures, by rising index.
    pub failures: Vec<Failure>,
}

/// Why no download was begun.
#[derive(Clone, Copy, Debug, PartialEq, Eq)]
pub enum DownloadError {
    /// The URI of the segment at `index` cannot be resolved against the base
    /// URL.
    UriResolution { index: usize },
}

/// The state of a run's downloads: the most that may be under way at once,
/// how many segments were begun, and where each segment stands.
pub struct CoordinatorModel {
    pub concurrency: nat,
    pub next: nat,
    pub status: Seq<ChunkStatus>,
}

/// How many segments are under way.
pub open spec fn running(status: Seq<ChunkStatus>) -> nat
    decreases status.len(),
{
    if status.len() == 0 {
        0
    } else {
        running(status.drop_last()) + if status.last() is Running {
            1nat
        } else {
            0nat
        }
    }
}

/// How many segments are on disk.
pub open spec fn succeeded(status: Seq<ChunkStatus>) -> nat
    decreases status.len(),
{
    if status.len() == 0 {
        0
    } else {
        succeeded(status.drop_last()) + match status.last() {
            ChunkStatus::Finished(Ok(_)) => 1nat,
            _ => 0nat,
        }
    }
}

/// The segments that failed, each with its index and the cause, by rising
/// index.
pub open spec fn failures_of(status: Seq<ChunkStatus>) -> Seq<(nat, ChunkError)>
    decreases status.len(),
{
    if status.len() == 0 {
        Seq::empty()
    } else {
        let before = failures_of(status.drop_last());
        match status.last() {
            ChunkStatus::Finished(Err(cause)) => before.push(((status.len() - 1) as nat, cause)),
            _ => before,
        }
    }
}

/// A state that a run can reach: segments are begun in playlist order, and
/// no more are under way than the run allows.
pub open spec fn valid_coordinator(m: CoordinatorModel) -> bool {
    &&& m.concurrency >= 1
    &&& m.next <= m.status.len()
    &&& forall|i: int| 0 <= i < m.next ==> !(m.status[i] is Pending)
    &&& forall|i: int| m.next <= i < m.status.len() ==> m.status[i] is Pending
    &&& running(m.status) <= m.concurrency
}

/// The state before anything is begun.
pub open spec fn initial(concurrency: nat, total: nat) -> CoordinatorModel {
    CoordinatorModel {
        concurrency,
        next: 0,
        status: Seq::new(total, |i: int| ChunkStatus::Pending),
    }
}

/// A segment may be begun: one is left, and a slot is free.
pub open spec fn may_launch(m: CoordinatorModel) -> bool {
    m.next < m.status.len() && running(m.status) < m.concurrency
}

/// Begins the next segment in playlist order, if one may be begun.
pub open spec fn launch(m: CoordinatorModel) -> (Option<nat>, CoordinatorModel) {
    if may_launch(m) {
        (
            Some(m.next),
            CoordinatorModel {
                concurrency: m.concurrency,
                next: m.next + 1,
                status: m.status.update(m.next as int, ChunkStatus::Running),
            },
        )
    } else {
        (None, m)
    }
}

/// Records the outcome of the segment at `index`, if that segment is under
/// way; says whether it was.
pub open spec fn complete(m: CoordinatorModel, index: nat, outcome: Result<(), ChunkError>) -> (
    bool,
    CoordinatorModel,
) {
    if index < m.status.len() && m.status[index as int] is Running {
        (
            true,
            CoordinatorModel {
                concurrency: m.concurrency,
                next: m.next,
                status: m.status.update(index as int, ChunkStatus::Finished(outcome)),
            },
        )
    } else {
        (false, m)
    }
}

/// Every segment has its outcome.
pub open spec fn finished(m: CoordinatorModel) -> bool {
    forall|i: int| 0 <= i < m.status.len() ==> m.status[i] is Finished
}

/// Changing one segment's status changes the number under way by that
/// segment alone.
pub proof fn lemma_running_update(status: Seq<ChunkStatus>, i: int, to: ChunkStatus)
    requires
        0 <= i < status.len(),
    ensures
        running(status.update(i, to)) + (if status[i] is Running {
            1nat
        } else {
            0nat
        }) == running(status) + (if to is Running {
            1nat
        } else {
            0nat
        }),
    decreases status.len(),
{
    let updated = status.update(i, to);
    if i == status.len() - 1 {
        assert(updated.drop_last() =~= status.drop_last());
    } else {
        assert(updated.drop_last() =~= status.drop_last().update(i, to));
        lemma_running_update(status.drop_last(), i, to);
    }
}

/// As many segments are under way as there are, at most; none is where no
/// status says so, and one at least where a status says so.
pub proof fn lemma_running_bounds(status: Seq<ChunkStatus>)
    ensures
        running(status) <= status.len(),
        running(status) == 0 <==> forall|i: int| 0 <= i < status.len() ==> !(status[i] is Running),
    decreases status.len(),
{
    if status.len() > 0 {
        let before = status.drop_last();
        lemma_running_bounds(before);
        if running(status) == 0 {
            assert forall|i: int| 0 <= i < status.len() implies !(status[i] is Running) by {
                if i < status.len() - 1 {
                    assert(before[i] == status[i]);
                }
            }
        }
        if forall|i: int| 0 <= i < status.len() ==> !(status[i] is Running) {
            assert forall|i: int| 0 <= i < before.len() implies !(before[i] is Running) by {
                assert(before[i] == status[i]);
            }
        }
    }
}

/// Nothing is under way before anything is begun.
pub proof fn lemma_initial_valid(concurrency: nat, total: nat)
    requires
        concurrency >= 1,
    ensures
        valid_coordinator(initial(concurrency, total)),
        running(initial(concurrency, total).status) == 0,
{
    lemma_running_bounds(initial(concurrency, total).status);
}

/// Beginning a segment keeps the run within its limit: afterwards, as
/// before, no more segments are under way than the run allows.
pub proof fn lemma_launch_keeps_limit(m: CoordinatorModel)
    requires
        valid_coordinator(m),
    ensures
        valid_coordinator(launch(m).1),
        running(launch(m).1.status) <= m.concurrency,
        launch(m).0 is Some ==> running(launch(m).1.status) == running(m.status) + 1,
{
    if may_launch(m) {
        lemma_running_update(m.status, m.next as int, ChunkStatus::Running);
    }
}

/// Recording an outcome frees a slot and touches no other segment, whether
/// the outcome is a success or a failure.
pub proof fn lemma_complete_touches_one(
    m: CoordinatorModel,
    index: nat,
    outcome: Result<(), ChunkError>,
)
    requires
        valid_coordinator(m),
    ensures
        valid_coordinator(complete(m, index, outcome).1),
        complete(m, index, outcome).1.status.len() == m.status.len(),
        forall|j: int|
            0 <= j < m.status.len() && j != index ==> complete(m, index, outcome).1.status[j]
                == m.status[j],
        complete(m, index, outcome).0 ==> running(complete(m, index, outcome).1.status) + 1
            == running(m.status),
        may_launch(m) ==> may_launch(complete(m, index, outcome).1),
{
    if complete(m, index, outcome).0 {
        lemma_running_update(m.status, index as int, ChunkStatus::Finished(outcome));
    }
}

/// A run never stalls: while a segment lacks its outcome, one is under way
/// or the next may be begun, whatever the outcomes so far.
pub proof fn lemma_run_goes_on(m: CoordinatorModel)
    requires
        valid_coordinator(m),
        !finished(m),
    ensures
        running(m.status) > 0 || may_launch(m),
{
    lemma_running_bounds(m.status);
    if running(m.status) == 0 && m.next == m.status.len() {
        assert forall|i: int| 0 <= i < m.status.len() implies m.status[i] is Finished by {
            assert(!(m.status[i] is Pending));
            assert(!(m.status[i] is Running));
        }
    }
}

/// A segment that failed is among the failures: with one failed segment
/// the count of failures is not zero.
pub proof fn lemma_failure_is_counted(status: Seq<ChunkStatus>, index: int, cause: ChunkError)
    requires
        0 <= index < status.len(),
        status[index] == ChunkStatus::Finished(Err(cause)),
    ensures
        failures_of(status).len() > 0,
    decreases status.len(),
{
    if index < status.len() - 1 {
        lemma_failure_is_counted(status.drop_last(), index, cause);
    }
}

/// Every segment is counted once: as on disk, as failed, or as not yet
/// ended.
pub proof fn lemma_counts(status: Seq<ChunkStatus>)
    ensures
        succeeded(status) + failures_of(status).len() <= status.len(),
        (forall|i: int| 0 <= i < status.len() ==> status[i] is Finished) ==> succeeded(status)
            + failures_of(status).len() == status.len(),
        forall|k: int|
            0 <= k < failures_of(status).len() ==> {
                let f = #[trigger] failures_of(status)[k];
                f.0 < status.len() && status[f.0 as int] == ChunkStatus::Finished(Err(f.1))
            },
    decreases status.len(),
{
    if status.len() > 0 {
        let before = status.drop_last();
        lemma_counts(before);
        if forall|i: int| 0 <= i < status.len() ==> status[i] is Finished {
            assert forall|i: int| 0 <= i < before.len() implies before[i] is Finished by {
                assert(before[i] == status[i]);
            }
        }
        assert forall|k: int| 0 <= k < failures_of(status).len() implies {
            let f = #[trigger] failures_of(status)[k];
            f.0 < status.len() && status[f.0 as int] == ChunkStatus::Finished(Err(f.1))
        } by {
            if k < failures_of(before).len() {
                let f = failures_of(before)[k];
                assert(failures_of(status)[k] == f);
                assert(before[f.0 as int] == status[f.0 as int]);
            }
        }
    }
}

/// Moves the segment at `index` on to `to`: a pending one is begun, one under
/// way is ended. The counts follow.
fn mark(
    status: &mut Vec<ChunkStatus>,
    next: &mut usize,
    running_now: &mut usize,
    index: usize,
    to: ChunkStatus,
)
    requires
        index < old(status)@.len(),
        *old(running_now) == running(old(status)@),
        to is Running ==> index == *old(next) && old(status)@[index as int] is Pending,
        to is Finished ==> old(status)@[index as int] is Running,
        !(to is Pending),
    ensures
        final(status)@ == old(status)@.update(index as int, to),
        *final(running_now) == running(final(status)@),
        to is Running ==> *final(next) == *old(next) + 1,
        to is Finished ==> *final(next) == *old(next),
    no_unwind
{
    proof {
        assert(status.len() == status@.len());
        lemma_running_update(status@, index as int, to);
        lemma_running_bounds(status@);
        lemma_running_bounds(status@.update(index as int, to));
    }
    status[index] = to;
    match to {
        ChunkStatus::Running => {
            *next = *next + 1;
            *running_now = *running_now + 1;
        },
        _ => {
            *running_now = *running_now - 1;
        },
    }
}

/// The downloads of one run: which segments there are, which of them are
/// under way, and how each one ended.
#[derive(Debug)]
pub struct Coordinator {
    jobs: Vec<ChunkJob>,
    status: Vec<ChunkStatus>,
    concurrency: usize,
    next: usize,
    running: usize,
    base_url: String,
    key_info: Option<KeyInfo>,
}

impl View for Coordinator {
    type V = CoordinatorModel;

    closed spec fn view(&self) -> CoordinatorModel {
        CoordinatorModel {
            concurrency: self.concurrency as nat,
            next: self.next as nat,
            status: self.status@,
        }
    }
}

impl Coordinator {
    #[verifier::type_invariant]
    closed spec fn inv(&self) -> bool {
        &&& valid_coordinator(self@)
        &&& self.jobs@.len() == self.status@.len()
        &&& self.running == running(self.status@)
    }

    /// The segments of the run, in playlist order.
    pub closed spec fn jobs(&self) -> Seq<ChunkJob> {
        self.jobs@
    }

    /// The URL that the segments' URIs were resolved against.
    pub closed spec fn base(&self) -> Seq<char> {
        self.base_url@
    }

    /// The key descriptor of the run.
    pub closed spec fn key(&self) -> Option<KeyInfo> {
        self.key_info
    }

    /// The number of segments.
    pub fn len(&self) -> (r: usize)
        ensures
            r == self@.status.len(),
            r == self.jobs().len(),
    {
        proof {
            use_type_invariant(self);
        }
        self.status.len()
    }

    /// The number of segments under way.
    pub fn in_flight(&self) -> (r: usize)
        ensures
            r == running(self@.status),
            r <= self@.concurrency,
    {
        proof {
            use_type_invariant(self);
        }
        self.running
    }

    /// The segment at `index`, where there is one.
    pub fn job(&self, index: usize) -> (r: Option<&ChunkJob>)
        ensures
            index < self.jobs().len() ==> r == Some(&self.jobs()[index as int]),
            index >= self.jobs().len() ==> r is None,
    {
        if index < self.jobs.len() {
            Some(&self.jobs[index])
        } else {
            None
        }
    }

    /// Where the segment at `index` stands, where there is one.
    pub fn status(&self, index: usize) -> (r: Option<ChunkStatus>)
        ensures
            index < self@.status.len() ==> r == Some(self@.status[index as int]),
            index >= self@.status.len() ==> r is None,
    {
        if index < self.status.len() {
            Some(self.status[index])
        } else {
            None
        }
    }

    /// The URL that the key's URI is resolved against.
    pub fn base_url(&self) -> (r: &str)
        ensures
            r@ == self.base(),
    {
        self.base_url.as_str()
    }

    /// The key descriptor that every segment of the run is decrypted by.
    pub fn key_info(&self) -> (r: &Option<KeyInfo>)
        ensures
            *r == self.key(),
    {
        &self.key_info
    }

    /// Begins the next segment in playlist order and gives its index, or
    /// gives `None` where none is left or as many are under way as the run
    /// allows.
    pub fn next_task(&mut self) -> (r: Option<usize>)
        ensures
            launch(old(self)@) == (
                match r {
                    Some(i) => Some(i as nat),
                    None => None,
                },
                final(self)@,
            ),
            valid_coordinator(final(self)@),
            running(final(self)@.status) <= final(self)@.concurrency,
            final(self).jobs() == old(self).jobs(),
            final(self).base() == old(self).base(),
            final(self).key() == old(self).key(),
    {
        proof {
            use_type_invariant(&*self);
            lemma_launch_keeps_limit(self@);
        }
        if self.next < self.status.len() && self.running < self.concurrency {
            let index = self.next;
            mark(&mut self.status, &mut self.next, &mut self.running, index, ChunkStatus::Running);
            Some(index)
        } else {
            None
        }
    }

    /// Records how the segment at `index` ended and frees its slot. Says
    /// `false`, and changes nothing, where that segment is not under way.
    pub fn complete(&mut self, index: usize, outcome: Result<(), ChunkError>) -> (r: bool)
        ensures
            complete(old(self)@, index as nat, outcome) == (r, final(self)@),
            valid_coordinator(final(self)@),
            final(self).jobs() == old(self).jobs(),
            final(self).base() == old(self).base(),
            final(self).key() == old(self).key(),
    {
        proof {
            use_type_invariant(&*self);
            lemma_complete_touches_one(self@, index as nat, outcome);
        }
        if index < self.status.len() {
            match self.status[index] {
                ChunkStatus::Running => {
                    proof {
                        lemma_running_bounds(self.status@);
                    }
                    mark(
                        &mut self.status,
                        &mut self.next,
                        &mut self.running,
                        index,
                        ChunkStatus::Finished(outcome),
                    );
                    true
                },
                _ => false,
            }
        } else {
            false
        }
    }

    /// Tells whether every segment has its outcome.
    pub fn is_finished(&self) -> (r: bool)
        ensures
            r == finished(self@),
    {
        proof {
            use_type_invariant(self);
            lemma_running_bounds(self.status@);
            if self.next == self.status@.len() && self.running == 0 {
                assert forall|i: int| 0 <= i < self.status@.len() implies self.status@[i]
                    is Finished by {
                    assert(!(self.status@[i] is Pending));
                    assert(!(self.status@[i] is Running));
                }
            }
            if self.next < self.status@.len() {
                assert(self.status@[self.next as int] is Pending);
            }
        }
        self.next == self.status.len() && self.running == 0
    }

    /// Counts the outcomes so far and lists the failures.
    pub fn summary(&self) -> (r: RunResult)
        ensures
            r.total == self@.status.len(),
            r.succeeded == succeeded(self@.status),
            r.failed == failures_of(self@.status).len(),
            r.failures@.len() == r.failed,
            forall|k: int|
                0 <= k < r.failures@.len() ==> (r.failures@[k].index as nat, r.failures@[k].cause)
                    == #[trigger] failures_of(self@.status)[k],
            finished(self@) ==> r.succeeded + r.failed == r.total,
    {
        let total = self.status.len();
        let mut succeeded_count: usize = 0;
        let mut failures: Vec<Failure> = Vec::new();
        let mut i: usize = 0;
        proof {
            lemma_counts(self.status@);
            assert(self.status@.subrange(0, 0) =~= Seq::<ChunkStatus>::empty());
        }
        while i < total
            invariant
                i <= total,
                total == self.status@.len(),
                succeeded_count == succeeded(self.status@.subrange(0, i as int)),
                failures@.len() == failures_of(self.status@.subrange(0, i as int)).len(),
                forall|k: int|
                    0 <= k < failures@.len() ==> (failures@[k].index as nat, failures@[k].cause)
                        == #[trigger] failures_of(self.status@.subrange(0, i as int))[k],
            decreases total - i,
        {
            proof {
                let now = self.status@.subrange(0, i + 1);
                assert(now.drop_last() =~= self.status@.subrange(0, i as int));
                assert(now.last() == self.status@[i as int]);
                lemma_counts(now);
            }
            match self.status[i] {
                ChunkStatus::Finished(Ok(_)) => {
                    succeeded_count = succeeded_count + 1;
                },
                ChunkStatus::Finished(Err(cause)) => {
                    failures.push(Failure { index: i, cause });
                },
                _ => {},
            }
            i = i + 1;
        }
        proof {
            assert(self.status@.subrange(0, total as int) =~= self.status@);
        }
        let failed = failures.len();
        RunResult { total, succeeded: succeeded_count, failed, failures }
    }
}

/// Plans the download of `segments`: resolves every segment's URI against
/// `base_url` and names its file, before anything is requested.
///
/// One URI that cannot be resolved fails the whole run; the error names the
/// first such segment.
pub fn download_segments(
    segments: &[MediaSegment],
    base_url: &str,
    max_concurrency: usize,
    key_info: Option<KeyInfo>,
) -> (r: Result<Coordinator, DownloadError>)
    requires
        max_concurrency >= 1,
    ensures
        match r {
            Ok(c) => {
                &&& c@ == initial(max_concurrency as nat, segments@.len())
                &&& valid_coordinator(c@)
                &&& c.jobs().len() == segments@.len()
                &&& c.base() == base_url@
                &&& c.key() == key_info
                &&& forall|i: int|
                    0 <= i < segments@.len() ==> {
                        &&& (#[trigger] c.jobs()[i]).index == i
                        &&& joined_url(base_url@, segments@[i].uri@) == Some(c.jobs()[i].url@)
                        &&& c.jobs()[i].file_name@ == segment_file_name(i as nat)
                    }
            },
            Err(e) => {
                &&& e matches DownloadError::UriResolution { index }
                &&& index < segments@.len()
                &&& joined_url(base_url@, segments@[index as int].uri@) is None
                &&& forall|j: int|
                    0 <= j < index ==> joined_url(base_url@, (#[trigger] segments@[j]).uri@) is Some
            },
        },
{
    let total = segments.len();
    let mut jobs: Vec<ChunkJob> = Vec::new();
    let mut status: Vec<ChunkStatus> = Vec::new();
    let mut i: usize = 0;
    while i < total
        invariant
            i <= total,
            total == segments@.len(),
            jobs@.len() == i,
            status@.len() == i,
            forall|k: int| 0 <= k < i ==> status@[k] is Pending,
            forall|k: int|
                0 <= k < i ==> {
                    &&& (#[trigger] jobs@[k]).index == k
                    &&& joined_url(base_url@, segments@[k].uri@) == Some(jobs@[k].url@)
                    &&& jobs@[k].file_name@ == segment_file_name(k as nat)
                },
        decreases total - i,
    {
        match join_url(base_url, segments[i].uri.as_str()) {
            Some(url) => {
                jobs.push(ChunkJob { index: i, url, file_name: segment_file(i) });
                status.push(ChunkStatus::Pending);
            },
            None => {
                proof {
                    assert forall|j: int| 0 <= j < i implies joined_url(
                        base_url@,
                        (#[trigger] segments@[j]).uri@,
                    ) is Some by {
                        assert(jobs@[j].index == j);
                    }
                }
                return Err(DownloadError::UriResolution { index: i });
            },
        }
        i = i + 1;
    }
    proof {
        assert(status@ =~= initial(max_concurrency as nat, total as nat).status);
        lemma_initial_valid(max_concurrency as nat, total as nat);
    }
    Ok(
        Coordinator {
            jobs,
            status,
            concurrency: max_concurrency,
            next: 0,
            running: 0,
            base_url: base_url.to_owned(),
            key_info,
        },
    )
}

} // verus!
