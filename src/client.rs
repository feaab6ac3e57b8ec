use vstd::prelude::*;

use crate::locator::{decimal, push_decimal};
use crate::settings::HASH_SIZE;

verus! {

/// Failures of the verifier client.
#[derive(Clone, Debug, PartialEq, Eq)]
pub enum VerifierError {
    FailedToJoinQueue,
    FailedLock,
    FailedVerification(u64),
    FailedResponseDownload(String),
    FailedChallengeDownload(String),
    FailedChallengeUpload(String),
    MismatchedResponseHashes,
    MalformedSignedFile,
}

#[derive(Clone, Copy, Debug, PartialEq, Eq, Structural)]
pub enum Method {
    Get,
    Post,
}

/// An HTTP request to the coordinator, before it is signed and sent.
#[derive(Clone, Debug)]
pub struct Request {
    pub method: Method,
    pub path: String,
}

/// The coordinator's answer to a verifier that asks for a lock.
#[derive(Clone, Debug)]
pub struct LockResponse {
    pub chunk_id: u64,
    pub contribution_id: u64,
    pub challenge_locator: String,
    pub response_locator: String,
    pub next_challenge_locator: String,
}

pub fn join_queue_request() -> (r: Request)
    ensures
        r.method == Method::Post,
        r.path@ == "/v1/queue/verifier/join"@,
{
    Request { method: Method::Post, path: String::from_str("/v1/queue/verifier/join") }
}

pub fn lock_chunk_request() -> (r: Request)
    ensures
        r.method == Method::Post,
        r.path@ == "/v1/verifier/try_lock"@,
{
    Request { method: Method::Post, path: String::from_str("/v1/verifier/try_lock") }
}

pub fn verify_contribution_request(chunk_id: u64) -> (r: Request)
    ensures
        r.method == Method::Post,
        r.path@ == "/v1/verifier/try_verify/"@ + decimal(chunk_id as nat),
{
    let mut path = String::from_str("/v1/verifier/try_verify/");
    push_decimal(&mut path, chunk_id);
    Request { method: Method::Post, path }
}

pub fn download_response_request(response_locator: &str) -> (r: Request)
    ensures
        r.method == Method::Get,
        r.path@ == "/v1/download/response/"@ + response_locator@,
{
    let mut path = String::from_str("/v1/download/response/");
    path.append(response_locator);
    Request { method: Method::Get, path }
}

pub fn download_challenge_request(challenge_locator: &str) -> (r: Request)
    ensures
        r.method == Method::Get,
        r.path@ == "/v1/download/challenge/"@ + challenge_locator@,
{
    let mut path = String::from_str("/v1/download/challenge/");
    path.append(challenge_locator);
    Request { method: Method::Get, path }
}

pub fn upload_challenge_request(next_challenge_locator: &str) -> (r: Request)
    ensures
        r.method == Method::Post,
        r.path@ == "/v1/upload/challenge/"@ + next_challenge_locator@,
{
    let mut path = String::from_str("/v1/upload/challenge/");
    path.append(next_challenge_locator);
    Request { method: Method::Post, path }
}

/// `s` with every `./` taken out, scanning from the front.
pub open spec fn without_dot_slash(s: Seq<char>) -> Seq<char>
    decreases s.len(),
{
    if s.len() == 0 {
        s
    } else if s.len() >= 2 && s[0] == '.' && s[1] == '/' {
        without_dot_slash(s.skip(2))
    } else {
        seq![s[0]] + without_dot_slash(s.skip(1))
    }
}

/// The path that a request's signature covers: its path with every `./`
/// taken out.
pub fn signature_path(path: &str) -> (r: String)
    ensures
        r@ == without_dot_slash(path@),
{
    let n = path.unicode_len();
    let mut out = String::new();
    let mut start: usize = 0;
    let mut i: usize = 0;
    proof {
        assert(path@.skip(0) =~= path@);
        assert(out@ + path@.subrange(0, 0) =~= Seq::<char>::empty());
    }
    while i < n
        invariant
            n == path@.len(),
            start <= i <= n,
            out@ + path@.subrange(start as int, i as int) + without_dot_slash(path@.skip(i as int))
                == without_dot_slash(path@),
        decreases n - i,
    {
        let ghost s = path@;
        if i + 1 < n && path.get_char(i) == '.' && path.get_char(i + 1) == '/' {
            let piece = path.substring_char(start, i);
            proof {
                assert(s.skip(i as int).skip(2) =~= s.skip(i + 2));
                assert(without_dot_slash(s.skip(i as int)) == without_dot_slash(s.skip(i + 2)));
            }
            out.append(piece);
            i = i + 2;
            start = i;
            proof {
                assert(s.subrange(start as int, i as int) =~= Seq::<char>::empty());
            }
        } else {
            proof {
                assert(s.skip(i as int).skip(1) =~= s.skip(i + 1));
                assert(without_dot_slash(s.skip(i as int)) == seq![s[i as int]] + without_dot_slash(
                    s.skip(i + 1),
                ));
                assert(s.subrange(start as int, i + 1) =~= s.subrange(start as int, i as int).push(
                    s[i as int],
                ));
            }
            i = i + 1;
        }
    }
    let piece = path.substring_char(start, n);
    proof {
        assert(path@.skip(n as int) =~= Seq::<char>::empty());
    }
    out.append(piece);
    out
}

/// Whether `bytes` begins with `hash`.
pub open spec fn starts_with(bytes: Seq<u8>, hash: Seq<u8>) -> bool {
    hash.len() <= bytes.len() && bytes.subrange(0, hash.len() as int) == hash
}

/// A verifier's output begins with the hash of the response it was made
/// from; a mismatch means the output does not follow from that response.
pub fn check_response_hash(next_challenge: &[u8], response_hash: &[u8]) -> (r: Result<(), VerifierError>)
    ensures
        r is Ok <==> response_hash@.len() == HASH_SIZE && starts_with(next_challenge@, response_hash@),
        r is Err ==> r == Err::<(), VerifierError>(VerifierError::MismatchedResponseHashes),
{
    if response_hash.len() != HASH_SIZE as usize || next_challenge.len() < response_hash.len() {
        return Err(VerifierError::MismatchedResponseHashes);
    }
    let n = response_hash.len();
    let mut i: usize = 0;
    while i < n
        invariant
            n == response_hash@.len(),
            n <= next_challenge@.len(),
            i <= n,
            forall|j: int| 0 <= j < i ==> next_challenge@[j] == response_hash@[j],
        decreases n - i,
    {
        if next_challenge[i] != response_hash[i] {
            assert(next_challenge@.subrange(0, n as int)[i as int] != response_hash@[i as int]);
            return Err(VerifierError::MismatchedResponseHashes);
        }
        i = i + 1;
    }
    assert(next_challenge@.subrange(0, n as int) =~= response_hash@);
    Ok(())
}

/// The little-endian bytes of `n`.
pub open spec fn le_bytes(n: u32) -> Seq<u8> {
    seq![
        (n % 256) as u8,
        ((n / 256) % 256) as u8,
        ((n / 65536) % 256) as u8,
        (n / 16777216) as u8,
    ]
}

/// A signed file: the signature's length in four little-endian bytes, the
/// signature, then the body.
pub open spec fn signed_file(signature: Seq<u8>, body: Seq<u8>) -> Seq<u8> {
    le_bytes(signature.len() as u32) + signature + body
}

fn append_bytes(out: &mut Vec<u8>, b: &[u8])
    ensures
        final(out)@ == old(out)@ + b@,
{
    let mut i: usize = 0;
    while i < b.len()
        invariant
            i <= b@.len(),
            out@ == old(out)@ + b@.subrange(0, i as int),
        decreases b@.len() - i,
    {
        out.push(b[i]);
        i = i + 1;
        assert(out@ =~= old(out)@ + b@.subrange(0, i as int));
    }
    assert(b@.subrange(0, b@.len() as int) =~= b@);
}

/// Frames a signature and the file it signs.
pub fn frame_signed_file(signature: &[u8], body: &[u8]) -> (r: Vec<u8>)
    requires
        signature@.len() <= u32::MAX,
    ensures
        r@ == signed_file(signature@, body@),
{
    let n = signature.len() as u32;
    let mut out: Vec<u8> = Vec::new();
    out.push((n % 256) as u8);
    out.push(((n / 256) % 256) as u8);
    out.push(((n / 65536) % 256) as u8);
    out.push((n / 16777216) as u8);
    append_bytes(&mut out, signature);
    append_bytes(&mut out, body);
    assert(out@ =~= signed_file(signature@, body@));
    out
}

fn copy_range(bytes: &[u8], from: usize, to: usize) -> (r: Vec<u8>)
    requires
        from <= to <= bytes@.len(),
    ensures
        r@ == bytes@.subrange(from as int, to as int),
{
    let mut out: Vec<u8> = Vec::new();
    let mut i: usize = from;
    while i < to
        invariant
            from <= i <= to,
            to <= bytes@.len(),
            out@ == bytes@.subrange(from as int, i as int),
        decreases to - i,
    {
        out.push(bytes[i]);
        i = i + 1;
        assert(out@ =~= bytes@.subrange(from as int, i as int));
    }
    out
}

proof fn lemma_le_bytes_value(n: u32)
    ensures
        le_bytes(n)[0] as int + 256 * (le_bytes(n)[1] as int) + 65536 * (le_bytes(n)[2] as int)
            + 16777216 * (le_bytes(n)[3] as int) == n as int,
{
}

/// Splits a signed file into its signature and its body; refused when the
/// bytes are shorter than the length they announce.
pub fn parse_signed_file(bytes: &[u8]) -> (r: Result<(Vec<u8>, Vec<u8>), VerifierError>)
    ensures
        r is Ok ==> bytes@ == signed_file(r->Ok_0.0@, r->Ok_0.1@),
        r is Err ==> r == Err::<(Vec<u8>, Vec<u8>), VerifierError>(VerifierError::MalformedSignedFile),
        (exists|s: Seq<u8>, b: Seq<u8>| s.len() <= u32::MAX && bytes@ == signed_file(s, b)) ==> r is Ok,
{
    if bytes.len() < 4 {
        proof {
            assert forall|s: Seq<u8>, b: Seq<u8>| s.len() <= u32::MAX implies bytes@ != signed_file(s, b) by {
                assert(signed_file(s, b).len() >= 4);
            }
        }
        return Err(VerifierError::MalformedSignedFile);
    }
    let n: u64 = bytes[0] as u64 + 256 * (bytes[1] as u64) + 65536 * (bytes[2] as u64) + 16777216
        * (bytes[3] as u64);
    proof {
        assert forall|s: Seq<u8>, b: Seq<u8>| s.len() <= u32::MAX && bytes@ == signed_file(s, b) implies n == s.len() by {
            lemma_le_bytes_value(s.len() as u32);
            assert(bytes@[0] == le_bytes(s.len() as u32)[0]);
            assert(bytes@[1] == le_bytes(s.len() as u32)[1]);
            assert(bytes@[2] == le_bytes(s.len() as u32)[2]);
            assert(bytes@[3] == le_bytes(s.len() as u32)[3]);
        }
    }
    if n > (bytes.len() - 4) as u64 {
        proof {
            assert forall|s: Seq<u8>, b: Seq<u8>| s.len() <= u32::MAX implies bytes@ != signed_file(s, b) by {
                if bytes@ == signed_file(s, b) {
                    assert(signed_file(s, b).len() == 4 + s.len() + b.len());
                }
            }
        }
        return Err(VerifierError::MalformedSignedFile);
    }
    let end = 4 + n as usize;
    let signature = copy_range(bytes, 4, end);
    let body = copy_range(bytes, end, bytes.len());
    proof {
        let len = signature@.len();
        assert(len == n);
        assert(n <= u32::MAX) by {
            assert(n <= 255 + 256 * 255 + 65536 * 255 + 16777216 * 255);
        }
        assert(le_bytes(n as u32) =~= bytes@.subrange(0, 4)) by {
            let b0 = bytes@[0] as int;
            let b1 = bytes@[1] as int;
            let b2 = bytes@[2] as int;
            let b3 = bytes@[3] as int;
            assert(n == b0 + 256 * b1 + 65536 * b2 + 16777216 * b3);
            assert((n as u32) % 256 == b0) by (nonlinear_arith)
                requires
                    n == b0 + 256 * b1 + 65536 * b2 + 16777216 * b3,
                    0 <= b0 < 256,
                    0 <= b1 < 256,
                    0 <= b2 < 256,
                    0 <= b3 < 256,
            ;
            assert(((n as u32) / 256) % 256 == b1) by (nonlinear_arith)
                requires
                    n == b0 + 256 * b1 + 65536 * b2 + 16777216 * b3,
                    0 <= b0 < 256,
                    0 <= b1 < 256,
                    0 <= b2 < 256,
                    0 <= b3 < 256,
            ;
            assert(((n as u32) / 65536) % 256 == b2) by (nonlinear_arith)
                requires
                    n == b0 + 256 * b1 + 65536 * b2 + 16777216 * b3,
                    0 <= b0 < 256,
                    0 <= b1 < 256,
                    0 <= b2 < 256,
                    0 <= b3 < 256,
            ;
            assert((n as u32) / 16777216 == b3) by (nonlinear_arith)
                requires
                    n == b0 + 256 * b1 + 65536 * b2 + 16777216 * b3,
                    0 <= b0 < 256,
                    0 <= b1 < 256,
                    0 <= b2 < 256,
                    0 <= b3 < 256,
            ;
        }
        assert(bytes@ =~= signed_file(signature@, body@));
    }
    Ok((signature, body))
}

/// The wait before retry number `attempt` (from 0): `base_ms` doubled per
/// attempt, never more than `ceiling_ms`.
pub open spec fn backoff(attempt: nat, base_ms: nat, ceiling_ms: nat) -> nat
    decreases attempt,
{
    if attempt == 0 {
        if base_ms < ceiling_ms {
            base_ms
        } else {
            ceiling_ms
        }
    } else {
        let previous = backoff((attempt - 1) as nat, base_ms, ceiling_ms);
        if 2 * previous < ceiling_ms {
            2 * previous
        } else {
            ceiling_ms
        }
    }
}

pub fn backoff_delay(attempt: u32, base_ms: u64, ceiling_ms: u64) -> (r: u64)
    ensures
        r == backoff(attempt as nat, base_ms as nat, ceiling_ms as nat),
        r <= ceiling_ms,
{
    let mut delay: u64 = if base_ms < ceiling_ms {
        base_ms
    } else {
        ceiling_ms
    };
    let mut i: u32 = 0;
    while i < attempt
        invariant
            i <= attempt,
            delay == backoff(i as nat, base_ms as nat, ceiling_ms as nat),
            delay <= ceiling_ms,
        decreases attempt - i,
    {
        delay = if delay < ceiling_ms / 2 + 1 && 2 * delay < ceiling_ms {
            2 * delay
        } else {
            ceiling_ms
        };
        i = i + 1;
    }
    delay
}

/// Where the verifier's loop stands.
#[derive(Clone, Copy, Debug, PartialEq, Eq, Structural)]
pub enum Stage {
    Joining,
    Locking,
    DownloadingResponse,
    DownloadingChallenge,
    Verifying,
    UploadingChallenge,
    ConfirmingVerification,
}

/// The verifier's loop between two steps: its stage, how many times in a
/// row the current request failed, and the chunk it holds, if any.
#[derive(Clone, Debug)]
pub struct VerifierState {
    pub stage: Stage,
    pub attempt: u32,
    pub lock: Option<LockResponse>,
}

/// What came of the last action.
#[derive(Clone, Debug)]
pub enum Event {
    /// The request or the verification succeeded.
    Succeeded,
    /// The coordinator granted a lock.
    Locked(LockResponse),
    /// The request failed; a transient failure is retried, another one
    /// gives up the chunk.
    Failed(bool),
    /// The verifier's output does not follow from the response.
    HashMismatch,
}

/// What the loop does next.
#[derive(Clone, Debug)]
pub enum Action {
    Send(Request),
    /// Waits the given milliseconds, then sends.
    SendAfter(Request, u64),
    /// Runs the verification on the downloaded files.
    Verify,
    /// Reports the failure, then sends.
    Report(VerifierError, Request),
}

pub open spec fn holds_chunk(stage: Stage) -> bool {
    !(stage is Joining || stage is Locking)
}

impl VerifierState {
    pub open spec fn wf(&self) -> bool {
        holds_chunk(self.stage) <==> self.lock is Some
    }
}

pub open spec fn stage_method(stage: Stage) -> Method {
    if stage is DownloadingResponse || stage is DownloadingChallenge {
        Method::Get
    } else {
        Method::Post
    }
}

/// The path of the request that a stage sends.
pub open spec fn stage_path(stage: Stage, lock: Option<LockResponse>) -> Seq<char> {
    match stage {
        Stage::Joining => "/v1/queue/verifier/join"@,
        Stage::Locking => "/v1/verifier/try_lock"@,
        Stage::DownloadingResponse => "/v1/download/response/"@ + lock->0.response_locator@,
        Stage::DownloadingChallenge => "/v1/download/challenge/"@ + lock->0.challenge_locator@,
        Stage::Verifying => Seq::empty(),
        Stage::UploadingChallenge => "/v1/upload/challenge/"@ + lock->0.next_challenge_locator@,
        Stage::ConfirmingVerification => "/v1/verifier/try_verify/"@ + decimal(
            lock->0.chunk_id as nat,
        ),
    }
}

pub open spec fn is_request_of(r: Request, stage: Stage, lock: Option<LockResponse>) -> bool {
    r.method == stage_method(stage) && r.path@ == stage_path(stage, lock)
}

/// The stage after a success.
pub open spec fn stage_after(stage: Stage) -> Stage {
    match stage {
        Stage::Joining => Stage::Locking,
        Stage::Locking => Stage::Locking,
        Stage::DownloadingResponse => Stage::DownloadingChallenge,
        Stage::DownloadingChallenge => Stage::Verifying,
        Stage::Verifying => Stage::UploadingChallenge,
        Stage::UploadingChallenge => Stage::ConfirmingVerification,
        Stage::ConfirmingVerification => Stage::Locking,
    }
}

/// The error that a failure at a stage reports, the chunk given.
pub open spec fn stage_error(stage: Stage, lock: Option<LockResponse>, e: VerifierError) -> bool {
    match stage {
        Stage::Joining => e == VerifierError::FailedToJoinQueue,
        Stage::Locking => e == VerifierError::FailedLock,
        Stage::DownloadingResponse => e is FailedResponseDownload && e->FailedResponseDownload_0@
            == lock->0.response_locator@,
        Stage::DownloadingChallenge => e is FailedChallengeDownload && e->FailedChallengeDownload_0@
            == lock->0.challenge_locator@,
        Stage::UploadingChallenge => e is FailedChallengeUpload && e->FailedChallengeUpload_0@
            == lock->0.next_challenge_locator@,
        _ => e == VerifierError::FailedVerification(lock->0.chunk_id),
    }
}

/// The request that `stage` sends.
pub fn stage_request(stage: Stage, lock: &Option<LockResponse>) -> (r: Request)
    requires
        holds_chunk(stage) ==> lock is Some,
    ensures
        is_request_of(r, stage, *lock),
{
    match stage {
        Stage::Joining => join_queue_request(),
        Stage::Locking => lock_chunk_request(),
        Stage::DownloadingResponse => download_response_request(
            lock.as_ref().unwrap().response_locator.as_str(),
        ),
        Stage::DownloadingChallenge => download_challenge_request(
            lock.as_ref().unwrap().challenge_locator.as_str(),
        ),
        Stage::Verifying => Request { method: Method::Post, path: String::new() },
        Stage::UploadingChallenge => upload_challenge_request(
            lock.as_ref().unwrap().next_challenge_locator.as_str(),
        ),
        Stage::ConfirmingVerification => verify_contribution_request(lock.as_ref().unwrap().chunk_id),
    }
}

fn stage_failure(stage: Stage, lock: &Option<LockResponse>) -> (e: VerifierError)
    requires
        holds_chunk(stage) ==> lock is Some,
    ensures
        stage_error(stage, *lock, e),
{
    match stage {
        Stage::Joining => VerifierError::FailedToJoinQueue,
        Stage::Locking => VerifierError::FailedLock,
        Stage::DownloadingResponse => VerifierError::FailedResponseDownload(
            lock.as_ref().unwrap().response_locator.clone(),
        ),
        Stage::DownloadingChallenge => VerifierError::FailedChallengeDownload(
            lock.as_ref().unwrap().challenge_locator.clone(),
        ),
        Stage::UploadingChallenge => VerifierError::FailedChallengeUpload(
            lock.as_ref().unwrap().next_challenge_locator.clone(),
        ),
        _ => VerifierError::FailedVerification(lock.as_ref().unwrap().chunk_id),
    }
}

impl VerifierState {
    /// A verifier that has yet to join the queue.
    pub fn start() -> (r: VerifierState)
        ensures
            r.wf(),
            r.stage == Stage::Joining,
            r.attempt == 0,
    {
        VerifierState { stage: Stage::Joining, attempt: 0, lock: None }
    }

    /// Decides the next state and action from the outcome of the last
    /// action. A success moves to the next stage (after confirming a
    /// verification, back to asking for a lock); a lock moves from asking
    /// for one to downloading; a transient failure retries the same
    /// request after an exponentially growing wait; any other failure, or
    /// a hash mismatch, is reported and gives up the chunk. An event that
    /// does not fit the stage sends the stage's request again.
    pub fn step(self, event: Event, base_ms: u64, ceiling_ms: u64) -> (r: (VerifierState, Action))
        requires
            self.wf(),
        ensures
            r.0.wf(),
            ({
                let (next, action) = r;
                match event {
                    Event::Succeeded => if self.stage is Locking {
                        &&& next.stage == Stage::Locking
                        &&& next.attempt == if self.attempt < u32::MAX { self.attempt + 1 } else { self.attempt as int }
                        &&& action is SendAfter
                        &&& is_request_of(action->SendAfter_0, Stage::Locking, None)
                        &&& action->SendAfter_1 == backoff(self.attempt as nat, base_ms as nat, ceiling_ms as nat)
                    } else {
                        &&& next.stage == stage_after(self.stage)
                        &&& next.attempt == 0
                        &&& (holds_chunk(next.stage) ==> next.lock == self.lock)
                        &&& (next.stage is Verifying ==> action is Verify)
                        &&& (!(next.stage is Verifying) ==> action is Send && is_request_of(
                            action->Send_0,
                            next.stage,
                            next.lock,
                        ))
                    },
                    Event::Locked(lr) => if self.stage is Locking {
                        &&& next.stage == Stage::DownloadingResponse
                        &&& next.attempt == 0
                        &&& next.lock == Some(lr)
                        &&& action is Send
                        &&& is_request_of(action->Send_0, Stage::DownloadingResponse, Some(lr))
                    } else {
                        &&& next.stage == self.stage
                        &&& next.lock == self.lock
                        &&& next.attempt == self.attempt
                        &&& (self.stage is Verifying ==> action is Verify)
                        &&& (!(self.stage is Verifying) ==> action is Send && is_request_of(
                            action->Send_0,
                            self.stage,
                            self.lock,
                        ))
                    },
                    Event::Failed(transient) => if transient && !(self.stage is Verifying) {
                        &&& next.stage == self.stage
                        &&& next.lock == self.lock
                        &&& next.attempt == if self.attempt < u32::MAX { self.attempt + 1 } else { self.attempt as int }
                        &&& action is SendAfter
                        &&& is_request_of(action->SendAfter_0, self.stage, self.lock)
                        &&& action->SendAfter_1 == backoff(self.attempt as nat, base_ms as nat, ceiling_ms as nat)
                    } else {
                        let back = if self.stage is Joining { Stage::Joining } else { Stage::Locking };
                        &&& next.stage == back
                        &&& next.attempt == 0
                        &&& action is Report
                        &&& stage_error(self.stage, self.lock, action->Report_0)
                        &&& is_request_of(action->Report_1, back, None)
                    },
                    Event::HashMismatch => if self.stage is Verifying {
                        &&& next.stage == Stage::Locking
                        &&& next.attempt == 0
                        &&& action is Report
                        &&& action->Report_0 == VerifierError::MismatchedResponseHashes
                        &&& is_request_of(action->Report_1, Stage::Locking, None)
                    } else {
                        &&& next.stage == self.stage
                        &&& next.lock == self.lock
                        &&& next.attempt == self.attempt
                        &&& (self.stage is Verifying ==> action is Verify)
                        &&& (!(self.stage is Verifying) ==> action is Send && is_request_of(
                            action->Send_0,
                            self.stage,
                            self.lock,
                        ))
                    },
                }
            }),
    {
        let stage = self.stage;
        let attempt = self.attempt;
        let next_attempt = if attempt < u32::MAX {
            attempt + 1
        } else {
            attempt
        };
        match event {
            Event::Succeeded => {
                if stage == Stage::Locking {
                    let delay = backoff_delay(attempt, base_ms, ceiling_ms);
                    let request = lock_chunk_request();
                    (
                        VerifierState { stage: Stage::Locking, attempt: next_attempt, lock: None },
                        Action::SendAfter(request, delay),
                    )
                } else {
                    let next_stage = match stage {
                        Stage::Joining => Stage::Locking,
                        Stage::DownloadingResponse => Stage::DownloadingChallenge,
                        Stage::DownloadingChallenge => Stage::Verifying,
                        Stage::Verifying => Stage::UploadingChallenge,
                        Stage::UploadingChallenge => Stage::ConfirmingVerification,
                        _ => Stage::Locking,
                    };
                    let lock = if next_stage == Stage::Locking {
                        None
                    } else {
                        self.lock
                    };
                    if next_stage == Stage::Verifying {
                        (VerifierState { stage: next_stage, attempt: 0, lock }, Action::Verify)
                    } else {
                        let request = stage_request(next_stage, &lock);
                        (VerifierState { stage: next_stage, attempt: 0, lock }, Action::Send(request))
                    }
                }
            },
            Event::Locked(lr) => {
                if stage == Stage::Locking {
                    let lock = Some(lr);
                    let request = stage_request(Stage::DownloadingResponse, &lock);
                    (
                        VerifierState { stage: Stage::DownloadingResponse, attempt: 0, lock },
                        Action::Send(request),
                    )
                } else {
                    Self::repeat(self)
                }
            },
            Event::Failed(transient) => {
                if transient && stage != Stage::Verifying {
                    let delay = backoff_delay(attempt, base_ms, ceiling_ms);
                    let request = stage_request(stage, &self.lock);
                    (
                        VerifierState { stage, attempt: next_attempt, lock: self.lock },
                        Action::SendAfter(request, delay),
                    )
                } else {
                    let error = stage_failure(stage, &self.lock);
                    let back = if stage == Stage::Joining {
                        Stage::Joining
                    } else {
                        Stage::Locking
                    };
                    let request = stage_request(back, &None);
                    (VerifierState { stage: back, attempt: 0, lock: None }, Action::Report(error, request))
                }
            },
            Event::HashMismatch => {
                if stage == Stage::Verifying {
                    let request = lock_chunk_request();
                    (
                        VerifierState { stage: Stage::Locking, attempt: 0, lock: None },
                        Action::Report(VerifierError::MismatchedResponseHashes, request),
                    )
                } else {
                    Self::repeat(self)
                }
            },
        }
    }

    /// Stays where it is and does the stage's action again.
    fn repeat(self) -> (r: (VerifierState, Action))
        requires
            self.wf(),
        ensures
            r.0.wf(),
            r.0.stage == self.stage,
            r.0.lock == self.lock,
            r.0.attempt == self.attempt,
            self.stage is Verifying ==> r.1 is Verify,
            !(self.stage is Verifying) ==> r.1 is Send && is_request_of(r.1->Send_0, self.stage, self.lock),
    {
        if self.stage == Stage::Verifying {
            (self, Action::Verify)
        } else {
            let request = stage_request(self.stage, &self.lock);
            (self, Action::Send(request))
        }
    }
}

} // verus!
