use phase1_coordinator::client::{
    backoff_delay, check_response_hash, download_challenge_request, download_response_request,
    frame_signed_file, join_queue_request, lock_chunk_request, parse_signed_file, signature_path,
    upload_challenge_request, verify_contribution_request, Action, Event, LockResponse, Method,
    Stage, VerifierError, VerifierState,
};

fn lock_response() -> LockResponse {
    LockResponse {
        chunk_id: 3,
        contribution_id: 1,
        challenge_locator: "round_1/chunk_3/contribution_0.verified".to_string(),
        response_locator: "round_1/chunk_3/contribution_1.unverified".to_string(),
        next_challenge_locator: "round_1/chunk_3/contribution_1.verified".to_string(),
    }
}

fn sent_path(action: &Action) -> String {
    match action {
        Action::Send(r) => r.path.clone(),
        Action::SendAfter(r, _) => r.path.clone(),
        Action::Report(_, r) => r.path.clone(),
        Action::Verify => String::new(),
    }
}

#[test]
fn request_paths() {
    assert_eq!(join_queue_request().path, "/v1/queue/verifier/join");
    assert_eq!(lock_chunk_request().method, Method::Post);
    assert_eq!(verify_contribution_request(12).path, "/v1/verifier/try_verify/12");
    assert_eq!(download_response_request("a/b").path, "/v1/download/response/a/b");
    assert_eq!(download_response_request("a/b").method, Method::Get);
    assert_eq!(download_challenge_request("c").path, "/v1/download/challenge/c");
    assert_eq!(upload_challenge_request("d").path, "/v1/upload/challenge/d");
}

#[test]
fn signature_paths_drop_dot_slash() {
    assert_eq!(signature_path("/v1/download/response/./round_1/x"), "/v1/download/response/round_1/x");
    assert_eq!(signature_path("././a./b"), "ab");
    assert_eq!(signature_path("plain"), "plain");
    assert_eq!(signature_path(""), "");
}

#[test]
fn response_hashes() {
    let hash = vec![7u8; 64];
    let mut file = hash.clone();
    file.extend_from_slice(&[1, 2, 3]);
    assert_eq!(check_response_hash(&file, &hash), Ok(()));
    file[10] = 8;
    assert_eq!(check_response_hash(&file, &hash), Err(VerifierError::MismatchedResponseHashes));
    assert_eq!(check_response_hash(&hash[..10], &hash), Err(VerifierError::MismatchedResponseHashes));
    assert_eq!(check_response_hash(&file, &hash[..10]), Err(VerifierError::MismatchedResponseHashes));
}

#[test]
fn signed_files_round_trip() {
    let signature = vec![9u8; 300];
    let body = vec![1u8, 2, 3];
    let framed = frame_signed_file(&signature, &body);
    assert_eq!(&framed[..4], &[44, 1, 0, 0]);
    assert_eq!(framed.len(), 4 + 300 + 3);
    let (s, b) = parse_signed_file(&framed).unwrap();
    assert_eq!(s, signature);
    assert_eq!(b, body);
    assert_eq!(parse_signed_file(&framed[..100]), Err(VerifierError::MalformedSignedFile));
    assert_eq!(parse_signed_file(&[1, 0]), Err(VerifierError::MalformedSignedFile));
    assert_eq!(parse_signed_file(&[0, 0, 0, 0]), Ok((vec![], vec![])));
}

#[test]
fn backoff_doubles_up_to_the_ceiling() {
    assert_eq!(backoff_delay(0, 100, 1000), 100);
    assert_eq!(backoff_delay(1, 100, 1000), 200);
    assert_eq!(backoff_delay(3, 100, 1000), 800);
    assert_eq!(backoff_delay(4, 100, 1000), 1000);
    assert_eq!(backoff_delay(40, 100, 1000), 1000);
    assert_eq!(backoff_delay(2, 5000, 1000), 1000);
}

#[test]
fn a_full_cycle() {
    let state = VerifierState::start();
    let (state, action) = state.step(Event::Succeeded, 100, 1000);
    assert_eq!(state.stage, Stage::Locking);
    assert_eq!(sent_path(&action), "/v1/verifier/try_lock");

    let (state, action) = state.step(Event::Succeeded, 100, 1000);
    assert_eq!(state.stage, Stage::Locking);
    assert!(matches!(action, Action::SendAfter(_, 100)));

    let (state, action) = state.step(Event::Locked(lock_response()), 100, 1000);
    assert_eq!(state.stage, Stage::DownloadingResponse);
    assert_eq!(sent_path(&action), "/v1/download/response/round_1/chunk_3/contribution_1.unverified");

    let (state, action) = state.step(Event::Failed(true), 100, 1000);
    assert_eq!(state.stage, Stage::DownloadingResponse);
    assert_eq!(state.attempt, 1);
    assert!(matches!(action, Action::SendAfter(_, 100)));

    let (state, action) = state.step(Event::Succeeded, 100, 1000);
    assert_eq!(state.stage, Stage::DownloadingChallenge);
    assert_eq!(state.attempt, 0);
    assert_eq!(sent_path(&action), "/v1/download/challenge/round_1/chunk_3/contribution_0.verified");

    let (state, action) = state.step(Event::Succeeded, 100, 1000);
    assert_eq!(state.stage, Stage::Verifying);
    assert!(matches!(action, Action::Verify));

    let (state, action) = state.step(Event::Succeeded, 100, 1000);
    assert_eq!(state.stage, Stage::UploadingChallenge);
    assert_eq!(sent_path(&action), "/v1/upload/challenge/round_1/chunk_3/contribution_1.verified");

    let (state, action) = state.step(Event::Succeeded, 100, 1000);
    assert_eq!(state.stage, Stage::ConfirmingVerification);
    assert_eq!(sent_path(&action), "/v1/verifier/try_verify/3");

    let (state, action) = state.step(Event::Succeeded, 100, 1000);
    assert_eq!(state.stage, Stage::Locking);
    assert!(state.lock.is_none());
    assert_eq!(sent_path(&action), "/v1/verifier/try_lock");
}

#[test]
fn failures_give_up_the_chunk() {
    let state = VerifierState { stage: Stage::Verifying, attempt: 0, lock: Some(lock_response()) };
    let (next, action) = state.clone().step(Event::HashMismatch, 100, 1000);
    assert_eq!(next.stage, Stage::Locking);
    assert!(matches!(action, Action::Report(VerifierError::MismatchedResponseHashes, _)));

    let (next, action) = state.step(Event::Failed(false), 100, 1000);
    assert_eq!(next.stage, Stage::Locking);
    assert!(matches!(action, Action::Report(VerifierError::FailedVerification(3), _)));

    let state = VerifierState { stage: Stage::UploadingChallenge, attempt: 2, lock: Some(lock_response()) };
    let (next, action) = state.step(Event::Failed(false), 100, 1000);
    assert_eq!(next.stage, Stage::Locking);
    match action {
        Action::Report(VerifierError::FailedChallengeUpload(l), r) => {
            assert_eq!(l, "round_1/chunk_3/contribution_1.verified");
            assert_eq!(r.path, "/v1/verifier/try_lock");
        }
        _ => panic!("expected a report"),
    }

    let (next, action) = VerifierState::start().step(Event::Failed(false), 100, 1000);
    assert_eq!(next.stage, Stage::Joining);
    assert!(matches!(action, Action::Report(VerifierError::FailedToJoinQueue, _)));
}

#[test]
fn events_out_of_place_repeat_the_stage() {
    let (next, action) = VerifierState::start().step(Event::Locked(lock_response()), 100, 1000);
    assert_eq!(next.stage, Stage::Joining);
    assert_eq!(sent_path(&action), "/v1/queue/verifier/join");
    let (next, action) = VerifierState::start().step(Event::HashMismatch, 100, 1000);
    assert_eq!(next.stage, Stage::Joining);
    assert!(matches!(action, Action::Send(_)));
}
