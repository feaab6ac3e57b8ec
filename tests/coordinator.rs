use phase1_coordinator::coordinator::Coordinator;
use phase1_coordinator::errors::CoordinatorError;
use phase1_coordinator::locator::Locator;
use phase1_coordinator::round::Participant;
use phase1_coordinator::settings::{
    ContributionMode, CurveKind, Deployment, Environment, ProvingSystem,
};

const STARTED_AT: i64 = 1_600_000_000;

fn contributor_named(name: &str) -> Participant {
    Participant::Contributor(name.to_string())
}

fn verifier_named(name: &str) -> Participant {
    Participant::Verifier(name.to_string())
}

fn environment(number_of_chunks: u64) -> Environment {
    Environment {
        deployment: Deployment::Test,
        curve: CurveKind::Bls12_377,
        proving_system: ProvingSystem::Groth16,
        contribution_mode: ContributionMode::Chunked,
        power: 4,
        batch_size: 8,
        chunk_size: 8,
        number_of_chunks,
        compressed_inputs: false,
        compressed_outputs: true,
        base_directory: "transcript".to_string(),
        coordinator_contributor: contributor_named("coordinator-contributor"),
        coordinator_verifier: verifier_named("coordinator-verifier"),
    }
}

fn initialized(number_of_chunks: u64) -> Coordinator {
    let mut coordinator = Coordinator::new(environment(number_of_chunks)).unwrap();
    assert_eq!(0, coordinator.current_round_height().unwrap());
    let height = coordinator
        .next_round(
            STARTED_AT,
            vec![contributor_named("contributor-1"), contributor_named("contributor-2")],
            vec![verifier_named("verifier-1")],
        )
        .unwrap();
    assert_eq!(1, height);
    assert_eq!(1, coordinator.current_round_height().unwrap());
    coordinator
}

/// Uploads the response of the next contribution of `chunk`.
fn upload_response(coordinator: &mut Coordinator, chunk: u64, id: u64) {
    let height = coordinator.current_round_height().unwrap();
    let size = coordinator.environment().contribution_size(chunk, id == 0);
    coordinator
        .initialize(Locator::ContributionFile(height, chunk, id, false), size)
        .unwrap();
}

/// Uploads the verifier's output for contribution `id` of `chunk`.
fn upload_verified(coordinator: &mut Coordinator, chunk: u64, id: u64) {
    let height = coordinator.current_round_height().unwrap();
    let size = coordinator.environment().contribution_size(chunk, id == 0);
    coordinator
        .initialize(Locator::ContributionFile(height, chunk, id, true), size)
        .unwrap();
}

fn contribute_and_verify(coordinator: &mut Coordinator, chunk: u64, who: &str, by: &str) {
    let id = coordinator.current_round().unwrap().get_chunk(chunk).unwrap().current_contribution_id() + 1;
    coordinator.try_lock_chunk(chunk, contributor_named(who)).unwrap();
    upload_response(coordinator, chunk, id);
    coordinator.add_contribution(chunk, contributor_named(who)).unwrap();
    coordinator.try_lock_verify(chunk, id, verifier_named(by)).unwrap();
    upload_verified(coordinator, chunk, id);
    coordinator.verify_contribution(chunk, id, verifier_named(by)).unwrap();
}

#[test]
fn test_coordinator_initialization() {
    let coordinator = initialized(4);
    assert!(coordinator.get_round(0).unwrap().is_complete());
    assert_eq!(1, coordinator.current_round_height().unwrap());

    assert_eq!(2, coordinator.current_round().unwrap().num_contributors());
    assert!(coordinator.is_current_contributor(&contributor_named("contributor-1")));
    assert!(coordinator.is_current_contributor(&contributor_named("contributor-2")));
    assert!(!coordinator.is_current_contributor(&contributor_named("contributor-3")));
    assert!(!coordinator.is_current_contributor(&verifier_named("verifier-1")));

    assert_eq!(1, coordinator.current_round().unwrap().get_verifiers().len());
    assert!(coordinator.is_current_verifier(&verifier_named("verifier-1")));
    assert!(!coordinator.is_current_verifier(&verifier_named("verifier-2")));
    assert!(!coordinator.is_current_verifier(&contributor_named("contributor-1")));

    assert!(!coordinator.current_round().unwrap().is_complete());
}

#[test]
fn test_coordinator_contributor_try_lock() {
    let mut coordinator = initialized(4);
    let c1 = contributor_named("contributor-1");
    let c2 = contributor_named("contributor-2");
    assert!(coordinator.try_lock_chunk(0, c1.clone()).is_ok());
    assert!(coordinator.try_lock_chunk(0, c1.clone()).is_err());
    assert!(coordinator.try_lock_chunk(1, c1.clone()).is_err());
    assert!(coordinator.try_lock_chunk(0, c2.clone()).is_err());
    assert!(coordinator.try_lock_chunk(1, c2.clone()).is_ok());

    let round = coordinator.current_round().unwrap();
    let chunk = round.get_chunk(0).unwrap();
    assert!(chunk.is_locked());
    assert!(!chunk.is_unlocked());
    assert!(chunk.is_locked_by(&c1));

    let chunk = round.get_chunk(1).unwrap();
    assert!(chunk.is_locked());
    assert!(!chunk.is_unlocked());
    assert!(chunk.is_locked_by(&c2));
    assert!(!chunk.is_locked_by(&c1));
}

#[test]
fn test_coordinator_contributor_add_contribution() {
    let mut coordinator = initialized(4);
    let c1 = contributor_named("contributor-1");
    assert!(coordinator.try_lock_chunk(0, c1.clone()).is_ok());
    {
        let round = coordinator.current_round().unwrap();
        assert_eq!(1, round.get_height());
        let chunk = round.get_chunk(0).unwrap();
        assert!(!chunk.is_complete(round.expected_num_contributions()));
        assert!(chunk.is_next_contribution_id(1, round.expected_num_contributions()));
    }
    upload_response(&mut coordinator, 0, 1);
    let path = coordinator.add_contribution(0, c1.clone()).unwrap();
    assert_eq!(path, "transcript/round_1/chunk_0/contribution_1.unverified");

    let round = coordinator.current_round().unwrap();
    let chunk = round.get_chunk(0).unwrap();
    assert!(chunk.is_unlocked());
    assert!(!chunk.is_locked());
}

#[test]
fn test_coordinator_contributor_verify_contribution() {
    let mut coordinator = initialized(4);
    let c1 = contributor_named("contributor-1");
    assert!(coordinator.try_lock_chunk(0, c1.clone()).is_ok());
    upload_response(&mut coordinator, 0, 1);
    assert!(coordinator.add_contribution(0, c1.clone()).is_ok());

    let v1 = verifier_named("verifier-1");
    assert!(coordinator.try_lock_verify(0, 1, v1.clone()).is_ok());
    {
        let round = coordinator.current_round().unwrap();
        let chunk = round.get_chunk(0).unwrap();
        assert!(chunk.is_locked());
        assert!(!chunk.is_unlocked());
        assert!(chunk.is_locked_by(&v1));
    }
    upload_verified(&mut coordinator, 0, 1);
    coordinator.verify_contribution(0, 1, v1).unwrap();
    let round = coordinator.current_round().unwrap();
    assert!(round.get_chunk(0).unwrap().get_contribution(1).unwrap().is_verified());
}

#[test]
fn bootstrap_creates_round_one() {
    let coordinator = initialized(3);
    let round0 = coordinator.get_round(0).unwrap();
    assert!(round0.is_complete());
    assert_eq!(0, round0.num_contributors());
    let env = coordinator.environment().clone();
    for chunk in 0..3 {
        let l = Locator::ContributionFile(0, chunk, 0, true);
        assert!(coordinator.contains(&l));
        assert_eq!(coordinator.size(&l).unwrap(), env.contribution_size(chunk, true));
        assert!(coordinator.contains(&Locator::ContributionFile(1, chunk, 0, true)));
    }
    assert_eq!(3, coordinator.current_round().unwrap().expected_num_contributions());
}

#[test]
fn lock_contention() {
    let mut coordinator = initialized(3);
    coordinator.try_lock_chunk(0, contributor_named("contributor-1")).unwrap();
    assert_eq!(
        coordinator.try_lock_chunk(0, contributor_named("contributor-2")),
        Err(CoordinatorError::ChunkLockAlreadyAcquired)
    );
    assert_eq!(coordinator.try_lock_chunk(1, contributor_named("contributor-2")), Ok(()));
}

#[test]
fn relocking_by_holder_keeps_lock() {
    let mut coordinator = initialized(3);
    let c1 = contributor_named("contributor-1");
    coordinator.try_lock_chunk(0, c1.clone()).unwrap();
    assert_eq!(
        coordinator.try_lock_chunk(0, c1.clone()),
        Err(CoordinatorError::ChunkLockAlreadyAcquired)
    );
    assert!(coordinator.current_round().unwrap().get_chunk(0).unwrap().is_locked_by(&c1));
}

#[test]
fn contribute_then_verify() {
    let mut coordinator = initialized(3);
    let c1 = contributor_named("contributor-1");
    coordinator.try_lock_chunk(0, c1.clone()).unwrap();
    upload_response(&mut coordinator, 0, 1);
    coordinator.add_contribution(0, c1).unwrap();
    assert!(coordinator.current_round().unwrap().get_chunk(0).unwrap().is_unlocked());
    let v1 = verifier_named("verifier-1");
    coordinator.try_lock_verify(0, 1, v1.clone()).unwrap();
    upload_verified(&mut coordinator, 0, 1);
    coordinator.verify_contribution(0, 1, v1.clone()).unwrap();
    let round = coordinator.current_round().unwrap();
    assert!(round.get_chunk(0).unwrap().get_contribution(1).unwrap().is_verified());
    assert_eq!(
        coordinator.verify_contribution(0, 1, v1),
        Err(CoordinatorError::ContributionAlreadyVerified)
    );
}

#[test]
fn unlocked_calls_change_nothing() {
    let mut coordinator = initialized(3);
    let c1 = contributor_named("contributor-1");
    upload_response(&mut coordinator, 0, 1);
    assert_eq!(
        coordinator.add_contribution(0, c1.clone()),
        Err(CoordinatorError::ChunkNotLockedOrByWrongParticipant)
    );
    let round = coordinator.current_round().unwrap();
    assert_eq!(0, round.get_chunk(0).unwrap().current_contribution_id());
    assert!(round.get_chunk(0).unwrap().is_unlocked());
    assert_eq!(
        coordinator.verify_contribution(0, 1, verifier_named("verifier-1")),
        Err(CoordinatorError::ContributionMissing)
    );
}

#[test]
fn full_round_advances_to_height_two() {
    let mut coordinator = Coordinator::new(environment(3)).unwrap();
    coordinator
        .next_round(STARTED_AT, vec![contributor_named("contributor-1")], vec![verifier_named("verifier-1")])
        .unwrap();
    assert_eq!(2, coordinator.current_round().unwrap().expected_num_contributions());
    assert_eq!(
        coordinator.next_round(STARTED_AT, vec![], vec![]),
        Err(CoordinatorError::RoundNotComplete)
    );
    for chunk in 0..3 {
        contribute_and_verify(&mut coordinator, chunk, "contributor-1", "verifier-1");
    }
    assert!(coordinator.current_round().unwrap().is_complete());
    let height = coordinator
        .next_round(STARTED_AT + 60, vec![contributor_named("contributor-2")], vec![verifier_named("verifier-1")])
        .unwrap();
    assert_eq!(2, height);
    assert_eq!(2, coordinator.current_round_height().unwrap());
    assert!(coordinator.contains(&Locator::RoundFile(1)));
    for chunk in 0..3 {
        assert!(coordinator.contains(&Locator::ContributionFile(2, chunk, 0, true)));
    }
}

#[test]
fn dangling_next_round_is_reused() {
    let mut coordinator = initialized(2);
    for chunk in 0..2 {
        contribute_and_verify(&mut coordinator, chunk, "contributor-1", "verifier-1");
        contribute_and_verify(&mut coordinator, chunk, "contributor-2", "verifier-1");
    }
    // A round stored at height 2 by an advance that stopped before the
    // height moved on.
    let env = coordinator.environment().clone();
    let dangling = phase1_coordinator::round::Round::new(&env, 2, STARTED_AT, vec![], vec![]);
    coordinator.rounds.push(dangling);
    assert_eq!(1, coordinator.current_round_height().unwrap());
    assert_eq!(2, coordinator.next_round(STARTED_AT, vec![contributor_named("contributor-3")], vec![]).unwrap());
    assert_eq!(2, coordinator.current_round_height().unwrap());
    assert_eq!(3, coordinator.rounds.len());
    assert_eq!(1, coordinator.current_round().unwrap().num_contributors());
}

#[test]
fn locators_of_the_next_contribution() {
    let mut coordinator = initialized(2);
    assert_eq!(
        coordinator.current_contribution_locator(0).unwrap(),
        "transcript/round_1/chunk_0/contribution_0.verified"
    );
    assert_eq!(coordinator.next_contribution_locator(0), Err(CoordinatorError::ChunkNotLocked));
    coordinator.try_lock_chunk(0, contributor_named("contributor-1")).unwrap();
    assert_eq!(
        coordinator.next_contribution_locator(0).unwrap(),
        "transcript/round_1/chunk_0/contribution_1.unverified"
    );
    upload_response(&mut coordinator, 0, 1);
    assert_eq!(
        coordinator.next_contribution_locator(0),
        Err(CoordinatorError::ContributionLocatorAlreadyExists)
    );
    assert_eq!(
        coordinator.next_contribution_locator_unchecked(0).unwrap(),
        "transcript/round_1/chunk_0/contribution_1.unverified"
    );
    assert_eq!(coordinator.next_contribution_locator(5), Err(CoordinatorError::ChunkMissing));
}

#[test]
fn refusals_name_their_cause() {
    let mut coordinator = Coordinator::new(environment(2)).unwrap();
    assert_eq!(
        coordinator.try_lock_chunk(0, contributor_named("contributor-1")),
        Err(CoordinatorError::RoundDoesNotExist)
    );
    assert_eq!(coordinator.current_round().err(), Some(CoordinatorError::RoundDoesNotExist));
    let mut coordinator = initialized(2);
    assert_eq!(
        coordinator.try_lock_chunk(0, contributor_named("stranger")),
        Err(CoordinatorError::UnauthorizedChunkContributor)
    );
    assert_eq!(
        coordinator.try_lock_chunk(0, verifier_named("verifier-1")),
        Err(CoordinatorError::UnauthorizedChunkVerifier)
    );
    assert_eq!(
        coordinator.try_lock_chunk(9, contributor_named("contributor-1")),
        Err(CoordinatorError::ChunkMissing)
    );
    assert_eq!(
        coordinator.try_lock_verify(0, 1, contributor_named("contributor-1")),
        Err(CoordinatorError::ExpectedVerifier)
    );
    assert_eq!(
        coordinator.try_lock_verify(0, 1, verifier_named("verifier-1")),
        Err(CoordinatorError::ContributionLocatorMissing)
    );
    assert_eq!(
        coordinator.verify_contribution(0, 0, verifier_named("verifier-1")),
        Err(CoordinatorError::VerificationOnContributionIdZero)
    );
    assert_eq!(
        coordinator.add_contribution(0, contributor_named("stranger")),
        Err(CoordinatorError::UnauthorizedChunkContributor)
    );
    coordinator.try_lock_chunk(0, contributor_named("contributor-1")).unwrap();
    assert_eq!(
        coordinator.add_contribution(0, contributor_named("contributor-1")),
        Err(CoordinatorError::ContributionLocatorMissing)
    );
}

#[test]
fn storage_checks_files() {
    let mut coordinator = initialized(2);
    let l = Locator::ContributionFile(1, 0, 1, false);
    let size = coordinator.environment().contribution_size(0, false);
    assert_eq!(coordinator.initialize(l, size + 1), Err(CoordinatorError::FileSizeMismatch));
    assert_eq!(coordinator.initialize(l, size), Ok(()));
    assert_eq!(coordinator.initialize(l, size), Err(CoordinatorError::StorageLocatorAlreadyExists));
    assert_eq!(
        coordinator.initialize(Locator::ContributionFile(1, 0, 0, false), size),
        Err(CoordinatorError::LocatorFormatIncorrect)
    );
    assert_eq!(
        coordinator.initialize(Locator::RoundHeight, 0),
        Err(CoordinatorError::LocatorFormatIncorrect)
    );
    assert_eq!(coordinator.size(&l), Ok(size));
    assert_eq!(coordinator.remove(&l), Ok(()));
    assert_eq!(coordinator.remove(&l), Err(CoordinatorError::StorageLocatorMissing));
    assert_eq!(coordinator.size(&l), Err(CoordinatorError::StorageLocatorMissing));
}

#[test]
fn add_contribution_needs_a_started_ceremony() {
    let mut coordinator = Coordinator::new(environment(2)).unwrap();
    assert_eq!(
        coordinator.add_contribution(0, contributor_named("contributor-1")),
        Err(CoordinatorError::UnauthorizedChunkContributor)
    );
}

#[test]
fn aggregation_reads_the_last_file_of_every_chunk() {
    let mut coordinator = Coordinator::new(environment(2)).unwrap();
    coordinator
        .next_round(STARTED_AT, vec![contributor_named("contributor-1")], vec![verifier_named("verifier-1")])
        .unwrap();
    assert_eq!(coordinator.aggregation_readers(), Err(CoordinatorError::RoundNotComplete));
    for chunk in 0..2 {
        contribute_and_verify(&mut coordinator, chunk, "contributor-1", "verifier-1");
    }
    assert_eq!(
        coordinator.aggregation_readers(),
        Ok(vec![
            Locator::ContributionFile(1, 0, 1, true),
            Locator::ContributionFile(1, 1, 1, true),
        ])
    );
    coordinator.remove(&Locator::ContributionFile(1, 1, 1, true)).unwrap();
    assert_eq!(coordinator.aggregation_readers(), Err(CoordinatorError::ContributionLocatorMissing));
    let size = coordinator.environment().round_size(false);
    coordinator.initialize(Locator::RoundFile(1), size).unwrap();
    assert_eq!(coordinator.aggregation_readers(), Err(CoordinatorError::RoundLocatorAlreadyExists));
    assert_eq!(Coordinator::new(environment(2)).unwrap().aggregation_readers(), Err(CoordinatorError::RoundDoesNotExist));
}

#[test]
fn reads_check_file_sizes() {
    let coordinator = initialized(2);
    let l = Locator::ContributionFile(1, 1, 0, true);
    let size = coordinator.environment().contribution_size(1, true);
    assert_eq!(coordinator.check_object_size(&l, size), Ok(()));
    assert_eq!(coordinator.check_object_size(&l, size - 1), Err(CoordinatorError::FileSizeMismatch));
    assert_eq!(
        coordinator.check_object_size(&Locator::RoundFile(1), 0),
        Err(CoordinatorError::StorageLocatorMissing)
    );
}

#[test]
fn expired_locks_reopen_the_slot() {
    let mut coordinator = initialized(2);
    assert_eq!(coordinator.expire_lock(0), Err(CoordinatorError::ChunkNotLocked));
    assert_eq!(coordinator.expire_lock(7), Err(CoordinatorError::ChunkMissing));
    coordinator.try_lock_chunk(0, contributor_named("contributor-1")).unwrap();
    upload_response(&mut coordinator, 0, 1);
    assert_eq!(coordinator.expire_lock(0), Ok(()));
    assert!(!coordinator.contains(&Locator::ContributionFile(1, 0, 1, false)));
    assert!(coordinator.current_round().unwrap().get_chunk(0).unwrap().is_unlocked());
    coordinator.try_lock_chunk(0, contributor_named("contributor-2")).unwrap();
    upload_response(&mut coordinator, 0, 1);
    coordinator.add_contribution(0, contributor_named("contributor-2")).unwrap();
    coordinator.try_lock_verify(0, 1, verifier_named("verifier-1")).unwrap();
    upload_verified(&mut coordinator, 0, 1);
    assert_eq!(coordinator.expire_lock(0), Ok(()));
    assert!(!coordinator.contains(&Locator::ContributionFile(1, 0, 1, true)));
    assert!(coordinator.contains(&Locator::ContributionFile(1, 0, 1, false)));
}

#[test]
fn joining_the_queue() {
    let mut coordinator = Coordinator::new(environment(2)).unwrap();
    assert_eq!(coordinator.join_queue(contributor_named("a")), 0);
    assert_eq!(coordinator.join_queue(verifier_named("v")), 1);
    assert_eq!(coordinator.join_queue(contributor_named("b")), 2);
    assert_eq!(coordinator.join_queue(contributor_named("a")), 0);
    assert_eq!(coordinator.queue.len(), 3);
}

#[test]
fn restoring_stored_state() {
    let mut coordinator = initialized(2);
    contribute_and_verify(&mut coordinator, 0, "contributor-1", "verifier-1");
    let env = coordinator.environment().clone();
    let restored = Coordinator::restore(
        env.clone(),
        coordinator.round_height,
        coordinator.rounds.clone(),
        coordinator.files.clone(),
    )
    .unwrap();
    assert_eq!(restored.current_round_height(), Ok(1));
    assert_eq!(restored.files, coordinator.files);
    assert!(restored
        .current_round()
        .unwrap()
        .get_chunk(0)
        .unwrap()
        .get_contribution(1)
        .unwrap()
        .is_verified());

    // A height with no round stored for it.
    assert_eq!(
        Coordinator::restore(env.clone(), 5, coordinator.rounds.clone(), vec![]).err(),
        Some(CoordinatorError::StorageFailed)
    );
    // A file listed twice.
    let mut twice = coordinator.files.clone();
    twice.push(coordinator.files[0]);
    assert_eq!(
        Coordinator::restore(env.clone(), 1, coordinator.rounds.clone(), twice).err(),
        Some(CoordinatorError::StorageLocatorAlreadyExists)
    );
    // A round whose contribution 0 is not verified.
    let mut rounds = coordinator.rounds.clone();
    rounds[1].chunks[1].contributions[0].verified = false;
    assert_eq!(
        Coordinator::restore(env, 1, rounds, vec![]).err(),
        Some(CoordinatorError::StorageFailed)
    );
}

#[test]
fn bad_verification_rolls_the_chunk_back() {
    let mut coordinator = initialized(2);
    let c1 = contributor_named("contributor-1");
    let v1 = verifier_named("verifier-1");
    coordinator.try_lock_chunk(0, c1.clone()).unwrap();
    upload_response(&mut coordinator, 0, 1);
    coordinator.add_contribution(0, c1).unwrap();
    assert_eq!(
        coordinator.reject_contribution(0, 1, v1.clone()),
        Err(CoordinatorError::ChunkNotLockedOrByWrongParticipant)
    );
    coordinator.try_lock_verify(0, 1, v1.clone()).unwrap();
    // The verifier's output does not check out.
    upload_verified(&mut coordinator, 0, 1);
    assert_eq!(coordinator.reject_contribution(0, 1, v1.clone()), Ok(()));
    let round = coordinator.current_round().unwrap();
    let chunk = round.get_chunk(0).unwrap();
    assert_eq!(chunk.current_contribution_id(), 0);
    assert!(chunk.is_unlocked());
    assert!(!coordinator.contains(&Locator::ContributionFile(1, 0, 1, false)));
    assert!(!coordinator.contains(&Locator::ContributionFile(1, 0, 1, true)));
    assert_eq!(
        coordinator.reject_contribution(0, 1, contributor_named("contributor-1")),
        Err(CoordinatorError::ExpectedVerifier)
    );
    // The slot is open again.
    coordinator.try_lock_chunk(0, contributor_named("contributor-2")).unwrap();
}

#[test]
fn computation_checks() {
    let mut coordinator = initialized(2);
    let c1 = contributor_named("contributor-1");
    assert_eq!(
        coordinator.computation_check(0, 1, &c1),
        Err(CoordinatorError::ChunkNotLockedOrByWrongParticipant)
    );
    coordinator.try_lock_chunk(0, c1.clone()).unwrap();
    assert_eq!(coordinator.computation_check(0, 1, &c1), Ok(()));
    assert_eq!(
        coordinator.computation_check(0, 0, &c1),
        Err(CoordinatorError::ContributionShouldNotExist)
    );
    upload_response(&mut coordinator, 0, 1);
    assert_eq!(
        coordinator.computation_check(0, 1, &c1),
        Err(CoordinatorError::ContributionLocatorAlreadyExists)
    );
}

#[test]
fn advance_needs_what_aggregation_reads() {
    let mut coordinator = Coordinator::new(environment(2)).unwrap();
    coordinator
        .next_round(STARTED_AT, vec![contributor_named("contributor-1")], vec![verifier_named("verifier-1")])
        .unwrap();
    for chunk in 0..2 {
        contribute_and_verify(&mut coordinator, chunk, "contributor-1", "verifier-1");
    }
    coordinator.remove(&Locator::ContributionFile(1, 1, 1, true)).unwrap();
    assert_eq!(
        coordinator.next_round(STARTED_AT, vec![], vec![]),
        Err(CoordinatorError::ContributionLocatorMissing)
    );
    assert_eq!(1, coordinator.current_round_height().unwrap());
    upload_verified(&mut coordinator, 1, 1);
    let size = coordinator.environment().round_size(false);
    coordinator.initialize(Locator::RoundFile(1), size).unwrap();
    assert_eq!(
        coordinator.next_round(STARTED_AT, vec![], vec![]),
        Err(CoordinatorError::RoundLocatorAlreadyExists)
    );
    coordinator.remove(&Locator::RoundFile(1)).unwrap();
    assert_eq!(coordinator.next_round(STARTED_AT, vec![], vec![]), Ok(2));
}

#[test]
fn round_zero_is_fresh() {
    let coordinator = initialized(2);
    let round0 = coordinator.get_round(0).unwrap();
    assert_eq!(round0.started_at, STARTED_AT);
    assert_eq!(round0.expected_num_contributions(), 1);
    for chunk in 0..2 {
        let ch = round0.get_chunk(chunk).unwrap();
        assert!(ch.is_unlocked());
        assert_eq!(ch.current_contribution_id(), 0);
        let c0 = ch.get_contribution(0).unwrap();
        assert!(c0.is_verified());
        assert_eq!(c0.contributed_locator, Locator::ContributionFile(0, chunk, 0, true));
    }
}

#[test]
fn crash_after_aggregation_resumes() {
    let mut coordinator = initialized(2);
    for chunk in 0..2 {
        contribute_and_verify(&mut coordinator, chunk, "contributor-1", "verifier-1");
        contribute_and_verify(&mut coordinator, chunk, "contributor-2", "verifier-1");
    }
    // The aggregated file and round 2 were written, the height was not.
    let env = coordinator.environment().clone();
    coordinator.initialize(Locator::RoundFile(1), env.round_size(false)).unwrap();
    let dangling = phase1_coordinator::round::Round::new(&env, 2, STARTED_AT, vec![], vec![]);
    coordinator.rounds.push(dangling);
    assert_eq!(1, coordinator.current_round_height().unwrap());
    assert_eq!(coordinator.next_round(STARTED_AT, vec![contributor_named("c3")], vec![]), Ok(2));
    assert_eq!(2, coordinator.current_round_height().unwrap());
    assert_eq!(1, coordinator.current_round().unwrap().num_contributors());
}
