use phase1_coordinator::api::{chunk_get, chunk_post, http_status};
use phase1_coordinator::coordinator::Coordinator;
use phase1_coordinator::errors::CoordinatorError;
use phase1_coordinator::locator::Locator;
use phase1_coordinator::round::Participant;
use phase1_coordinator::settings::{ContributionMode, CurveKind, Deployment, Environment, ProvingSystem};

fn coordinator() -> Coordinator {
    let env = Environment {
        deployment: Deployment::Test,
        curve: CurveKind::Bls12_377,
        proving_system: ProvingSystem::Groth16,
        contribution_mode: ContributionMode::Chunked,
        power: 2,
        batch_size: 2,
        chunk_size: 4,
        number_of_chunks: 2,
        compressed_inputs: false,
        compressed_outputs: false,
        base_directory: "ceremony".to_string(),
        coordinator_contributor: Participant::Contributor("c".to_string()),
        coordinator_verifier: Participant::Verifier("v".to_string()),
    };
    let mut c = Coordinator::new(env).unwrap();
    c.next_round(0, vec![Participant::Contributor("alice".to_string())], vec![Participant::Verifier("vera".to_string())])
        .unwrap();
    c
}

#[test]
fn statuses_of_refusals() {
    assert_eq!(http_status(CoordinatorError::UnauthorizedChunkContributor), 401);
    assert_eq!(http_status(CoordinatorError::ExpectedVerifier), 401);
    assert_eq!(http_status(CoordinatorError::ChunkLockAlreadyAcquired), 409);
    assert_eq!(http_status(CoordinatorError::ContributionsComplete), 400);
}

#[test]
fn write_locations() {
    let mut c = coordinator();
    let alice = Participant::Contributor("alice".to_string());
    assert_eq!(chunk_get(&c, 1, &alice), Err(401));
    assert_eq!(chunk_post(&mut c, 1, alice.clone()), Err(400));
    c.try_lock_chunk(1, alice.clone()).unwrap();
    assert_eq!(chunk_get(&c, 1, &alice), Ok("ceremony/round_1/chunk_1/contribution_1.unverified".to_string()));
    assert_eq!(chunk_get(&c, 1, &Participant::Contributor("mallory".to_string())), Err(401));
    assert_eq!(chunk_get(&c, 5, &alice), Err(401));
    let size = c.environment().contribution_size(1, false);
    c.initialize(Locator::ContributionFile(1, 1, 1, false), size).unwrap();
    assert_eq!(chunk_post(&mut c, 1, alice.clone()), Ok(()));
    assert_eq!(chunk_get(&c, 1, &alice), Err(401));
}
