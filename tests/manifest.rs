use phase1_coordinator::coordinator::Coordinator;
use phase1_coordinator::errors::CoordinatorError;
use phase1_coordinator::locator::Locator;
use phase1_coordinator::manifest::{decode_manifest, locators_of_keys};
use phase1_coordinator::round::Participant;
use phase1_coordinator::settings::{ContributionMode, CurveKind, Deployment, Environment, ProvingSystem};

fn environment() -> Environment {
    Environment {
        deployment: Deployment::Test,
        curve: CurveKind::BW6,
        proving_system: ProvingSystem::Groth16,
        contribution_mode: ContributionMode::Chunked,
        power: 3,
        batch_size: 4,
        chunk_size: 4,
        number_of_chunks: 2,
        compressed_inputs: true,
        compressed_outputs: false,
        base_directory: "base".to_string(),
        coordinator_contributor: Participant::Contributor("c".to_string()),
        coordinator_verifier: Participant::Verifier("v".to_string()),
    }
}

#[test]
fn empty_manifest() {
    let coordinator = Coordinator::new(environment()).unwrap();
    assert_eq!(coordinator.encode_manifest().unwrap(), b"[]".to_vec());
}

#[test]
fn manifest_round_trip() {
    let mut coordinator = Coordinator::new(environment()).unwrap();
    coordinator
        .next_round(5, vec![Participant::Contributor("a".to_string())], vec![])
        .unwrap();
    let bytes = coordinator.encode_manifest().unwrap();
    let text = String::from_utf8(bytes.clone()).unwrap();
    assert!(text.starts_with("[\"round_height\",\"round_0/state.json\",\"round_1/state.json\","));
    assert!(text.contains("\"round_0/chunk_1/contribution_0.verified\""));
    let locators = decode_manifest(&bytes).unwrap();
    assert_eq!(locators[0], Locator::RoundHeight);
    assert_eq!(locators[1], Locator::RoundState(0));
    assert_eq!(locators.len(), 3 + 4);
    for l in locators.iter().skip(3) {
        assert!(coordinator.contains(l));
    }
}

#[test]
fn malformed_manifests() {
    assert_eq!(decode_manifest(b"{\"a\": 1}"), Err(CoordinatorError::StorageFailed));
    assert_eq!(decode_manifest(b"not json"), Err(CoordinatorError::StorageFailed));
    assert_eq!(decode_manifest(b"[\"round_x\"]"), Err(CoordinatorError::LocatorFormatIncorrect));
    assert_eq!(
        locators_of_keys(&vec!["round_height".to_string(), "round_2/round_2.verified".to_string()]),
        Ok(vec![Locator::RoundHeight, Locator::RoundFile(2)])
    );
}
