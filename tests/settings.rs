use phase1_coordinator::authentication::{signing_message, test_round_0, AuthenticationHeader};
use phase1_coordinator::round::Participant;
use phase1_coordinator::settings::{
    curve_from_lowercase, curve_from_str, development, CheckForCorrectness, ContributionMode,
    CurveKind, Deployment, ElementType, Environment, NewOpts, ProvingSystem, UseCompression,
};

fn environment(curve: CurveKind, ps: ProvingSystem, compressed: bool) -> Environment {
    Environment {
        deployment: Deployment::Test,
        curve,
        proving_system: ps,
        contribution_mode: ContributionMode::Chunked,
        power: 2,
        batch_size: 2,
        chunk_size: 3,
        number_of_chunks: 3,
        compressed_inputs: compressed,
        compressed_outputs: compressed,
        base_directory: "base".to_string(),
        coordinator_contributor: Participant::Contributor("c".to_string()),
        coordinator_verifier: Participant::Verifier("v".to_string()),
    }
}

#[test]
fn curve_names() {
    assert!(matches!(curve_from_str("bls12_377"), Ok(CurveKind::Bls12_377)));
    assert!(matches!(curve_from_str("BLS12_377"), Ok(CurveKind::Bls12_377)));
    assert!(matches!(curve_from_str("Bw6"), Ok(CurveKind::BW6)));
    assert_eq!(curve_from_str("bn254"), Err("unsupported curve.".to_string()));
    assert_eq!(curve_from_lowercase("BW6"), Err("unsupported curve.".to_string()));
    assert_eq!(curve_from_lowercase("bw6"), Ok(CurveKind::BW6));
}

#[test]
fn names_of_settings() {
    assert_eq!(UseCompression::Yes.as_str(), "Yes");
    assert_eq!(CheckForCorrectness::OnlyInGroup.as_str(), "OnlyInGroup");
    assert_eq!(ElementType::BetaG2.as_str(), "BetaG2");
}

#[test]
fn groth16_contribution_sizes() {
    // N = 4: tau G1 has 7 elements, tau G2, alpha G1 and beta G1 have 4,
    // beta G2 has 1; chunks of 3 elements.
    let env = environment(CurveKind::Bls12_377, ProvingSystem::Groth16, true);
    // chunk 0: 3 + 3 + 3 G1 and 3 + 1 G2, compressed 48 and 96 bytes.
    assert_eq!(env.contribution_size(0, true), 64 + 9 * 48 + 4 * 96);
    let pk = 6 * 96 + 3 * 192;
    assert_eq!(env.contribution_size(0, false), 64 + 9 * 48 + 4 * 96 + pk);
    // chunk 2: 1 tau G1 element, nothing else.
    assert_eq!(env.contribution_size(2, true), 64 + 48);
    let env = environment(CurveKind::BW6, ProvingSystem::Groth16, false);
    // chunk 1: 3 + 1 + 1 G1 and 1 G2, uncompressed 192 bytes each.
    assert_eq!(env.contribution_size(1, false), 64 + 6 * 192);
    assert_eq!(env.round_size(false), 64 + (7 + 4 + 4) * 192 + (4 + 1) * 192);
}

#[test]
fn marlin_contribution_sizes() {
    // N = 4: tau G1 has 4, tau G2 has 4, alpha G1 has 9 elements.
    let env = environment(CurveKind::Bls12_377, ProvingSystem::Marlin, false);
    assert_eq!(env.contribution_size(0, true), 64 + 6 * 96 + 3 * 192);
    assert_eq!(env.contribution_size(2, true), 64 + 3 * 96);
}

#[test]
fn development_preset() {
    let env = development(
        "dev".to_string(),
        Participant::Contributor("c".to_string()),
        Participant::Verifier("v".to_string()),
    );
    assert_eq!(env.number_of_chunks, 64);
    assert_eq!(env.power, 16);
    assert_eq!(env.batch_size, 512);
}

#[test]
fn authentication_header() {
    let header = AuthenticationHeader::new("Aleo".to_string(), "aleo1xyz".to_string(), "sig".to_string());
    assert_eq!(header.to_header_string(), "Aleo aleo1xyz:sig");
    assert_eq!(signing_message("POST", "/V1/Queue/Verifier/Join"), "post /v1/queue/verifier/join");
}

#[test]
fn initial_round_is_complete() {
    let env = environment(CurveKind::Bls12_377, ProvingSystem::Groth16, true);
    let round = test_round_0(&env, 7);
    assert!(round.is_complete());
    assert_eq!(round.get_height(), 0);
    assert_eq!(round.get_verifiers().len(), 1);
    assert_eq!(round.num_contributors(), 0);
    assert_eq!(round.expected_num_contributions(), 1);
}

#[test]
fn new_opts_fields() {
    let opts = NewOpts::new("phase1".to_string(), 10, "challenge".to_string(), CurveKind::BW6, true);
    assert_eq!(opts.phase1, "phase1");
    assert_eq!(opts.phase1_size, 10);
    assert!(opts.is_inner);
    assert!(!opts.help);
}

#[test]
fn vector_ranges_follow_the_hash() {
    let env = environment(CurveKind::Bls12_377, ProvingSystem::Groth16, true);
    assert_eq!(env.element_range(0, true, ElementType::TauG1), (64, 208));
    assert_eq!(env.element_range(0, true, ElementType::TauG2), (208, 496));
    assert_eq!(env.element_range(0, true, ElementType::AlphaG1), (496, 640));
    assert_eq!(env.element_range(0, true, ElementType::BetaG1), (640, 784));
    assert_eq!(env.element_range(0, true, ElementType::BetaG2), (784, 880));
    assert_eq!(env.contribution_size(0, true), 880);
    // Chunk 1 holds 3 tau G1, 1 tau G2, 1 alpha G1, 1 beta G1 and no beta G2.
    assert_eq!(env.element_range(1, false, ElementType::TauG2), (64 + 3 * 96, 64 + 3 * 96 + 192));
    assert_eq!(env.element_range(1, false, ElementType::BetaG2), (64 + 5 * 96 + 192, 64 + 5 * 96 + 192));
}
