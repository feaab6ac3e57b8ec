use phase1_coordinator::accumulator::initialization;
use phase1_coordinator::round::Participant;
use phase1_coordinator::settings::{ContributionMode, CurveKind, Deployment, ElementType, Environment, ProvingSystem};

fn environment() -> Environment {
    Environment {
        deployment: Deployment::Test,
        curve: CurveKind::Bls12_377,
        proving_system: ProvingSystem::Groth16,
        contribution_mode: ContributionMode::Chunked,
        power: 2,
        batch_size: 2,
        chunk_size: 3,
        number_of_chunks: 3,
        compressed_inputs: true,
        compressed_outputs: true,
        base_directory: "base".to_string(),
        coordinator_contributor: Participant::Contributor("c".to_string()),
        coordinator_verifier: Participant::Verifier("v".to_string()),
    }
}

#[test]
fn empty_accumulator_holds_generators() {
    let env = environment();
    let g1 = vec![0xa1u8; 48];
    let g2 = vec![0xb2u8; 96];
    let buffer = initialization(&env, 0, true, &g1, &g2);
    assert_eq!(buffer.len() as u64, env.contribution_size(0, true));
    assert!(buffer[..64].iter().all(|b| *b == 0));
    for (e, g) in [
        (ElementType::TauG1, &g1),
        (ElementType::TauG2, &g2),
        (ElementType::AlphaG1, &g1),
        (ElementType::BetaG1, &g1),
        (ElementType::BetaG2, &g2),
    ] {
        let (start, end) = env.element_range(0, true, e);
        let region = &buffer[start as usize..end as usize];
        assert_eq!(region.len() % g.len(), 0);
        for chunk in region.chunks(g.len()) {
            assert_eq!(chunk, &g[..]);
        }
    }
    // The last chunk holds one tau G1 element and nothing else.
    let last = initialization(&env, 2, false, &vec![1u8; 96], &vec![2u8; 192]);
    assert_eq!(last.len(), 64 + 96);
    assert!(last[64..].iter().all(|b| *b == 1));
}
