use vstd::prelude::*;

use crate::round::Round;
use crate::settings::{lower_of, lowercase, Environment};
use crate::round::Participant;

verus! {

/// The header that authenticates a request to the coordinator.
#[derive(Clone, Debug)]
pub struct AuthenticationHeader {
    pub auth_type: String,
    pub address: String,
    pub signature: String,
}

impl AuthenticationHeader {
    pub fn new(auth_type: String, address: String, signature: String) -> (r: AuthenticationHeader)
        ensures
            r.auth_type == auth_type,
            r.address == address,
            r.signature == signature,
    {
        AuthenticationHeader { auth_type, address, signature }
    }

    /// The header's value: `{auth_type} {address}:{signature}`.
    pub fn to_header_string(&self) -> (r: String)
        ensures
            r@ == self.auth_type@ + " "@ + self.address@ + ":"@ + self.signature@,
    {
        let mut s = self.auth_type.clone();
        s.append(" ");
        s.append(self.address.as_str());
        s.append(":");
        s.append(self.signature.as_str());
        s
    }
}

/// The message that a participant signs for a request:
/// `{method} {path}`, both in lower case.
pub fn signing_message(method: &str, path: &str) -> (r: String)
    ensures
        r@ == lower_of(method@) + " "@ + lower_of(path@),
{
    let mut s = lowercase(method);
    s.append(" ");
    let p = lowercase(path);
    s.append(p.as_str());
    s
}

/// The initial round of a ceremony as the coordinator first stores it:
/// height 0, no contributors, the coordinator's verifier alone.
pub fn test_round_0(environment: &Environment, started_at: i64) -> (r: Round)
    ensures
        r.wf(),
        r.height == 0,
        r.started_at == started_at,
        r.contributor_ids@.len() == 0,
        r.verifier_ids@.len() == 1,
        r.verifier_ids@[0]@ == environment.coordinator_verifier@,
        r.expected_contributions == 1,
        r.chunks@.len() == environment.number_of_chunks,
        r.fresh(*environment, 0, started_at, Seq::empty(), r.verifier_ids@),
        r.complete(),
{
    let mut verifiers: Vec<Participant> = Vec::new();
    verifiers.push(environment.coordinator_verifier.duplicate());
    let round = Round::new(environment, 0, started_at, Vec::new(), verifiers);
    assert(round.contributor_ids@ =~= Seq::<Participant>::empty());
    assert forall|c: int| 0 <= c < round.chunks@.len() implies (#[trigger] round.chunks@[c]).complete(
        round.expected_contributions,
    ) by {
        assert(Round::fresh_chunk(round.chunks@[c], 0, c as u64, *environment));
    }
    round
}

} // verus!
