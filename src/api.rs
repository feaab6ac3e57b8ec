use vstd::prelude::*;

use crate::coordinator::Coordinator;
use crate::errors::CoordinatorError;
use crate::locator::Locator;
use crate::round::Participant;

verus! {

pub const STATUS_BAD_REQUEST: u16 = 400;

pub const STATUS_UNAUTHORIZED: u16 = 401;

pub const STATUS_CONFLICT: u16 = 409;

/// The HTTP status that answers a refusal: an authorization failure is
/// 401, a lock conflict 409, anything else 400.
pub open spec fn status_of(e: CoordinatorError) -> u16 {
    match e {
        CoordinatorError::UnauthorizedChunkContributor
        | CoordinatorError::UnauthorizedChunkVerifier
        | CoordinatorError::ExpectedVerifier => STATUS_UNAUTHORIZED,
        CoordinatorError::ChunkLockAlreadyAcquired
        | CoordinatorError::ChunkNotLockedOrByWrongParticipant => STATUS_CONFLICT,
        _ => STATUS_BAD_REQUEST,
    }
}

pub fn http_status(e: CoordinatorError) -> (r: u16)
    ensures
        r == status_of(e),
{
    match e {
        CoordinatorError::UnauthorizedChunkContributor
        | CoordinatorError::UnauthorizedChunkVerifier
        | CoordinatorError::ExpectedVerifier => STATUS_UNAUTHORIZED,
        CoordinatorError::ChunkLockAlreadyAcquired
        | CoordinatorError::ChunkNotLockedOrByWrongParticipant => STATUS_CONFLICT,
        _ => STATUS_BAD_REQUEST,
    }
}

/// Answers a contributor that asks where to write its contribution to
/// chunk `c`: the path, or 401 for anyone who is not a contributor of the
/// current round, and while the contribution has no place yet.
pub fn chunk_get(coordinator: &Coordinator, c: u64, participant: &Participant) -> (r: Result<String, u16>)
    requires
        coordinator.wf(),
    ensures
        !(coordinator.started() && coordinator.current().authorized_contributor(*participant)) ==> r
            == Err::<String, u16>(STATUS_UNAUTHORIZED),
        coordinator.started() && coordinator.current().authorized_contributor(*participant) ==> {
            &&& coordinator.next_refusal(c) is Some ==> r == Err::<String, u16>(STATUS_UNAUTHORIZED)
            &&& coordinator.next_refusal(c) is None ==> {
                let l = Locator::ContributionFile(
                    coordinator.round_height,
                    c,
                    coordinator.current().chunks@[c as int].contributions@.len() as u64,
                    false,
                );
                let unlocked = coordinator.current().chunks@[c as int].lock_holder is None;
                &&& unlocked || coordinator.has_file(l) ==> r == Err::<String, u16>(STATUS_UNAUTHORIZED)
                &&& !unlocked && !coordinator.has_file(l) ==> r is Ok && r->Ok_0@ == coordinator.path(l)
            }
        },
{
    if !coordinator.is_current_contributor(participant) {
        return Err(STATUS_UNAUTHORIZED);
    }
    match coordinator.next_contribution_locator(c) {
        Ok(path) => Ok(path),
        Err(_) => Err(STATUS_UNAUTHORIZED),
    }
}

/// Records the contribution that `participant` signals done for chunk `c`;
/// a refusal is answered with 400 and changes nothing.
pub fn chunk_post(coordinator: &mut Coordinator, c: u64, participant: Participant) -> (r: Result<(), u16>)
    requires
        old(coordinator).wf(),
    ensures
        final(coordinator).wf(),
        old(coordinator).add_refusal(c, participant) is Some ==> r == Err::<(), u16>(
            STATUS_BAD_REQUEST,
        ) && *final(coordinator) == *old(coordinator),
        old(coordinator).add_refusal(c, participant) is None ==> r is Ok && final(coordinator).current().contribution_added(
            &old(coordinator).current(),
            c,
            participant,
            Locator::ContributionFile(
                old(coordinator).round_height,
                c,
                old(coordinator).current().chunks@[c as int].contributions@.len() as u64,
                false,
            ),
        ),
{
    match coordinator.add_contribution(c, participant) {
        Ok(_) => Ok(()),
        Err(_) => Err(STATUS_BAD_REQUEST),
    }
}

} // verus!
