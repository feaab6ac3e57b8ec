use vstd::prelude::*;

use crate::errors::CoordinatorError;
use crate::locator::Locator;
use crate::settings::Environment;

verus! {

/// A participant of the ceremony, identified by its address.
#[derive(Clone, Debug)]
pub enum Participant {
    Contributor(String),
    Verifier(String),
}

impl View for Participant {
    /// Whether the participant is a verifier, and its address.
    type V = (bool, Seq<char>);

    open spec fn view(&self) -> (bool, Seq<char>) {
        match self {
            Participant::Contributor(a) => (false, a@),
            Participant::Verifier(a) => (true, a@),
        }
    }
}

impl Participant {
    pub fn is_contributor(&self) -> (r: bool)
        ensures
            r == !self@.0,
    {
        match self {
            Participant::Contributor(_) => true,
            Participant::Verifier(_) => false,
        }
    }

    pub fn is_verifier(&self) -> (r: bool)
        ensures
            r == self@.0,
    {
        !self.is_contributor()
    }

    /// Equality by role and address.
    pub fn same_as(&self, other: &Participant) -> (r: bool)
        ensures
            r == (self@ == other@),
    {
        match (self, other) {
            (Participant::Contributor(a), Participant::Contributor(b)) => a.eq(b),
            (Participant::Verifier(a), Participant::Verifier(b)) => a.eq(b),
            _ => false,
        }
    }

    /// A copy with the same role and address.
    pub fn duplicate(&self) -> (r: Participant)
        ensures
            r@ == self@,
    {
        match self {
            Participant::Contributor(a) => Participant::Contributor(a.clone()),
            Participant::Verifier(a) => Participant::Verifier(a.clone()),
        }
    }
}

/// Whether `p` occurs in `v`, by role and address.
pub open spec fn listed(v: Seq<Participant>, p: Participant) -> bool {
    exists|i: int| 0 <= i < v.len() && (#[trigger] v[i])@ == p@
}

pub fn contains_participant(v: &Vec<Participant>, p: &Participant) -> (r: bool)
    ensures
        r == listed(v@, *p),
{
    let mut i: usize = 0;
    while i < v.len()
        invariant
            i <= v@.len(),
            forall|j: int| 0 <= j < i ==> (#[trigger] v@[j])@ != p@,
        decreases v@.len() - i,
    {
        if v[i].same_as(p) {
            return true;
        }
        i = i + 1;
    }
    false
}

/// One contribution to a chunk. Its id is its position in the chunk.
#[derive(Clone, Debug)]
pub struct Contribution {
    pub contributor: Option<Participant>,
    pub contributed_locator: Locator,
    pub verifier: Option<Participant>,
    pub verified_locator: Option<Locator>,
    pub verified: bool,
}

impl Contribution {
    /// A verified contribution names its verifier and its verified file.
    pub open spec fn wf(&self) -> bool {
        self.verified ==> self.verifier is Some && self.verified_locator is Some
    }

    pub fn is_verified(&self) -> (r: bool)
        ensures
            r == self.verified,
    {
        self.verified
    }
}

/// A chunk of the accumulator: its contributions in order of id, and the
/// participant that holds its lock, if any.
#[derive(Clone, Debug)]
pub struct Chunk {
    pub chunk_id: u64,
    pub lock_holder: Option<Participant>,
    pub contributions: Vec<Contribution>,
}

impl Chunk {
    pub open spec fn tail(&self) -> Contribution {
        self.contributions@.last()
    }

    /// Contribution ids are exactly the prefix `0..len` (an id is a
    /// position), contribution 0 is verified, only the tail may be
    /// unverified, and a contributor holds the lock only over a verified
    /// tail, a verifier only over an unverified one.
    pub open spec fn wf(&self) -> bool {
        &&& 1 <= self.contributions@.len() <= u64::MAX
        &&& self.contributions@[0].verified
        &&& forall|i: int| 0 <= i < self.contributions@.len() ==> (#[trigger] self.contributions@[i]).wf()
        &&& forall|i: int|
            0 <= i < self.contributions@.len() - 1 ==> (#[trigger] self.contributions@[i]).verified
        &&& self.lock_holder is Some ==> (self.lock_holder->0@.0 <==> !self.tail().verified)
    }

    pub open spec fn locked_by(&self, p: Participant) -> bool {
        self.lock_holder is Some && self.lock_holder->0@ == p@
    }

    pub open spec fn complete(&self, expected: u64) -> bool {
        self.contributions@.len() == expected && self.tail().verified
    }

    /// Whether the chunk is well formed, checked at run time.
    pub fn is_well_formed(&self) -> (r: bool)
        ensures
            r == self.wf(),
    {
        let n = self.contributions.len();
        if n < 1 {
            return false;
        }
        if !self.contributions[0].verified {
            return false;
        }
        let mut i: usize = 0;
        while i < n
            invariant
                n == self.contributions@.len(),
                1 <= n,
                i <= n,
                forall|j: int| 0 <= j < i ==> (#[trigger] self.contributions@[j]).wf(),
                forall|j: int| 0 <= j < i && j < n - 1 ==> (#[trigger] self.contributions@[j]).verified,
            decreases n - i,
        {
            let c = &self.contributions[i];
            if c.verified && (c.verifier.is_none() || c.verified_locator.is_none()) {
                return false;
            }
            if i + 1 < n && !c.verified {
                return false;
            }
            i = i + 1;
        }
        match &self.lock_holder {
            Some(holder) => holder.is_verifier() == !self.contributions[n - 1].verified,
            None => true,
        }
    }

    pub fn is_locked(&self) -> (r: bool)
        ensures
            r == self.lock_holder is Some,
    {
        self.lock_holder.is_some()
    }

    pub fn is_unlocked(&self) -> (r: bool)
        ensures
            r == self.lock_holder is None,
    {
        self.lock_holder.is_none()
    }

    pub fn is_locked_by(&self, p: &Participant) -> (r: bool)
        ensures
            r == self.locked_by(*p),
    {
        match &self.lock_holder {
            Some(h) => h.same_as(p),
            None => false,
        }
    }

    /// The id of the latest contribution.
    pub fn current_contribution_id(&self) -> (r: u64)
        requires
            self.wf(),
        ensures
            r == self.contributions@.len() - 1,
    {
        (self.contributions.len() - 1) as u64
    }

    pub fn get_contribution(&self, id: u64) -> (r: Result<&Contribution, CoordinatorError>)
        ensures
            id < self.contributions@.len() ==> r == Ok::<&Contribution, CoordinatorError>(
                &self.contributions@[id as int],
            ),
            id >= self.contributions@.len() ==> r == Err::<&Contribution, CoordinatorError>(
                CoordinatorError::ContributionMissing,
            ),
    {
        if id < self.contributions.len() as u64 {
            Ok(&self.contributions[id as usize])
        } else {
            Err(CoordinatorError::ContributionMissing)
        }
    }

    /// Whether the chunk holds the expected number of contributions.
    pub fn only_contributions_complete(&self, expected: u64) -> (r: bool)
        ensures
            r == (self.contributions@.len() == expected),
    {
        self.contributions.len() as u64 == expected
    }

    /// Whether the chunk holds the expected number of contributions, the
    /// last of them verified.
    pub fn is_complete(&self, expected: u64) -> (r: bool)
        requires
            self.wf(),
        ensures
            r == self.complete(expected),
    {
        self.contributions.len() as u64 == expected && self.contributions[self.contributions.len()
            - 1].verified
    }

    /// The id that the next contribution will have: refused when the chunk
    /// is full or its latest contribution still awaits verification.
    pub fn next_contribution_id(&self, expected: u64) -> (r: Result<u64, CoordinatorError>)
        requires
            self.wf(),
        ensures
            self.contributions@.len() >= expected ==> r == Err::<u64, CoordinatorError>(
                CoordinatorError::ContributionsComplete,
            ),
            self.contributions@.len() < expected && !self.tail().verified ==> r == Err::<
                u64,
                CoordinatorError,
            >(CoordinatorError::ContributionMissingVerification),
            self.contributions@.len() < expected && self.tail().verified ==> r == Ok::<
                u64,
                CoordinatorError,
            >(self.contributions@.len() as u64),
    {
        let n = self.contributions.len() as u64;
        if n >= expected {
            Err(CoordinatorError::ContributionsComplete)
        } else if !self.contributions[self.contributions.len() - 1].verified {
            Err(CoordinatorError::ContributionMissingVerification)
        } else {
            Ok(n)
        }
    }

    /// Whether `id` is the id that the next contribution will have.
    pub fn is_next_contribution_id(&self, id: u64, expected: u64) -> (r: bool)
        requires
            self.wf(),
        ensures
            r == (self.contributions@.len() < expected && self.tail().verified
                && id == self.contributions@.len()),
    {
        match self.next_contribution_id(expected) {
            Ok(next) => next == id,
            Err(_) => false,
        }
    }
}

/// Replaces the element at `i`, handing back the one that stood there.
pub(crate) fn replace_at<T>(v: &mut Vec<T>, i: usize, x: T) -> (r: T)
    requires
        i < old(v)@.len(),
    ensures
        r == old(v)@[i as int],
        final(v)@ == old(v)@.update(i as int, x),
{
    let r = v.remove(i);
    v.insert(i, x);
    assert(final(v)@ =~= old(v)@.update(i as int, x));
    r
}

/// The state of one round: who may take part, and its chunks.
#[derive(Clone, Debug)]
pub struct Round {
    pub height: u64,
    /// Seconds since the Unix epoch at which the round started.
    pub started_at: i64,
    pub contributor_ids: Vec<Participant>,
    pub verifier_ids: Vec<Participant>,
    pub chunks: Vec<Chunk>,
    pub expected_contributions: u64,
}

impl Round {
    pub open spec fn wf(&self) -> bool {
        &&& self.expected_contributions >= 1
        &&& forall|i: int|
            0 <= i < self.chunks@.len() ==> {
                &&& (#[trigger] self.chunks@[i]).wf()
                &&& self.chunks@[i].chunk_id == i
                &&& self.chunks@[i].contributions@.len() <= self.expected_contributions
            }
    }

    pub open spec fn authorized_contributor(&self, p: Participant) -> bool {
        !p@.0 && listed(self.contributor_ids@, p)
    }

    pub open spec fn authorized_verifier(&self, p: Participant) -> bool {
        p@.0 && listed(self.verifier_ids@, p)
    }

    /// Every chunk holds the expected number of contributions, the last of
    /// them verified.
    pub open spec fn complete(&self) -> bool {
        forall|i: int|
            0 <= i < self.chunks@.len() ==> (#[trigger] self.chunks@[i]).complete(
                self.expected_contributions,
            )
    }

    pub open spec fn holds_a_lock(&self, p: Participant) -> bool {
        exists|i: int| 0 <= i < self.chunks@.len() && (#[trigger] self.chunks@[i]).locked_by(p)
    }

    /// Why `p` may not take the lock of chunk `c`, if it may not.
    pub open spec fn lock_refusal(&self, c: u64, p: Participant) -> Option<CoordinatorError> {
        if c >= self.chunks@.len() {
            Some(CoordinatorError::ChunkMissing)
        } else if self.chunks@[c as int].lock_holder is Some || self.holds_a_lock(p) {
            Some(CoordinatorError::ChunkLockAlreadyAcquired)
        } else if !p@.0 {
            if self.authorized_contributor(p) && self.chunks@[c as int].tail().verified
                && self.chunks@[c as int].contributions@.len() < self.expected_contributions {
                None
            } else {
                Some(CoordinatorError::UnauthorizedChunkContributor)
            }
        } else {
            if self.authorized_verifier(p) && !self.chunks@[c as int].tail().verified {
                None
            } else {
                Some(CoordinatorError::UnauthorizedChunkVerifier)
            }
        }
    }

    /// Why `p` may not add contribution `id` to chunk `c`, if it may not.
    pub open spec fn contribution_refusal(&self, c: u64, id: u64, p: Participant) -> Option<
        CoordinatorError,
    > {
        if c >= self.chunks@.len() {
            Some(CoordinatorError::ChunkMissing)
        } else if p@.0 {
            Some(CoordinatorError::UnauthorizedChunkContributor)
        } else if !self.chunks@[c as int].locked_by(p) {
            Some(CoordinatorError::ChunkNotLockedOrByWrongParticipant)
        } else if self.chunks@[c as int].contributions@.len() >= self.expected_contributions {
            Some(CoordinatorError::ContributionsComplete)
        } else if id != self.chunks@[c as int].contributions@.len() {
            Some(CoordinatorError::ContributionIdMismatch)
        } else {
            None
        }
    }

    /// Why `p` may not verify contribution `id` of chunk `c`, if it may not.
    pub open spec fn verification_refusal(&self, c: u64, id: u64, p: Participant) -> Option<
        CoordinatorError,
    > {
        if c >= self.chunks@.len() {
            Some(CoordinatorError::ChunkMissing)
        } else if id == 0 {
            Some(CoordinatorError::VerificationOnContributionIdZero)
        } else if id >= self.chunks@[c as int].contributions@.len() {
            Some(CoordinatorError::ContributionMissing)
        } else if self.chunks@[c as int].contributions@[id as int].verified {
            Some(CoordinatorError::ContributionAlreadyVerified)
        } else if !self.chunks@[c as int].locked_by(p) {
            Some(CoordinatorError::ChunkNotLockedOrByWrongParticipant)
        } else {
            None
        }
    }

    /// Every field but the chunks is the same, and every chunk but `c`.
    pub open spec fn same_but_chunk(&self, other: &Round, c: int) -> bool {
        &&& self.height == other.height
        &&& self.started_at == other.started_at
        &&& self.contributor_ids == other.contributor_ids
        &&& self.verifier_ids == other.verifier_ids
        &&& self.expected_contributions == other.expected_contributions
        &&& self.chunks@.len() == other.chunks@.len()
        &&& forall|i: int| 0 <= i < self.chunks@.len() && i != c ==> self.chunks@[i] == other.chunks@[i]
    }

    /// `self` is `old` with `p` holding the lock of chunk `c`.
    pub open spec fn lock_taken(&self, old: &Round, c: u64, p: Participant) -> bool {
        &&& self.same_but_chunk(old, c as int)
        &&& self.chunks@[c as int] == (Chunk { lock_holder: Some(p), ..old.chunks@[c as int] })
    }

    /// `self` is `old` with a new unverified contribution of `p`, stored at
    /// `locator`, appended to chunk `c`, whose lock is released.
    pub open spec fn contribution_added(&self, old: &Round, c: u64, p: Participant, locator: Locator) -> bool {
        &&& self.same_but_chunk(old, c as int)
        &&& self.chunks@[c as int].chunk_id == old.chunks@[c as int].chunk_id
        &&& self.chunks@[c as int].lock_holder is None
        &&& self.chunks@[c as int].contributions@ == old.chunks@[c as int].contributions@.push(
            (Contribution {
                contributor: Some(p),
                contributed_locator: locator,
                verifier: None,
                verified_locator: None,
                verified: false,
            }),
        )
    }

    /// `self` is `old` with contribution `id` of chunk `c` verified by `p`,
    /// its verified file at `locator`, and the chunk's lock released.
    pub open spec fn contribution_verified(&self, old: &Round, c: u64, id: u64, p: Participant, locator: Locator) -> bool {
        &&& self.same_but_chunk(old, c as int)
        &&& self.chunks@[c as int].chunk_id == old.chunks@[c as int].chunk_id
        &&& self.chunks@[c as int].lock_holder is None
        &&& self.chunks@[c as int].contributions@ == old.chunks@[c as int].contributions@.update(
            id as int,
            (Contribution {
                verifier: Some(p),
                verified_locator: Some(locator),
                verified: true,
                ..old.chunks@[c as int].contributions@[id as int]
            }),
        )
    }

    /// Chunk `c` of a new round at height `h`: unlocked, with contribution
    /// 0 verified by the coordinator's verifier.
    pub open spec fn fresh_chunk(ch: Chunk, h: u64, c: u64, env: Environment) -> bool {
        &&& ch.chunk_id == c
        &&& ch.lock_holder is None
        &&& ch.contributions@.len() == 1
        &&& ch.contributions@[0].contributor is None
        &&& ch.contributions@[0].contributed_locator == Locator::ContributionFile(h, c, 0, true)
        &&& ch.contributions@[0].verifier is Some
        &&& ch.contributions@[0].verifier->0@ == env.coordinator_verifier@
        &&& ch.contributions@[0].verified_locator == Some(Locator::ContributionFile(h, c, 0, true))
        &&& ch.contributions@[0].verified
    }

    /// A new round at height `h` for the given participants: one chunk per
    /// chunk of the ceremony, each expecting one contribution per
    /// contributor after contribution 0.
    pub open spec fn fresh(&self, env: Environment, h: u64, started_at: i64, contributors: Seq<Participant>, verifiers: Seq<Participant>) -> bool {
        &&& self.height == h
        &&& self.started_at == started_at
        &&& self.contributor_ids@ == contributors
        &&& self.verifier_ids@ == verifiers
        &&& self.expected_contributions == contributors.len() + 1
        &&& self.chunks@.len() == env.number_of_chunks
        &&& forall|c: int| 0 <= c < self.chunks@.len() ==> Self::fresh_chunk(#[trigger] self.chunks@[c], h, c as u64, env)
    }

    pub fn new(environment: &Environment, height: u64, started_at: i64, contributors: Vec<Participant>, verifiers: Vec<Participant>) -> (r: Round)
        requires
            contributors@.len() < u64::MAX,
        ensures
            r.wf(),
            r.fresh(*environment, height, started_at, contributors@, verifiers@),
    {
        let mut chunks: Vec<Chunk> = Vec::new();
        let mut c: u64 = 0;
        let expected = contributors.len() as u64 + 1;
        while c < environment.number_of_chunks
            invariant
                c <= environment.number_of_chunks,
                chunks@.len() == c,
                expected >= 1,
                forall|i: int| 0 <= i < c ==> Self::fresh_chunk(#[trigger] chunks@[i], height, i as u64, *environment),
                forall|i: int| 0 <= i < c ==> (#[trigger] chunks@[i]).wf(),
            decreases environment.number_of_chunks - c,
        {
            let locator = Locator::ContributionFile(height, c, 0, true);
            let mut contributions: Vec<Contribution> = Vec::new();
            contributions.push(Contribution {
                contributor: None,
                contributed_locator: locator,
                verifier: Some(environment.coordinator_verifier.duplicate()),
                verified_locator: Some(locator),
                verified: true,
            });
            let chunk = Chunk { chunk_id: c, lock_holder: None, contributions };
            assert(chunk.wf());
            chunks.push(chunk);
            c = c + 1;
        }
        Round {
            height,
            started_at,
            contributor_ids: contributors,
            verifier_ids: verifiers,
            chunks,
            expected_contributions: expected,
        }
    }

    /// Whether the round is well formed, checked at run time.
    pub fn is_well_formed(&self) -> (r: bool)
        ensures
            r == self.wf(),
    {
        if self.expected_contributions < 1 {
            return false;
        }
        let mut i: usize = 0;
        while i < self.chunks.len()
            invariant
                self.expected_contributions >= 1,
                i <= self.chunks@.len(),
                forall|j: int|
                    0 <= j < i ==> {
                        &&& (#[trigger] self.chunks@[j]).wf()
                        &&& self.chunks@[j].chunk_id == j
                        &&& self.chunks@[j].contributions@.len() <= self.expected_contributions
                    },
            decreases self.chunks@.len() - i,
        {
            let chunk = &self.chunks[i];
            if chunk.chunk_id != i as u64 || chunk.contributions.len() as u64
                > self.expected_contributions || !chunk.is_well_formed() {
                return false;
            }
            i = i + 1;
        }
        true
    }

    /// `self` is `old` with the latest contribution of chunk `c` taken out
    /// and the chunk's lock released.
    pub open spec fn contribution_rejected(&self, old: &Round, c: u64) -> bool {
        &&& self.same_but_chunk(old, c as int)
        &&& self.chunks@[c as int].chunk_id == old.chunks@[c as int].chunk_id
        &&& self.chunks@[c as int].lock_holder is None
        &&& self.chunks@[c as int].contributions@ == old.chunks@[c as int].contributions@.drop_last()
    }

    pub fn get_height(&self) -> (r: u64)
        ensures
            r == self.height,
    {
        self.height
    }

    pub fn expected_num_contributions(&self) -> (r: u64)
        ensures
            r == self.expected_contributions,
    {
        self.expected_contributions
    }

    pub fn num_contributors(&self) -> (r: usize)
        ensures
            r == self.contributor_ids@.len(),
    {
        self.contributor_ids.len()
    }

    pub fn get_verifiers(&self) -> (r: &Vec<Participant>)
        ensures
            r == &self.verifier_ids,
    {
        &self.verifier_ids
    }

    pub fn get_chunk(&self, c: u64) -> (r: Result<&Chunk, CoordinatorError>)
        ensures
            c < self.chunks@.len() ==> r == Ok::<&Chunk, CoordinatorError>(&self.chunks@[c as int]),
            c >= self.chunks@.len() ==> r == Err::<&Chunk, CoordinatorError>(
                CoordinatorError::ChunkMissing,
            ),
    {
        if c < self.chunks.len() as u64 {
            Ok(&self.chunks[c as usize])
        } else {
            Err(CoordinatorError::ChunkMissing)
        }
    }

    pub fn is_authorized_contributor(&self, p: &Participant) -> (r: bool)
        ensures
            r == self.authorized_contributor(*p),
    {
        p.is_contributor() && contains_participant(&self.contributor_ids, p)
    }

    pub fn is_authorized_verifier(&self, p: &Participant) -> (r: bool)
        ensures
            r == self.authorized_verifier(*p),
    {
        p.is_verifier() && contains_participant(&self.verifier_ids, p)
    }

    pub fn is_chunk_locked_by(&self, c: u64, p: &Participant) -> (r: bool)
        ensures
            r == (c < self.chunks@.len() && self.chunks@[c as int].locked_by(*p)),
    {
        c < self.chunks.len() as u64 && self.chunks[c as usize].is_locked_by(p)
    }

    pub fn is_complete(&self) -> (r: bool)
        requires
            self.wf(),
        ensures
            r == self.complete(),
    {
        let mut i: usize = 0;
        while i < self.chunks.len()
            invariant
                self.wf(),
                i <= self.chunks@.len(),
                forall|j: int|
                    0 <= j < i ==> (#[trigger] self.chunks@[j]).complete(
                        self.expected_contributions,
                    ),
            decreases self.chunks@.len() - i,
        {
            if !self.chunks[i].is_complete(self.expected_contributions) {
                return false;
            }
            i = i + 1;
        }
        true
    }

    fn holds_any_lock(&self, p: &Participant) -> (r: bool)
        ensures
            r == self.holds_a_lock(*p),
    {
        let mut i: usize = 0;
        while i < self.chunks.len()
            invariant
                i <= self.chunks@.len(),
                forall|j: int| 0 <= j < i ==> !(#[trigger] self.chunks@[j]).locked_by(*p),
            decreases self.chunks@.len() - i,
        {
            if self.chunks[i].is_locked_by(p) {
                return true;
            }
            i = i + 1;
        }
        false
    }

    /// Whether `p` may take the lock of chunk `c`: a participant holds at
    /// most one lock; a contributor takes a chunk whose latest contribution
    /// is verified and which is not yet full, a verifier one whose latest
    /// contribution awaits verification.
    pub fn lock_check(&self, c: u64, p: &Participant) -> (r: Result<(), CoordinatorError>)
        requires
            self.wf(),
        ensures
            r == (match self.lock_refusal(c, *p) {
                Some(e) => Err(e),
                None => Ok(()),
            }),
    {
        if c >= self.chunks.len() as u64 {
            return Err(CoordinatorError::ChunkMissing);
        }
        let i = c as usize;
        if self.chunks[i].is_locked() || self.holds_any_lock(p) {
            return Err(CoordinatorError::ChunkLockAlreadyAcquired);
        }
        let n = self.chunks[i].contributions.len();
        let tail_verified = self.chunks[i].contributions[n - 1].verified;
        if p.is_contributor() {
            if !(self.is_authorized_contributor(p) && tail_verified && (n as u64)
                < self.expected_contributions) {
                return Err(CoordinatorError::UnauthorizedChunkContributor);
            }
        } else {
            if !(self.is_authorized_verifier(p) && !tail_verified) {
                return Err(CoordinatorError::UnauthorizedChunkVerifier);
            }
        }
        Ok(())
    }

    /// Gives `p` the lock of chunk `c`, where `lock_check` allows it. On
    /// refusal nothing changes.
    pub fn try_lock_chunk(&mut self, c: u64, p: Participant) -> (r: Result<(), CoordinatorError>)
        requires
            old(self).wf(),
        ensures
            final(self).wf(),
            r == (match old(self).lock_refusal(c, p) {
                Some(e) => Err(e),
                None => Ok(()),
            }),
            r is Err ==> *final(self) == *old(self),
            r is Ok ==> final(self).lock_taken(old(self), c, p),
    {
        let check = self.lock_check(c, &p);
        if check.is_err() {
            return check;
        }
        let len = self.chunks.len();
        assert(c < len);
        let i = c as usize;
        let empty = Chunk { chunk_id: 0, lock_holder: None, contributions: Vec::new() };
        let mut chunk = replace_at(&mut self.chunks, i, empty);
        chunk.lock_holder = Some(p);
        replace_at(&mut self.chunks, i, chunk);
        assert(self.chunks@[c as int].wf());
        Ok(())
    }

    /// Takes the lock of chunk `c` from whoever holds it.
    pub fn release_lock(&mut self, c: u64) -> (r: Result<(), CoordinatorError>)
        requires
            old(self).wf(),
        ensures
            final(self).wf(),
            c >= old(self).chunks@.len() ==> r == Err::<(), CoordinatorError>(
                CoordinatorError::ChunkMissing,
            ),
            c < old(self).chunks@.len() && old(self).chunks@[c as int].lock_holder is None ==> r
                == Err::<(), CoordinatorError>(CoordinatorError::ChunkNotLocked),
            c < old(self).chunks@.len() && old(self).chunks@[c as int].lock_holder is Some ==> r is Ok,
            r is Err ==> *final(self) == *old(self),
            r is Ok ==> c < old(self).chunks@.len() && old(self).chunks@[c as int].lock_holder is Some
                && final(self).same_but_chunk(old(self), c as int) && final(self).chunks@[c as int]
                == (Chunk { lock_holder: None, ..old(self).chunks@[c as int] }),
    {
        if c >= self.chunks.len() as u64 {
            return Err(CoordinatorError::ChunkMissing);
        }
        let len = self.chunks.len();
        assert(c < len);
        let i = c as usize;
        if self.chunks[i].is_unlocked() {
            return Err(CoordinatorError::ChunkNotLocked);
        }
        let empty = Chunk { chunk_id: 0, lock_holder: None, contributions: Vec::new() };
        let mut chunk = replace_at(&mut self.chunks, i, empty);
        chunk.lock_holder = None;
        replace_at(&mut self.chunks, i, chunk);
        Ok(())
    }

    /// Whether `p` may verify (or reject) contribution `id` of chunk `c`.
    pub fn verification_check(&self, c: u64, id: u64, p: &Participant) -> (r: Result<(), CoordinatorError>)
        ensures
            r == (match self.verification_refusal(c, id, *p) {
                Some(e) => Err(e),
                None => Ok(()),
            }),
    {
        if c >= self.chunks.len() as u64 {
            return Err(CoordinatorError::ChunkMissing);
        }
        let len = self.chunks.len();
        assert(c < len);
        let i = c as usize;
        if id == 0 {
            return Err(CoordinatorError::VerificationOnContributionIdZero);
        }
        if id >= self.chunks[i].contributions.len() as u64 {
            return Err(CoordinatorError::ContributionMissing);
        }
        if self.chunks[i].contributions[id as usize].verified {
            return Err(CoordinatorError::ContributionAlreadyVerified);
        }
        if !self.chunks[i].is_locked_by(p) {
            return Err(CoordinatorError::ChunkNotLockedOrByWrongParticipant);
        }
        Ok(())
    }

    /// Takes out contribution `id` of chunk `c`, whose verification by the
    /// verifier `p` that holds the chunk's lock failed, and releases the
    /// lock: the chunk goes back to its last verified contribution. Refused
    /// as `verify_contribution` would be; on refusal nothing changes.
    pub fn reject_contribution(&mut self, c: u64, id: u64, p: &Participant) -> (r: Result<(), CoordinatorError>)
        requires
            old(self).wf(),
        ensures
            final(self).wf(),
            r == (match old(self).verification_refusal(c, id, *p) {
                Some(e) => Err(e),
                None => Ok(()),
            }),
            r is Err ==> *final(self) == *old(self),
            r is Ok ==> final(self).contribution_rejected(old(self), c),
    {
        if c >= self.chunks.len() as u64 {
            return Err(CoordinatorError::ChunkMissing);
        }
        let len = self.chunks.len();
        assert(c < len);
        let i = c as usize;
        if id == 0 {
            return Err(CoordinatorError::VerificationOnContributionIdZero);
        }
        if id >= self.chunks[i].contributions.len() as u64 {
            return Err(CoordinatorError::ContributionMissing);
        }
        if self.chunks[i].contributions[id as usize].verified {
            return Err(CoordinatorError::ContributionAlreadyVerified);
        }
        if !self.chunks[i].is_locked_by(p) {
            return Err(CoordinatorError::ChunkNotLockedOrByWrongParticipant);
        }
        let empty = Chunk { chunk_id: 0, lock_holder: None, contributions: Vec::new() };
        let mut chunk = replace_at(&mut self.chunks, i, empty);
        chunk.lock_holder = None;
        let _ = chunk.contributions.pop();
        replace_at(&mut self.chunks, i, chunk);
        proof {
            let ch = self.chunks@[c as int];
            let o = old(self).chunks@[c as int];
            assert(id == o.contributions@.len() - 1);
            assert forall|j: int| 0 <= j < ch.contributions@.len() implies (
            #[trigger] ch.contributions@[j]).wf() && ch.contributions@[j].verified by {
                assert(ch.contributions@[j] == o.contributions@[j]);
                assert(o.contributions@[j].wf());
            }
            assert(ch.wf());
        }
        Ok(())
    }

    /// Appends contribution `id`, stored at `locator`, to chunk `c` for the
    /// contributor that holds its lock, and releases the lock. On refusal
    /// nothing changes.
    pub fn add_contribution(&mut self, c: u64, id: u64, p: Participant, locator: Locator) -> (r:
        Result<(), CoordinatorError>)
        requires
            old(self).wf(),
        ensures
            final(self).wf(),
            r == (match old(self).contribution_refusal(c, id, p) {
                Some(e) => Err(e),
                None => Ok(()),
            }),
            r is Err ==> *final(self) == *old(self),
            r is Ok ==> final(self).contribution_added(old(self), c, p, locator),
    {
        if c >= self.chunks.len() as u64 {
            return Err(CoordinatorError::ChunkMissing);
        }
        let i = c as usize;
        if p.is_verifier() {
            return Err(CoordinatorError::UnauthorizedChunkContributor);
        }
        if !self.chunks[i].is_locked_by(&p) {
            return Err(CoordinatorError::ChunkNotLockedOrByWrongParticipant);
        }
        let n = self.chunks[i].contributions.len() as u64;
        if n >= self.expected_contributions {
            return Err(CoordinatorError::ContributionsComplete);
        }
        if id != n {
            return Err(CoordinatorError::ContributionIdMismatch);
        }
        let empty = Chunk { chunk_id: 0, lock_holder: None, contributions: Vec::new() };
        let mut chunk = replace_at(&mut self.chunks, i, empty);
        chunk.lock_holder = None;
        chunk.contributions.push(
            Contribution {
                contributor: Some(p),
                contributed_locator: locator,
                verifier: None,
                verified_locator: None,
                verified: false,
            },
        );
        replace_at(&mut self.chunks, i, chunk);
        proof {
            let ch = self.chunks@[c as int];
            let o = old(self).chunks@[c as int];
            assert forall|j: int| 0 <= j < ch.contributions@.len() - 1 implies (
            #[trigger] ch.contributions@[j]).verified by {
                if j < o.contributions@.len() - 1 {
                    assert(o.contributions@[j].verified);
                }
            }
            assert forall|j: int| 0 <= j < ch.contributions@.len() implies (
            #[trigger] ch.contributions@[j]).wf() by {
                if j < o.contributions@.len() {
                    assert(o.contributions@[j].wf());
                }
            }
            assert(ch.wf());
        }
        Ok(())
    }

    /// Marks contribution `id` of chunk `c` verified by the verifier that
    /// holds its lock, with its verified file at `locator`, and releases the
    /// lock. On refusal nothing changes.
    pub fn verify_contribution(&mut self, c: u64, id: u64, p: Participant, locator: Locator) -> (r:
        Result<(), CoordinatorError>)
        requires
            old(self).wf(),
        ensures
            final(self).wf(),
            r == (match old(self).verification_refusal(c, id, p) {
                Some(e) => Err(e),
                None => Ok(()),
            }),
            r is Err ==> *final(self) == *old(self),
            r is Ok ==> final(self).contribution_verified(old(self), c, id, p, locator),
    {
        if c >= self.chunks.len() as u64 {
            return Err(CoordinatorError::ChunkMissing);
        }
        let i = c as usize;
        if id == 0 {
            return Err(CoordinatorError::VerificationOnContributionIdZero);
        }
        if id >= self.chunks[i].contributions.len() as u64 {
            return Err(CoordinatorError::ContributionMissing);
        }
        if self.chunks[i].contributions[id as usize].verified {
            return Err(CoordinatorError::ContributionAlreadyVerified);
        }
        if !self.chunks[i].is_locked_by(&p) {
            return Err(CoordinatorError::ChunkNotLockedOrByWrongParticipant);
        }
        let empty = Chunk { chunk_id: 0, lock_holder: None, contributions: Vec::new() };
        let mut chunk = replace_at(&mut self.chunks, i, empty);
        chunk.lock_holder = None;
        let blank = Contribution {
            contributor: None,
            contributed_locator: Locator::RoundHeight,
            verifier: None,
            verified_locator: None,
            verified: false,
        };
        let mut contribution = replace_at(&mut chunk.contributions, id as usize, blank);
        contribution.verifier = Some(p);
        contribution.verified_locator = Some(locator);
        contribution.verified = true;
        replace_at(&mut chunk.contributions, id as usize, contribution);
        replace_at(&mut self.chunks, i, chunk);
        proof {
            let ch = self.chunks@[c as int];
            let o = old(self).chunks@[c as int];
            assert(id == o.contributions@.len() - 1);
            assert forall|j: int| 0 <= j < ch.contributions@.len() implies (
            #[trigger] ch.contributions@[j]).wf() && (j < ch.contributions@.len() - 1
                ==> ch.contributions@[j].verified) by {
                if j != id {
                    assert(o.contributions@[j].wf());
                }
            }
            assert(ch.wf());
            assert(ch.contributions@ == o.contributions@.update(
                id as int,
                (Contribution {
                    verifier: Some(p),
                    verified_locator: Some(locator),
                    verified: true,
                    ..o.contributions@[id as int]
                }),
            ));
            assert(self.contribution_verified(old(self), c, id, p, locator));
        }
        Ok(())
    }
}

/// A participant that does not hold a chunk's lock can neither add a
/// contribution to it nor verify one of its contributions; refused, those
/// calls leave the round as it was.
pub proof fn lemma_lock_required(round: Round, c: u64, id: u64, p: Participant)
    requires
        round.wf(),
        c < round.chunks@.len(),
        !round.chunks@[c as int].locked_by(p),
    ensures
        round.contribution_refusal(c, id, p) is Some,
        round.verification_refusal(c, id, p) is Some,
{
}

/// Asking again for the lock one already holds is refused with
/// `ChunkLockAlreadyAcquired` (and a refused call changes nothing);
/// verifying a contribution that is already verified is refused with
/// `ContributionAlreadyVerified`.
pub proof fn lemma_repeat_refused(round: Round, c: u64, id: u64, p: Participant, q: Participant)
    requires
        round.wf(),
        c < round.chunks@.len(),
    ensures
        round.chunks@[c as int].locked_by(p) ==> round.lock_refusal(c, p) == Some(
            CoordinatorError::ChunkLockAlreadyAcquired,
        ),
        0 < id < round.chunks@[c as int].contributions@.len()
            && round.chunks@[c as int].contributions@[id as int].verified
            ==> round.verification_refusal(c, id, q) == Some(
            CoordinatorError::ContributionAlreadyVerified,
        ),
{
}

} // verus!
