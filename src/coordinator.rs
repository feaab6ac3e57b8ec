use vstd::prelude::*;

use crate::errors::CoordinatorError;
use crate::locator::{path_of, well_formed, Locator};
use crate::round::{listed, replace_at, Round, Participant};
use crate::settings::Environment;

verus! {

/// An artifact file that storage holds, and its size in bytes.
#[derive(Clone, Copy, Debug, PartialEq, Eq, Structural)]
pub struct StoredFile {
    pub locator: Locator,
    pub size: u64,
}

/// The coordinator of a ceremony and the storage it answers from: the
/// current round height, the state of every round by height, and the
/// manifest of artifact files.
pub struct Coordinator {
    pub environment: Environment,
    pub round_height: u64,
    pub rounds: Vec<Round>,
    pub files: Vec<StoredFile>,
    /// Participants waiting for a round, in the order they joined.
    pub queue: Vec<Participant>,
}

/// The size that a file at `l` must have.
pub open spec fn expected_size(env: Environment, l: Locator) -> Option<nat> {
    match l {
        Locator::ContributionFile(_, c, id, _) => Some(env.contribution_file_size(c as nat, id == 0)),
        Locator::RoundFile(h) => Some(env.round_file_size(h == 0)),
        _ => None,
    }
}

/// Whether a manifest lists a file at `l`.
pub open spec fn file_listed(files: Seq<StoredFile>, l: Locator) -> bool {
    exists|i: int| 0 <= i < files.len() && (#[trigger] files[i]).locator == l
}

/// A well-formed ceremony state; see `Coordinator::wf`.
pub open spec fn state_wf(
    environment: Environment,
    round_height: u64,
    rounds: Seq<Round>,
    files: Seq<StoredFile>,
) -> bool {
    &&& environment.wf()
    &&& round_height < rounds.len() || (round_height == 0 && rounds.len() == 0)
    &&& rounds.len() <= round_height + 2
    &&& forall|h: int|
        0 <= h < rounds.len() ==> {
            &&& (#[trigger] rounds[h]).wf()
            &&& rounds[h].height == h
            &&& rounds[h].chunks@.len() == environment.number_of_chunks
        }
    &&& forall|i: int, j: int|
        0 <= i < j < files.len() ==> (#[trigger] files[i]).locator != (#[trigger] files[j]).locator
    &&& forall|i: int|
        0 <= i < files.len() ==> {
            let f = #[trigger] files[i];
            &&& well_formed(f.locator)
            &&& expected_size(environment, f.locator) == Some(f.size as nat)
        }
}

impl Coordinator {
    pub open spec fn has_file(&self, l: Locator) -> bool {
        file_listed(self.files@, l)
    }

    /// Whether a round has been stored at the current height.
    pub open spec fn started(&self) -> bool {
        self.round_height < self.rounds@.len()
    }

    pub open spec fn current(&self) -> Round {
        self.rounds@[self.round_height as int]
    }

    /// The round at every height up to the current one is stored (once the
    /// ceremony has begun), under its own height and with one chunk per
    /// chunk of the ceremony; at most one round lies beyond the current
    /// height, left by an advance that did not finish. The manifest names
    /// each file once, only files that can exist, each of the size that
    /// its kind and chunk require.
    pub open spec fn wf(&self) -> bool {
        state_wf(self.environment, self.round_height, self.rounds@, self.files@)
    }

    /// Only round `h` may differ, and the number of rounds stays.
    pub open spec fn same_but_round(&self, old: &Coordinator, h: int) -> bool {
        &&& self.environment == old.environment
        &&& self.round_height == old.round_height
        &&& self.files == old.files
        &&& self.rounds@.len() == old.rounds@.len()
        &&& forall|i: int| 0 <= i < self.rounds@.len() && i != h ==> self.rounds@[i] == old.rounds@[i]
    }

    pub open spec fn path(&self, l: Locator) -> Seq<char> {
        path_of(self.environment.base_directory@, l)
    }

    /// Why `p` may not add the next contribution to chunk `c`, if it may not.
    pub open spec fn add_refusal(&self, c: u64, p: Participant) -> Option<CoordinatorError> {
        let h = self.round_height;
        if !self.started() || !self.current().authorized_contributor(p) {
            Some(CoordinatorError::UnauthorizedChunkContributor)
        } else if h == 0 {
            Some(CoordinatorError::RoundHeightIsZero)
        } else if c >= self.current().chunks@.len() {
            Some(CoordinatorError::ChunkMissing)
        } else if !self.current().chunks@[c as int].locked_by(p) {
            Some(CoordinatorError::ChunkNotLockedOrByWrongParticipant)
        } else if self.current().chunks@[c as int].contributions@.len()
            >= self.current().expected_contributions {
            Some(CoordinatorError::ContributionsComplete)
        } else if !self.has_file(
            Locator::ContributionFile(
                h,
                c,
                self.current().chunks@[c as int].contributions@.len() as u64,
                false,
            ),
        ) {
            Some(CoordinatorError::ContributionLocatorMissing)
        } else {
            None
        }
    }

    /// Why `p` may not verify contribution `id` of chunk `c`, if it may not.
    pub open spec fn verify_refusal(&self, c: u64, id: u64, p: Participant) -> Option<CoordinatorError> {
        let h = self.round_height;
        if !p@.0 {
            Some(CoordinatorError::ExpectedVerifier)
        } else if !self.started() {
            Some(CoordinatorError::RoundDoesNotExist)
        } else if self.current().verification_refusal(c, id, p) is Some {
            self.current().verification_refusal(c, id, p)
        } else if !self.has_file(Locator::ContributionFile(h, c, id, false)) || !self.has_file(
            Locator::ContributionFile(h, c, id, true),
        ) {
            Some(CoordinatorError::ContributionLocatorMissing)
        } else {
            None
        }
    }

    pub fn new(environment: Environment) -> (r: Result<Coordinator, CoordinatorError>)
        requires
            environment.wf(),
        ensures
            r is Ok,
            r->Ok_0.wf(),
            r->Ok_0.environment == environment,
            r->Ok_0.round_height == 0,
            r->Ok_0.rounds@.len() == 0,
            r->Ok_0.files@.len() == 0,
            r->Ok_0.queue@.len() == 0,
    {
        Ok(
            Coordinator {
                environment,
                round_height: 0,
                rounds: Vec::new(),
                files: Vec::new(),
                queue: Vec::new(),
            },
        )
    }

    /// Adds `p` to the waitlist for the next round and returns its place
    /// there; a participant already waiting keeps its place.
    pub fn join_queue(&mut self, p: Participant) -> (r: u64)
        requires
            old(self).wf(),
            old(self).queue@.len() < u64::MAX,
        ensures
            final(self).wf(),
            final(self).environment == old(self).environment,
            final(self).round_height == old(self).round_height,
            final(self).rounds == old(self).rounds,
            final(self).files == old(self).files,
            listed(old(self).queue@, p) ==> final(self).queue@ == old(self).queue@ && r
                < old(self).queue@.len() && old(self).queue@[r as int]@ == p@,
            !listed(old(self).queue@, p) ==> final(self).queue@ == old(self).queue@.push(p) && r
                == old(self).queue@.len(),
    {
        let mut i: usize = 0;
        while i < self.queue.len()
            invariant
                *self == *old(self),
                old(self).wf(),
                i <= self.queue@.len(),
                forall|j: int| 0 <= j < i ==> (#[trigger] self.queue@[j])@ != p@,
            decreases self.queue@.len() - i,
        {
            if self.queue[i].same_as(&p) {
                return i as u64;
            }
            i = i + 1;
        }
        let n = self.queue.len() as u64;
        self.queue.push(p);
        n
    }

    /// Rebuilds a coordinator from stored state, refusing state that is not
    /// well formed: `StorageFailed` for the settings or the rounds, and the
    /// error of `initialize` for the first file that cannot be recorded.
    pub fn restore(
        environment: Environment,
        round_height: u64,
        rounds: Vec<Round>,
        files: Vec<StoredFile>,
    ) -> (r: Result<Coordinator, CoordinatorError>)
        ensures
            r is Ok <==> state_wf(environment, round_height, rounds@, files@),
            r is Ok ==> {
                let s = r->Ok_0;
                &&& s.wf()
                &&& s.environment == environment
                &&& s.round_height == round_height
                &&& s.rounds == rounds
                &&& s.files@ == files@
                &&& s.queue@.len() == 0
            },
    {
        if !environment.is_well_formed() {
            return Err(CoordinatorError::StorageFailed);
        }
        let n = rounds.len();
        if !((round_height as u128) < (n as u128) || (round_height == 0 && n == 0)) || (n as u128)
            > round_height as u128 + 2 {
            return Err(CoordinatorError::StorageFailed);
        }
        let mut h: usize = 0;
        while h < n
            invariant
                n == rounds@.len(),
                h <= n,
                forall|k: int|
                    0 <= k < h ==> {
                        &&& (#[trigger] rounds@[k]).wf()
                        &&& rounds@[k].height == k
                        &&& rounds@[k].chunks@.len() == environment.number_of_chunks
                    },
            decreases n - h,
        {
            let round = &rounds[h];
            if !round.is_well_formed() || round.height != h as u64 || round.chunks.len() as u64
                != environment.number_of_chunks {
                return Err(CoordinatorError::StorageFailed);
            }
            h = h + 1;
        }
        let mut s = Coordinator {
            environment,
            round_height,
            rounds,
            files: Vec::new(),
            queue: Vec::new(),
        };
        let mut i: usize = 0;
        while i < files.len()
            invariant
                s.wf(),
                s.environment == environment,
                s.round_height == round_height,
                s.rounds == rounds,
                s.queue@.len() == 0,
                i <= files@.len(),
                s.files@ == files@.subrange(0, i as int),
            decreases files@.len() - i,
        {
            let f = files[i];
            let ghost before = s.files@;
            match s.initialize(f.locator, f.size) {
                Ok(()) => {},
                Err(e) => {
                    proof {
                        if before.len() > 0 && file_listed(before, f.locator) {
                            let j = choose|j: int|
                                0 <= j < before.len() && (#[trigger] before[j]).locator
                                    == f.locator;
                            assert(files@[j] == before[j]);
                            assert(files@[i as int] == f);
                        }
                        assert(files@[i as int] == f);
                    }
                    return Err(e);
                },
            }
            i = i + 1;
            assert(s.files@ =~= files@.subrange(0, i as int));
        }
        assert(files@.subrange(0, files@.len() as int) =~= files@);
        Ok(s)
    }

    pub fn environment(&self) -> (r: &Environment)
        ensures
            r == &self.environment,
    {
        &self.environment
    }

    /// Whether storage holds a file at `l`.
    pub fn contains(&self, l: &Locator) -> (r: bool)
        ensures
            r == self.has_file(*l),
    {
        self.find_file(l).is_some()
    }

    fn find_file(&self, l: &Locator) -> (r: Option<usize>)
        ensures
            r is Some ==> r->0 < self.files@.len() && self.files@[r->0 as int].locator == *l,
            r is None ==> !self.has_file(*l),
    {
        let mut i: usize = 0;
        while i < self.files.len()
            invariant
                i <= self.files@.len(),
                forall|j: int| 0 <= j < i ==> (#[trigger] self.files@[j]).locator != *l,
            decreases self.files@.len() - i,
        {
            if self.files[i].locator == *l {
                return Some(i);
            }
            i = i + 1;
        }
        None
    }

    /// The size of the file at `l`.
    pub fn size(&self, l: &Locator) -> (r: Result<u64, CoordinatorError>)
        ensures
            !self.has_file(*l) ==> r == Err::<u64, CoordinatorError>(
                CoordinatorError::StorageLocatorMissing,
            ),
            self.has_file(*l) ==> r is Ok && exists|i: int|
                0 <= i < self.files@.len() && (#[trigger] self.files@[i]).locator == *l
                    && self.files@[i].size == r->Ok_0,
    {
        match self.find_file(l) {
            Some(i) => Ok(self.files[i].size),
            None => Err(CoordinatorError::StorageLocatorMissing),
        }
    }

    /// Records a file of `size` bytes at `l`. Only round files and
    /// contribution files are artifacts, and each must have the size that
    /// its kind and chunk require.
    pub fn initialize(&mut self, l: Locator, size: u64) -> (r: Result<(), CoordinatorError>)
        requires
            old(self).wf(),
        ensures
            final(self).wf(),
            old(self).has_file(l) ==> r == Err::<(), CoordinatorError>(
                CoordinatorError::StorageLocatorAlreadyExists,
            ),
            !old(self).has_file(l) && (!well_formed(l) || expected_size(old(self).environment, l)
                is None) ==> r == Err::<(), CoordinatorError>(
                CoordinatorError::LocatorFormatIncorrect,
            ),
            !old(self).has_file(l) && well_formed(l) && expected_size(old(self).environment, l)
                is Some ==> r == if expected_size(old(self).environment, l) == Some(size as nat) {
                Ok::<(), CoordinatorError>(())
            } else {
                Err::<(), CoordinatorError>(CoordinatorError::FileSizeMismatch)
            },
            r is Err ==> *final(self) == *old(self),
            r is Ok ==> final(self).files@ == old(self).files@.push(StoredFile { locator: l, size }),
            final(self).queue == old(self).queue,
            final(self).environment == old(self).environment,
            final(self).round_height == old(self).round_height,
            final(self).rounds == old(self).rounds,
    {
        if self.contains(&l) {
            return Err(CoordinatorError::StorageLocatorAlreadyExists);
        }
        if !l.is_well_formed() {
            return Err(CoordinatorError::LocatorFormatIncorrect);
        }
        let expected = match l {
            Locator::ContributionFile(_, c, id, _) => self.environment.contribution_size(c, id == 0),
            Locator::RoundFile(h) => self.environment.round_size(h == 0),
            _ => {
                return Err(CoordinatorError::LocatorFormatIncorrect);
            },
        };
        if size != expected {
            return Err(CoordinatorError::FileSizeMismatch);
        }
        self.files.push(StoredFile { locator: l, size });
        Ok(())
    }

    /// Records the file at `l` with the size it must have, unless storage
    /// already holds it.
    fn ensure_file(&mut self, l: Locator)
        requires
            old(self).wf(),
            well_formed(l),
            expected_size(old(self).environment, l) is Some,
        ensures
            final(self).wf(),
            final(self).has_file(l),
            forall|m: Locator| old(self).has_file(m) ==> final(self).has_file(m),
            final(self).environment == old(self).environment,
            final(self).round_height == old(self).round_height,
            final(self).rounds == old(self).rounds,
    {
        if self.contains(&l) {
            return;
        }
        let size = match l {
            Locator::ContributionFile(_, c, id, _) => self.environment.contribution_size(c, id == 0),
            Locator::RoundFile(h) => self.environment.round_size(h == 0),
            _ => {
                return;
            },
        };
        let ghost before = self.files@;
        self.files.push(StoredFile { locator: l, size });
        proof {
            assert(self.files@[before.len() as int].locator == l);
            assert forall|m: Locator| old(self).has_file(m) implies self.has_file(m) by {
                let i = choose|i: int| 0 <= i < before.len() && (#[trigger] before[i]).locator == m;
                assert(self.files@[i] == before[i]);
            }
        }
    }

    /// Removes the file at `l` from storage.
    pub fn remove(&mut self, l: &Locator) -> (r: Result<(), CoordinatorError>)
        requires
            old(self).wf(),
        ensures
            final(self).wf(),
            !old(self).has_file(*l) ==> r == Err::<(), CoordinatorError>(
                CoordinatorError::StorageLocatorMissing,
            ),
            old(self).has_file(*l) ==> r is Ok && !final(self).has_file(*l) && forall|m: Locator|
                m != *l ==> (final(self).has_file(m) == old(self).has_file(m)),
            r is Err ==> *final(self) == *old(self),
            final(self).environment == old(self).environment,
            final(self).round_height == old(self).round_height,
            final(self).rounds == old(self).rounds,
    {
        match self.find_file(l) {
            Some(i) => {
                let ghost before = self.files@;
                self.files.remove(i);
                proof {
                    assert forall|m: Locator| m != *l implies (self.has_file(m) == old(self).has_file(
                        m,
                    )) by {
                        if old(self).has_file(m) {
                            let j = choose|j: int|
                                0 <= j < before.len() && (#[trigger] before[j]).locator == m;
                            if j < i {
                                assert(self.files@[j] == before[j]);
                            } else {
                                assert(self.files@[j - 1] == before[j]);
                            }
                        }
                        if self.has_file(m) {
                            let j = choose|j: int|
                                0 <= j < self.files@.len() && (#[trigger] self.files@[j]).locator
                                    == m;
                            if j < i {
                                assert(self.files@[j] == before[j]);
                            } else {
                                assert(self.files@[j] == before[j + 1]);
                            }
                        }
                    }
                    assert forall|j: int| 0 <= j < self.files@.len() implies (
                    #[trigger] self.files@[j]).locator != *l by {
                        if j < i {
                            assert(self.files@[j] == before[j]);
                        } else {
                            assert(self.files@[j] == before[j + 1]);
                        }
                    }
                }
                Ok(())
            },
            None => Err(CoordinatorError::StorageLocatorMissing),
        }
    }

    /// The current round height; 0 before the ceremony has begun.
    pub fn current_round_height(&self) -> (r: Result<u64, CoordinatorError>)
        requires
            self.wf(),
        ensures
            r == Ok::<u64, CoordinatorError>(self.round_height),
    {
        Ok(self.round_height)
    }

    /// The round at height `h`.
    pub fn get_round(&self, h: u64) -> (r: Result<&Round, CoordinatorError>)
        ensures
            h < self.rounds@.len() ==> r == Ok::<&Round, CoordinatorError>(&self.rounds@[h as int]),
            h >= self.rounds@.len() ==> r == Err::<&Round, CoordinatorError>(
                CoordinatorError::RoundDoesNotExist,
            ),
    {
        if h < self.rounds.len() as u64 {
            Ok(&self.rounds[h as usize])
        } else {
            Err(CoordinatorError::RoundDoesNotExist)
        }
    }

    /// The round at the current height, whatever its stage.
    pub fn current_round(&self) -> (r: Result<&Round, CoordinatorError>)
        requires
            self.wf(),
        ensures
            self.started() ==> r == Ok::<&Round, CoordinatorError>(&self.current()),
            !self.started() ==> r == Err::<&Round, CoordinatorError>(
                CoordinatorError::RoundDoesNotExist,
            ),
    {
        self.get_round(self.round_height)
    }

    /// Whether `p` is a contributor of the current round.
    pub fn is_current_contributor(&self, p: &Participant) -> (r: bool)
        requires
            self.wf(),
        ensures
            r == (self.started() && self.current().authorized_contributor(*p)),
    {
        if p.is_verifier() {
            return false;
        }
        match self.current_round() {
            Ok(round) => round.is_authorized_contributor(p),
            Err(_) => false,
        }
    }

    /// Whether `p` is a verifier of the current round.
    pub fn is_current_verifier(&self, p: &Participant) -> (r: bool)
        requires
            self.wf(),
        ensures
            r == (self.started() && self.current().authorized_verifier(*p)),
    {
        if p.is_contributor() {
            return false;
        }
        match self.current_round() {
            Ok(round) => round.is_authorized_verifier(p),
            Err(_) => false,
        }
    }

    /// The path of the latest contribution of chunk `c` in the current round.
    pub fn current_contribution_locator(&self, c: u64) -> (r: Result<String, CoordinatorError>)
        requires
            self.wf(),
        ensures
            !self.started() ==> r == Err::<String, CoordinatorError>(
                CoordinatorError::RoundDoesNotExist,
            ),
            self.started() && c >= self.current().chunks@.len() ==> r == Err::<
                String,
                CoordinatorError,
            >(CoordinatorError::ChunkMissing),
            self.started() && c < self.current().chunks@.len() ==> r is Ok && r->Ok_0@ == self.path(
                Locator::ContributionFile(
                    self.round_height,
                    c,
                    (self.current().chunks@[c as int].contributions@.len() - 1) as u64,
                    self.current().chunks@[c as int].tail().verified,
                ),
            ),
    {
        let round = self.current_round()?;
        let chunk = round.get_chunk(c)?;
        let id = chunk.current_contribution_id();
        let n = chunk.contributions.len();
        assert(id < n);
        let verified = chunk.contributions[id as usize].verified;
        assert(chunk.contributions@[id as int] == chunk.tail());
        Ok(Locator::ContributionFile(self.round_height, c, id, verified).to_path(
            self.environment.base_directory.as_str(),
        ))
    }

    /// Why the next contribution of chunk `c` has no locator yet, if it has
    /// one.
    pub open spec fn next_refusal(&self, c: u64) -> Option<CoordinatorError> {
        if !self.started() {
            Some(CoordinatorError::RoundDoesNotExist)
        } else if c >= self.current().chunks@.len() {
            Some(CoordinatorError::ChunkMissing)
        } else if self.current().chunks@[c as int].contributions@.len()
            >= self.current().expected_contributions {
            Some(CoordinatorError::ContributionsComplete)
        } else if !self.current().chunks@[c as int].tail().verified {
            Some(CoordinatorError::ContributionMissingVerification)
        } else {
            None
        }
    }

    /// Where the next contribution of chunk `c` is written, without asking
    /// storage whether a file is already there.
    pub fn next_contribution_locator_unchecked(&self, c: u64) -> (r: Result<String, CoordinatorError>)
        requires
            self.wf(),
        ensures
            self.next_refusal(c) is Some ==> r == Err::<String, CoordinatorError>(
                self.next_refusal(c)->0,
            ),
            self.next_refusal(c) is None ==> r is Ok && r->Ok_0@ == self.path(
                Locator::ContributionFile(
                    self.round_height,
                    c,
                    self.current().chunks@[c as int].contributions@.len() as u64,
                    false,
                ),
            ),
    {
        let round = self.current_round()?;
        let chunk = round.get_chunk(c)?;
        let next = chunk.next_contribution_id(round.expected_num_contributions())?;
        Ok(Locator::ContributionFile(self.round_height, c, next, false).to_path(
            self.environment.base_directory.as_str(),
        ))
    }

    /// Where the next contribution of chunk `c` is written; refused also
    /// while nobody holds the chunk's lock, and when storage already holds a
    /// file there.
    pub fn next_contribution_locator(&self, c: u64) -> (r: Result<String, CoordinatorError>)
        requires
            self.wf(),
        ensures
            self.next_refusal(c) is Some ==> r == Err::<String, CoordinatorError>(
                self.next_refusal(c)->0,
            ),
            self.next_refusal(c) is None ==> {
                let l = Locator::ContributionFile(
                    self.round_height,
                    c,
                    self.current().chunks@[c as int].contributions@.len() as u64,
                    false,
                );
                let unlocked = self.current().chunks@[c as int].lock_holder is None;
                &&& unlocked ==> r == Err::<String, CoordinatorError>(
                    CoordinatorError::ChunkNotLocked,
                )
                &&& !unlocked && self.has_file(l) ==> r == Err::<String, CoordinatorError>(
                    CoordinatorError::ContributionLocatorAlreadyExists,
                )
                &&& !unlocked && !self.has_file(l) ==> r is Ok && r->Ok_0@ == self.path(l)
            },
    {
        let round = self.current_round()?;
        let chunk = round.get_chunk(c)?;
        let next = chunk.next_contribution_id(round.expected_num_contributions())?;
        if chunk.is_unlocked() {
            return Err(CoordinatorError::ChunkNotLocked);
        }
        let l = Locator::ContributionFile(self.round_height, c, next, false);
        if self.contains(&l) {
            return Err(CoordinatorError::ContributionLocatorAlreadyExists);
        }
        Ok(l.to_path(self.environment.base_directory.as_str()))
    }

    /// Gives `p` the lock of chunk `c` of the current round. On refusal
    /// nothing changes.
    pub fn try_lock_chunk(&mut self, c: u64, p: Participant) -> (r: Result<(), CoordinatorError>)
        requires
            old(self).wf(),
        ensures
            final(self).wf(),
            !old(self).started() ==> r == Err::<(), CoordinatorError>(
                CoordinatorError::RoundDoesNotExist,
            ),
            old(self).started() ==> r == (match old(self).current().lock_refusal(c, p) {
                Some(e) => Err(e),
                None => Ok(()),
            }),
            r is Err ==> *final(self) == *old(self),
            r is Ok ==> final(self).same_but_round(old(self), old(self).round_height as int)
                && final(self).current().lock_taken(&old(self).current(), c, p),
    {
        let h = self.round_height;
        if h >= self.rounds.len() as u64 {
            return Err(CoordinatorError::RoundDoesNotExist);
        }
        let check = self.rounds[h as usize].lock_check(c, &p);
        if check.is_err() {
            return check;
        }
        let mut round = self.take_round(h);
        let r = round.try_lock_chunk(c, p);
        self.put_round(h, round);
        r
    }

    /// Takes round `h` out of storage, leaving a blank in its place.
    fn take_round(&mut self, h: u64) -> (r: Round)
        requires
            h < old(self).rounds@.len(),
        ensures
            r == old(self).rounds@[h as int],
            final(self).environment == old(self).environment,
            final(self).round_height == old(self).round_height,
            final(self).files == old(self).files,
            final(self).rounds@.len() == old(self).rounds@.len(),
            forall|i: int| 0 <= i < final(self).rounds@.len() && i != h ==> final(self).rounds@[i] == old(self).rounds@[i],
    {
        let blank = Round {
            height: 0,
            started_at: 0,
            contributor_ids: Vec::new(),
            verifier_ids: Vec::new(),
            chunks: Vec::new(),
            expected_contributions: 0,
        };
        let n = self.rounds.len();
        assert(h < n);
        replace_at(&mut self.rounds, h as usize, blank)
    }

    /// Puts round `h` back into storage.
    fn put_round(&mut self, h: u64, round: Round)
        requires
            h < old(self).rounds@.len(),
        ensures
            final(self).rounds@ == old(self).rounds@.update(h as int, round),
            final(self).environment == old(self).environment,
            final(self).round_height == old(self).round_height,
            final(self).files == old(self).files,
    {
        let n = self.rounds.len();
        assert(h < n);
        replace_at(&mut self.rounds, h as usize, round);
    }

    /// Records the next contribution of chunk `c` from the contributor `p`
    /// that holds its lock, once its file is in storage, and releases the
    /// lock. Returns the path of that file. On refusal nothing changes.
    pub fn add_contribution(&mut self, c: u64, p: Participant) -> (r: Result<String, CoordinatorError>)
        requires
            old(self).wf(),
        ensures
            final(self).wf(),
            old(self).add_refusal(c, p) is Some ==> r == Err::<String, CoordinatorError>(
                old(self).add_refusal(c, p)->0,
            ),
            r is Err ==> *final(self) == *old(self),
            old(self).add_refusal(c, p) is None ==> {
                let h = old(self).round_height;
                let l = Locator::ContributionFile(
                    h,
                    c,
                    old(self).current().chunks@[c as int].contributions@.len() as u64,
                    false,
                );
                &&& r is Ok
                &&& r->Ok_0@ == old(self).path(l)
                &&& final(self).same_but_round(old(self), h as int)
                &&& final(self).current().contribution_added(&old(self).current(), c, p, l)
            },
    {
        if !self.is_current_contributor(&p) {
            return Err(CoordinatorError::UnauthorizedChunkContributor);
        }
        let h = self.round_height;
        if h == 0 {
            return Err(CoordinatorError::RoundHeightIsZero);
        }
        let n = self.rounds.len();
        assert(h < n);
        let round = &self.rounds[h as usize];
        assert(round.wf());
        let chunk = round.get_chunk(c)?;
        if !chunk.is_locked_by(&p) {
            return Err(CoordinatorError::ChunkNotLockedOrByWrongParticipant);
        }
        let next = chunk.next_contribution_id(round.expected_num_contributions())?;
        let l = Locator::ContributionFile(h, c, next, false);
        if !self.contains(&l) {
            return Err(CoordinatorError::ContributionLocatorMissing);
        }
        let path = l.to_path(self.environment.base_directory.as_str());
        let mut round = self.take_round(h);
        let r = round.add_contribution(c, next, p, l);
        self.put_round(h, round);
        match r {
            Ok(()) => Ok(path),
            Err(e) => Err(e),
        }
    }

    /// Gives the verifier `p` the lock of chunk `c` to verify contribution
    /// `id`, once the contribution's file is in storage. On refusal nothing
    /// changes.
    pub fn try_lock_verify(&mut self, c: u64, id: u64, p: Participant) -> (r: Result<(), CoordinatorError>)
        requires
            old(self).wf(),
        ensures
            final(self).wf(),
            !p@.0 ==> r == Err::<(), CoordinatorError>(CoordinatorError::ExpectedVerifier),
            p@.0 && !old(self).has_file(Locator::ContributionFile(old(self).round_height, c, id, false))
                ==> r == Err::<(), CoordinatorError>(CoordinatorError::ContributionLocatorMissing),
            p@.0 && old(self).has_file(Locator::ContributionFile(old(self).round_height, c, id, false))
                ==> {
                &&& !old(self).started() ==> r == Err::<(), CoordinatorError>(
                    CoordinatorError::RoundDoesNotExist,
                )
                &&& old(self).started() ==> r == (match old(self).current().lock_refusal(c, p) {
                    Some(e) => Err(e),
                    None => Ok(()),
                })
            },
            r is Err ==> *final(self) == *old(self),
            r is Ok ==> final(self).same_but_round(old(self), old(self).round_height as int)
                && final(self).current().lock_taken(&old(self).current(), c, p),
    {
        if !p.is_verifier() {
            return Err(CoordinatorError::ExpectedVerifier);
        }
        if !self.contains(&Locator::ContributionFile(self.round_height, c, id, false)) {
            return Err(CoordinatorError::ContributionLocatorMissing);
        }
        self.try_lock_chunk(c, p)
    }

    /// Marks contribution `id` of chunk `c` verified by the verifier `p`
    /// that holds the chunk's lock, once both the contribution and the
    /// verifier's output are in storage, and releases the lock. When the
    /// chunk has all its contributions, its last output becomes
    /// contribution 0 of the chunk in the next round. On refusal nothing
    /// changes.
    pub fn verify_contribution(&mut self, c: u64, id: u64, p: Participant) -> (r: Result<(), CoordinatorError>)
        requires
            old(self).wf(),
        ensures
            final(self).wf(),
            old(self).verify_refusal(c, id, p) is Some ==> r == Err::<(), CoordinatorError>(
                old(self).verify_refusal(c, id, p)->0,
            ),
            r is Err ==> *final(self) == *old(self),
            old(self).verify_refusal(c, id, p) is None ==> {
                let h = old(self).round_height;
                &&& r is Ok
                &&& final(self).environment == old(self).environment
                &&& final(self).round_height == h
                &&& final(self).rounds@.len() == old(self).rounds@.len()
                &&& forall|i: int| 0 <= i < final(self).rounds@.len() && i != h ==> final(self).rounds@[i] == old(self).rounds@[i]
                &&& final(self).current().contribution_verified(
                    &old(self).current(),
                    c,
                    id,
                    p,
                    Locator::ContributionFile(h, c, id, true),
                )
                &&& forall|m: Locator| old(self).has_file(m) ==> final(self).has_file(m)
                &&& id + 1 == old(self).current().expected_contributions ==> final(self).has_file(
                    Locator::ContributionFile((h + 1) as u64, c, 0, true),
                )
            },
    {
        if !p.is_verifier() {
            return Err(CoordinatorError::ExpectedVerifier);
        }
        let h = self.round_height;
        if h >= self.rounds.len() as u64 {
            return Err(CoordinatorError::RoundDoesNotExist);
        }
        let round = &self.rounds[h as usize];
        let chunk = round.get_chunk(c)?;
        if id == 0 {
            return Err(CoordinatorError::VerificationOnContributionIdZero);
        }
        let contribution = chunk.get_contribution(id)?;
        if contribution.is_verified() {
            return Err(CoordinatorError::ContributionAlreadyVerified);
        }
        if !chunk.is_locked_by(&p) {
            return Err(CoordinatorError::ChunkNotLockedOrByWrongParticipant);
        }
        let expected = round.expected_num_contributions();
        let verified = Locator::ContributionFile(h, c, id, true);
        if !self.contains(&Locator::ContributionFile(h, c, id, false)) || !self.contains(&verified) {
            return Err(CoordinatorError::ContributionLocatorMissing);
        }
        let mut round = self.take_round(h);
        let r = round.verify_contribution(c, id, p, verified);
        self.put_round(h, round);
        if r.is_err() {
            return r;
        }
        if id + 1 == expected {
            self.ensure_file(Locator::ContributionFile(h + 1, c, 0, true));
        }
        Ok(())
    }

    /// The check made before a stored object is read or written: storage
    /// holds it, and an artifact file has the size its kind and chunk
    /// require, `found` being the size it has on disk.
    pub fn check_object_size(&self, l: &Locator, found: u64) -> (r: Result<(), CoordinatorError>)
        requires
            self.wf(),
        ensures
            !self.has_file(*l) ==> r == Err::<(), CoordinatorError>(
                CoordinatorError::StorageLocatorMissing,
            ),
            self.has_file(*l) ==> r == if expected_size(self.environment, *l) == Some(found as nat) {
                Ok::<(), CoordinatorError>(())
            } else {
                Err::<(), CoordinatorError>(CoordinatorError::FileSizeMismatch)
            },
    {
        match self.find_file(l) {
            None => Err(CoordinatorError::StorageLocatorMissing),
            Some(i) => {
                let expected = self.files[i].size;
                proof {
                    assert(expected_size(self.environment, self.files@[i as int].locator) == Some(
                        expected as nat,
                    ));
                }
                if found == expected {
                    Ok(())
                } else {
                    Err(CoordinatorError::FileSizeMismatch)
                }
            },
        }
    }

    /// The file of every chunk that the aggregation of the current round
    /// reads, in chunk order: the last contribution of each, verified.
    pub open spec fn aggregation_input(&self, c: int) -> Locator {
        Locator::ContributionFile(
            self.round_height,
            c as u64,
            (self.current().expected_contributions - 1) as u64,
            true,
        )
    }

    /// What the aggregation of the current round reads: the round must be
    /// complete, its aggregated file not yet written, and the last file of
    /// every chunk in storage.
    pub fn aggregation_readers(&self) -> (r: Result<Vec<Locator>, CoordinatorError>)
        requires
            self.wf(),
        ensures
            !self.started() ==> r == Err::<Vec<Locator>, CoordinatorError>(
                CoordinatorError::RoundDoesNotExist,
            ),
            self.started() && !self.current().complete() ==> r == Err::<Vec<Locator>, CoordinatorError>(
                CoordinatorError::RoundNotComplete,
            ),
            self.started() && self.current().complete() && self.has_file(
                Locator::RoundFile(self.round_height),
            ) ==> r == Err::<Vec<Locator>, CoordinatorError>(
                CoordinatorError::RoundLocatorAlreadyExists,
            ),
            self.started() && self.current().complete() && !self.has_file(
                Locator::RoundFile(self.round_height),
            ) ==> {
                &&& (exists|c: int|
                    0 <= c < self.environment.number_of_chunks && !self.has_file(
                        #[trigger] self.aggregation_input(c),
                    )) ==> r == Err::<Vec<Locator>, CoordinatorError>(
                    CoordinatorError::ContributionLocatorMissing,
                )
                &&& (forall|c: int|
                    0 <= c < self.environment.number_of_chunks ==> self.has_file(
                        #[trigger] self.aggregation_input(c),
                    )) ==> r is Ok && r->Ok_0@.len() == self.environment.number_of_chunks
                    && forall|c: int| 0 <= c < r->Ok_0@.len() ==> #[trigger] r->Ok_0@[c] == self.aggregation_input(c)
            },
    {
        let round = self.current_round()?;
        if !round.is_complete() {
            return Err(CoordinatorError::RoundNotComplete);
        }
        let h = self.round_height;
        if self.contains(&Locator::RoundFile(h)) {
            return Err(CoordinatorError::RoundLocatorAlreadyExists);
        }
        let last = round.expected_num_contributions() - 1;
        let mut readers: Vec<Locator> = Vec::new();
        let mut c: u64 = 0;
        while c < self.environment.number_of_chunks
            invariant
                self.wf(),
                self.started(),
                self.current().complete(),
                !self.has_file(Locator::RoundFile(h)),
                last == self.current().expected_contributions - 1,
                h == self.round_height,
                c <= self.environment.number_of_chunks,
                readers@.len() == c,
                forall|d: int| 0 <= d < c ==> #[trigger] readers@[d] == self.aggregation_input(d),
                forall|d: int| 0 <= d < c ==> self.has_file(#[trigger] self.aggregation_input(d)),
            decreases self.environment.number_of_chunks - c,
        {
            let l = Locator::ContributionFile(h, c, last, true);
            assert(l == self.aggregation_input(c as int));
            if !self.contains(&l) {
                return Err(CoordinatorError::ContributionLocatorMissing);
            }
            readers.push(l);
            c = c + 1;
        }
        Ok(readers)
    }

    /// The checks made before the coordinator itself computes contribution
    /// `id` of chunk `c` for `p`: `p` holds the chunk's lock, no file is
    /// stored for the contribution yet, and the chunk does not hold it yet.
    pub fn computation_check(&self, c: u64, id: u64, p: &Participant) -> (r: Result<(), CoordinatorError>)
        requires
            self.wf(),
        ensures
            !self.started() ==> r == Err::<(), CoordinatorError>(CoordinatorError::RoundDoesNotExist),
            self.started() && !(c < self.current().chunks@.len() && self.current().chunks@[c as int].locked_by(*p))
                ==> r == Err::<(), CoordinatorError>(
                CoordinatorError::ChunkNotLockedOrByWrongParticipant,
            ),
            self.started() && c < self.current().chunks@.len() && self.current().chunks@[c as int].locked_by(*p) ==> {
                let l = Locator::ContributionFile(self.round_height, c, id, false);
                &&& self.has_file(l) ==> r == Err::<(), CoordinatorError>(
                    CoordinatorError::ContributionLocatorAlreadyExists,
                )
                &&& !self.has_file(l) && id < self.current().chunks@[c as int].contributions@.len()
                    ==> r == Err::<(), CoordinatorError>(CoordinatorError::ContributionShouldNotExist)
                &&& !self.has_file(l) && id >= self.current().chunks@[c as int].contributions@.len()
                    ==> r == Ok::<(), CoordinatorError>(())
            },
    {
        let round = self.current_round()?;
        if !round.is_chunk_locked_by(c, p) {
            return Err(CoordinatorError::ChunkNotLockedOrByWrongParticipant);
        }
        if self.contains(&Locator::ContributionFile(self.round_height, c, id, false)) {
            return Err(CoordinatorError::ContributionLocatorAlreadyExists);
        }
        let chunk = round.get_chunk(c)?;
        if chunk.get_contribution(id).is_ok() {
            return Err(CoordinatorError::ContributionShouldNotExist);
        }
        Ok(())
    }

    /// Why the verifier `p` may not reject contribution `id` of chunk `c`,
    /// if it may not.
    pub open spec fn reject_refusal(&self, c: u64, id: u64, p: Participant) -> Option<CoordinatorError> {
        if !p@.0 {
            Some(CoordinatorError::ExpectedVerifier)
        } else if !self.started() {
            Some(CoordinatorError::RoundDoesNotExist)
        } else {
            self.current().verification_refusal(c, id, p)
        }
    }

    /// Rejects contribution `id` of chunk `c` after its verification by the
    /// verifier `p`, who holds the chunk's lock, failed: the contribution
    /// leaves the chunk, whose lock is released, and its file and any
    /// output of the verifier are removed, so that the chunk goes back to
    /// its last verified contribution. On refusal nothing changes.
    pub fn reject_contribution(&mut self, c: u64, id: u64, p: Participant) -> (r: Result<(), CoordinatorError>)
        requires
            old(self).wf(),
        ensures
            final(self).wf(),
            r == (match old(self).reject_refusal(c, id, p) {
                Some(e) => Err(e),
                None => Ok(()),
            }),
            r is Err ==> *final(self) == *old(self),
            r is Ok ==> {
                let h = old(self).round_height;
                let response = Locator::ContributionFile(h, c, id, false);
                let output = Locator::ContributionFile(h, c, id, true);
                &&& final(self).environment == old(self).environment
                &&& final(self).round_height == h
                &&& final(self).rounds@.len() == old(self).rounds@.len()
                &&& forall|i: int| 0 <= i < final(self).rounds@.len() && i != h ==> final(self).rounds@[i] == old(self).rounds@[i]
                &&& final(self).current().contribution_rejected(&old(self).current(), c)
                &&& !final(self).has_file(response)
                &&& !final(self).has_file(output)
                &&& forall|m: Locator| m != response && m != output ==> (final(self).has_file(m)
                    == old(self).has_file(m))
            },
    {
        if !p.is_verifier() {
            return Err(CoordinatorError::ExpectedVerifier);
        }
        let h = self.round_height;
        if h >= self.rounds.len() as u64 {
            return Err(CoordinatorError::RoundDoesNotExist);
        }
        let n = self.rounds.len();
        assert(h < n);
        let check = self.rounds[h as usize].verification_check(c, id, &p);
        if check.is_err() {
            return check;
        }
        let mut round = self.take_round(h);
        let r = round.reject_contribution(c, id, &p);
        self.put_round(h, round);
        let response = Locator::ContributionFile(h, c, id, false);
        let output = Locator::ContributionFile(h, c, id, true);
        let ghost s1 = *self;
        if self.contains(&response) {
            let _ = self.remove(&response);
        }
        let ghost s2 = *self;
        if self.contains(&output) {
            let _ = self.remove(&output);
        }
        proof {
            assert forall|m: Locator| m != response && m != output implies (self.has_file(m)
                == old(self).has_file(m)) by {
                assert(s1.files == old(self).files);
                assert(s2.has_file(m) == s1.has_file(m));
            }
            assert(!s2.has_file(response));
        }
        r
    }

    /// The file that the holder of chunk `c`'s lock may have left half
    /// written: a contributor's response, or a verifier's output.
    pub open spec fn partial_file(&self, c: u64) -> Locator {
        let ch = self.current().chunks@[c as int];
        let n = ch.contributions@.len();
        if ch.lock_holder->0@.0 {
            Locator::ContributionFile(self.round_height, c, (n - 1) as u64, true)
        } else {
            Locator::ContributionFile(self.round_height, c, n as u64, false)
        }
    }

    /// Expires the lock of chunk `c` in the current round, whose holder has
    /// gone, and removes the file the holder may have left, so that the
    /// slot opens again.
    pub fn expire_lock(&mut self, c: u64) -> (r: Result<(), CoordinatorError>)
        requires
            old(self).wf(),
        ensures
            final(self).wf(),
            !old(self).started() ==> r == Err::<(), CoordinatorError>(
                CoordinatorError::RoundDoesNotExist,
            ),
            old(self).started() && c >= old(self).current().chunks@.len() ==> r == Err::<
                (),
                CoordinatorError,
            >(CoordinatorError::ChunkMissing),
            old(self).started() && c < old(self).current().chunks@.len()
                && old(self).current().chunks@[c as int].lock_holder is None ==> r == Err::<
                (),
                CoordinatorError,
            >(CoordinatorError::ChunkNotLocked),
            old(self).started() && c < old(self).current().chunks@.len()
                && old(self).current().chunks@[c as int].lock_holder is Some ==> r is Ok,
            r is Err ==> *final(self) == *old(self),
            r is Ok ==> {
                let h = old(self).round_height as int;
                let partial = old(self).partial_file(c);
                &&& final(self).environment == old(self).environment
                &&& final(self).round_height == old(self).round_height
                &&& final(self).rounds@.len() == old(self).rounds@.len()
                &&& forall|i: int| 0 <= i < final(self).rounds@.len() && i != h ==> final(self).rounds@[i] == old(self).rounds@[i]
                &&& final(self).current().same_but_chunk(&old(self).current(), c as int)
                &&& final(self).current().chunks@[c as int] == (crate::round::Chunk {
                    lock_holder: None,
                    ..old(self).current().chunks@[c as int]
                })
                &&& !final(self).has_file(partial)
                &&& forall|m: Locator| m != partial ==> (final(self).has_file(m) == old(self).has_file(m))
            },
    {
        let h = self.round_height;
        if h >= self.rounds.len() as u64 {
            return Err(CoordinatorError::RoundDoesNotExist);
        }
        let round = &self.rounds[h as usize];
        let chunk = round.get_chunk(c)?;
        let partial = match &chunk.lock_holder {
            None => {
                return Err(CoordinatorError::ChunkNotLocked);
            },
            Some(holder) => {
                let n = chunk.contributions.len() as u64;
                if holder.is_verifier() {
                    Locator::ContributionFile(h, c, n - 1, true)
                } else {
                    Locator::ContributionFile(h, c, n, false)
                }
            },
        };
        assert(partial == self.partial_file(c));
        let ghost before = *self;
        if self.contains(&partial) {
            let _ = self.remove(&partial);
        }
        let ghost after_remove = *self;
        let mut round = self.take_round(h);
        let r = round.release_lock(c);
        self.put_round(h, round);
        proof {
            assert(self.files@ == after_remove.files@);
            assert forall|m: Locator| m != partial implies (self.has_file(m) == old(self).has_file(m)) by {
                assert(after_remove.has_file(m) == before.has_file(m));
            }
            assert(!after_remove.has_file(partial));
        }
        r
    }

    /// Registers the files of every chunk at contribution 0 of round `h`.
    fn ensure_initial_files(&mut self, h: u64)
        requires
            old(self).wf(),
        ensures
            final(self).wf(),
            forall|c: u64| c < old(self).environment.number_of_chunks ==> #[trigger] final(self).has_file(
                Locator::ContributionFile(h, c, 0, true),
            ),
            forall|m: Locator| old(self).has_file(m) ==> final(self).has_file(m),
            final(self).environment == old(self).environment,
            final(self).round_height == old(self).round_height,
            final(self).rounds == old(self).rounds,
    {
        let mut c: u64 = 0;
        while c < self.environment.number_of_chunks
            invariant
                self.wf(),
                c <= self.environment.number_of_chunks,
                self.environment == old(self).environment,
                self.round_height == old(self).round_height,
                self.rounds == old(self).rounds,
                forall|d: u64| d < c ==> #[trigger] self.has_file(Locator::ContributionFile(h, d, 0, true)),
                forall|m: Locator| old(self).has_file(m) ==> self.has_file(m),
            decreases self.environment.number_of_chunks - c,
        {
            self.ensure_file(Locator::ContributionFile(h, c, 0, true));
            c = c + 1;
        }
    }

    /// Starts the ceremony: stores round 0, in which the coordinator's
    /// verifier alone takes part and every chunk is complete at
    /// contribution 0, and registers the initial file of every chunk.
    fn store_round_zero(&mut self, started_at: i64)
        requires
            old(self).wf(),
            !old(self).started(),
        ensures
            final(self).wf(),
            final(self).started(),
            final(self).round_height == 0,
            final(self).rounds@.len() == 1,
            final(self).environment == old(self).environment,
            final(self).round_zero_ok(started_at),
            forall|m: Locator| old(self).has_file(m) ==> final(self).has_file(m),
    {
        self.ensure_initial_files(0);
        let ghost st = *self;
        let verifier = self.environment.coordinator_verifier.duplicate();
        let mut verifiers: Vec<Participant> = Vec::new();
        verifiers.push(verifier);
        let round = Round::new(&self.environment, 0, started_at, Vec::new(), verifiers);
        assert forall|c: int| 0 <= c < round.chunks@.len() implies (#[trigger] round.chunks@[c]).complete(
            round.expected_contributions,
        ) by {
            assert(Round::fresh_chunk(round.chunks@[c], 0, c as u64, self.environment));
        }
        let ghost mid = self.files@;
        self.rounds.push(round);
        assert(self.rounds@[0] == round);
        assert(self.files@ == mid);
        assert(round.contributor_ids@ =~= Seq::<Participant>::empty());
        assert forall|c: u64| c < self.environment.number_of_chunks implies #[trigger] self.has_file(
            Locator::ContributionFile(0, c, 0, true),
        ) by {
            assert(st.has_file(Locator::ContributionFile(0, c, 0, true)));
        }
        assert forall|m: Locator| old(self).has_file(m) implies self.has_file(m) by {
            assert(st.has_file(m));
        }
    }

    /// Round 0 as the ceremony starts it: no contributors, the
    /// coordinator's verifier alone, every chunk fresh, and the initial file
    /// of every chunk in storage.
    pub open spec fn round_zero_ok(&self, started_at: i64) -> bool {
        let r0 = self.rounds@[0];
        &&& self.rounds@.len() >= 1
        &&& r0.fresh(self.environment, 0, started_at, Seq::empty(), r0.verifier_ids@)
        &&& r0.verifier_ids@.len() == 1
        &&& r0.verifier_ids@[0]@ == self.environment.coordinator_verifier@
        &&& r0.complete()
        &&& forall|c: u64| c < self.environment.number_of_chunks ==> #[trigger] self.has_file(
            Locator::ContributionFile(0, c, 0, true),
        )
    }

    /// Why the current round cannot be aggregated, if it cannot.
    pub open spec fn aggregation_refusal(&self) -> Option<CoordinatorError> {
        if !self.started() {
            Some(CoordinatorError::RoundDoesNotExist)
        } else if !self.current().complete() {
            Some(CoordinatorError::RoundNotComplete)
        } else if self.has_file(Locator::RoundFile(self.round_height)) {
            Some(CoordinatorError::RoundLocatorAlreadyExists)
        } else if exists|c: int|
            0 <= c < self.environment.number_of_chunks && !self.has_file(
                #[trigger] self.aggregation_input(c),
            ) {
            Some(CoordinatorError::ContributionLocatorMissing)
        } else {
            None
        }
    }

    /// Records the aggregated file of the current round, once the round is
    /// complete, its file not yet written and the last file of every chunk
    /// in storage. On refusal nothing changes.
    fn run_aggregation(&mut self) -> (r: Result<(), CoordinatorError>)
        requires
            old(self).wf(),
        ensures
            final(self).wf(),
            r == (match old(self).aggregation_refusal() {
                Some(e) => Err(e),
                None => Ok(()),
            }),
            r is Err ==> *final(self) == *old(self),
            r is Ok ==> final(self).has_file(Locator::RoundFile(old(self).round_height)),
            forall|m: Locator| old(self).has_file(m) ==> final(self).has_file(m),
            final(self).environment == old(self).environment,
            final(self).round_height == old(self).round_height,
            final(self).rounds == old(self).rounds,
    {
        match self.aggregation_readers() {
            Err(e) => {
                return Err(e);
            },
            Ok(_) => {},
        }
        self.ensure_file(Locator::RoundFile(self.round_height));
        Ok(())
    }

    /// Stores `round` at height `h`, over a round left there by an advance
    /// that did not finish, and then makes `h` the current height.
    fn save_round_to_storage(&mut self, h: u64, round: Round)
        requires
            old(self).wf(),
            old(self).started(),
            h == old(self).round_height + 1,
            round.wf(),
            round.height == h,
            round.chunks@.len() == old(self).environment.number_of_chunks,
        ensures
            final(self).wf(),
            final(self).round_height == h,
            final(self).rounds@.len() == h + 1,
            final(self).rounds@[h as int] == round,
            forall|i: int| 0 <= i < h ==> final(self).rounds@[i] == old(self).rounds@[i],
            final(self).environment == old(self).environment,
            final(self).files == old(self).files,
    {
        let n = self.rounds.len();
        if (n as u64) > h {
            replace_at(&mut self.rounds, h as usize, round);
        } else {
            self.rounds.push(round);
        }
        self.round_height = h;
    }

    /// `self` is `old` advanced by one round for the given participants.
    pub open spec fn advanced(
        &self,
        old: &Coordinator,
        started_at: i64,
        contributors: Seq<Participant>,
        verifiers: Seq<Participant>,
    ) -> bool {
        let h = old.round_height;
        &&& self.environment == old.environment
        &&& self.round_height == h + 1
        &&& self.rounds@.len() == h + 2
        &&& self.current().fresh(self.environment, (h + 1) as u64, started_at, contributors, verifiers)
        &&& old.started() ==> forall|i: int| 0 <= i <= h ==> self.rounds@[i] == old.rounds@[i]
        &&& !old.started() ==> self.round_zero_ok(started_at)
        &&& forall|c: u64| c < self.environment.number_of_chunks ==> #[trigger] self.has_file(
            Locator::ContributionFile((h + 1) as u64, c, 0, true),
        )
        &&& forall|m: Locator| old.has_file(m) ==> self.has_file(m)
    }

    /// Stores the round after `round_height`, which must be the current
    /// height: an earlier height is refused with `RoundAlreadyInitialized`, a
    /// later one with `RoundHeightMismatch`, and nothing changes. Before the
    /// first round it first stores round 0; it registers the file that opens
    /// every chunk of the new round, stores the round, and only then moves
    /// the height on.
    fn run_initialization(
        &mut self,
        round_height: u64,
        started_at: i64,
        contributors: Vec<Participant>,
        verifiers: Vec<Participant>,
    ) -> (r: Result<(), CoordinatorError>)
        requires
            old(self).wf(),
            contributors@.len() < u64::MAX,
        ensures
            final(self).wf(),
            round_height < old(self).round_height ==> r == Err::<(), CoordinatorError>(
                CoordinatorError::RoundAlreadyInitialized,
            ),
            round_height > old(self).round_height ==> r == Err::<(), CoordinatorError>(
                CoordinatorError::RoundHeightMismatch,
            ),
            round_height == old(self).round_height == u64::MAX ==> r == Err::<(), CoordinatorError>(
                CoordinatorError::StorageFailed,
            ),
            r is Err ==> *final(self) == *old(self),
            round_height == old(self).round_height < u64::MAX ==> r is Ok && final(self).advanced(
                old(self),
                started_at,
                contributors@,
                verifiers@,
            ),
    {
        let h = self.round_height;
        if round_height < h {
            return Err(CoordinatorError::RoundAlreadyInitialized);
        }
        if round_height > h {
            return Err(CoordinatorError::RoundHeightMismatch);
        }
        if h == u64::MAX {
            return Err(CoordinatorError::StorageFailed);
        }
        let started = h < self.rounds.len() as u64;
        if !started {
            self.store_round_zero(started_at);
        }
        let ghost s1 = *self;
        let ghost middle = self.rounds@;
        self.ensure_initial_files(h + 1);
        let ghost before_save = *self;
        let round = Round::new(&self.environment, h + 1, started_at, contributors, verifiers);
        self.save_round_to_storage(h + 1, round);
        proof {
            assert(self.files@ == before_save.files@);
            assert forall|m: Locator| s1.has_file(m) implies self.has_file(m) by {
                assert(before_save.has_file(m));
            }
            assert forall|m: Locator| old(self).has_file(m) implies self.has_file(m) by {
                assert(s1.has_file(m));
            }
            assert forall|c: u64| c < self.environment.number_of_chunks implies #[trigger] self.has_file(
                Locator::ContributionFile((h + 1) as u64, c, 0, true),
            ) by {
                assert(before_save.has_file(Locator::ContributionFile((h + 1) as u64, c, 0, true)));
            }
            if !started {
                assert(self.rounds@[0] == middle[0]);
                assert forall|c: u64| c < self.environment.number_of_chunks implies #[trigger] self.has_file(
                    Locator::ContributionFile(0, c, 0, true),
                ) by {
                    assert(s1.has_file(Locator::ContributionFile(0, c, 0, true)));
                }
                assert(self.round_zero_ok(started_at));
            }
        }
        Ok(())
    }

    /// Whether an advance that did not finish already left the aggregated
    /// file of the current round and the round after it.
    pub open spec fn interrupted_advance(&self) -> bool {
        &&& self.rounds@.len() == self.round_height + 2
        &&& self.has_file(Locator::RoundFile(self.round_height))
    }

    /// Why the ceremony cannot advance, if it cannot.
    pub open spec fn advance_refusal(&self) -> Option<CoordinatorError> {
        if self.started() && !self.current().complete() {
            Some(CoordinatorError::RoundNotComplete)
        } else if self.round_height == u64::MAX {
            Some(CoordinatorError::StorageFailed)
        } else if self.started() && self.round_height != 0 && !self.interrupted_advance() {
            self.aggregation_refusal()
        } else {
            None
        }
    }

    /// Advances the ceremony to its next round, for the given participants.
    /// Before the first round this first stores round 0. The current round
    /// must be complete and is aggregated (unless an advance that did not
    /// finish already did so and stored the next round, which is then
    /// reused); the file that opens every chunk of the next round is
    /// registered, the next round is stored, and only then does the height
    /// move on. Returns the new height; on refusal nothing changes.
    pub fn next_round(&mut self, started_at: i64, contributors: Vec<Participant>, verifiers: Vec<
        Participant,
    >) -> (r: Result<u64, CoordinatorError>)
        requires
            old(self).wf(),
            contributors@.len() < u64::MAX,
        ensures
            final(self).wf(),
            old(self).advance_refusal() is Some ==> r == Err::<u64, CoordinatorError>(
                old(self).advance_refusal()->0,
            ),
            r is Err ==> *final(self) == *old(self),
            old(self).advance_refusal() is None ==> {
                &&& r == Ok::<u64, CoordinatorError>((old(self).round_height + 1) as u64)
                &&& final(self).advanced(old(self), started_at, contributors@, verifiers@)
                &&& old(self).started() && old(self).round_height != 0 ==> final(self).has_file(
                    Locator::RoundFile(old(self).round_height),
                )
            },
    {
        let h = self.round_height;
        let started = h < self.rounds.len() as u64;
        if started {
            let n = self.rounds.len();
            assert(h < n);
            if !self.rounds[h as usize].is_complete() {
                return Err(CoordinatorError::RoundNotComplete);
            }
        }
        if h == u64::MAX {
            return Err(CoordinatorError::StorageFailed);
        }
        let ghost s0 = *self;
        if started && h != 0 {
            let interrupted = self.rounds.len() as u64 - 1 == h + 1 && self.contains(
                &Locator::RoundFile(h),
            );
            if !interrupted {
                let a = self.run_aggregation();
                if a.is_err() {
                    return Err(a.unwrap_err());
                }
            }
        }
        let ghost s1 = *self;
        let r = self.run_initialization(h, started_at, contributors, verifiers);
        proof {
            assert(r is Ok);
            assert forall|m: Locator| old(self).has_file(m) implies self.has_file(m) by {
                assert(s1.has_file(m));
            }
            if started && h != 0 {
                assert(s1.has_file(Locator::RoundFile(h)));
            }
            if started {
                assert forall|i: int| 0 <= i <= h implies self.rounds@[i] == old(self).rounds@[i] by {
                    assert(self.rounds@[i] == s1.rounds@[i]);
                }
            }
        }
        Ok(h + 1)
    }
}

/// Once the ceremony has begun, the round of every height up to the current
/// one is stored under that height, and in every round each chunk numbers
/// its contributions 0 to k without a gap, contribution 0 verified.
pub proof fn lemma_ceremony_invariant(s: Coordinator)
    requires
        s.wf(),
        s.started(),
    ensures
        forall|h: int| 0 <= h <= s.round_height ==> h < s.rounds@.len() && (#[trigger] s.rounds@[h]).height == h,
        forall|h: int, c: int|
            0 <= h < s.rounds@.len() && 0 <= c < s.rounds@[h].chunks@.len() ==> {
                let ch = #[trigger] s.rounds@[h].chunks@[c];
                &&& ch.chunk_id == c
                &&& ch.contributions@.len() >= 1
                &&& ch.contributions@[0].verified
                &&& forall|i: int| 0 <= i < ch.contributions@.len() - 1 ==> (#[trigger] ch.contributions@[i]).verified
            },
{
    assert forall|h: int, c: int|
        0 <= h < s.rounds@.len() && 0 <= c < s.rounds@[h].chunks@.len() implies {
            let ch = #[trigger] s.rounds@[h].chunks@[c];
            &&& ch.chunk_id == c
            &&& ch.contributions@.len() >= 1
            &&& ch.contributions@[0].verified
            &&& forall|i: int| 0 <= i < ch.contributions@.len() - 1 ==> (#[trigger] ch.contributions@[i]).verified
        } by {
        assert(s.rounds@[h].wf());
        assert(s.rounds@[h].chunks@[c].wf());
    }
}

/// Every contribution file that storage holds has the size that its chunk
/// requires, and the initial size exactly when it is contribution 0.
pub proof fn lemma_file_size_law(s: Coordinator, h: u64, c: u64, id: u64, v: bool, size: u64)
    requires
        s.wf(),
        exists|i: int| 0 <= i < s.files@.len() && #[trigger] s.files@[i] == (StoredFile {
            locator: Locator::ContributionFile(h, c, id, v),
            size,
        }),
    ensures
        size == s.environment.contribution_file_size(c as nat, id == 0),
{
    let i = choose|i: int| 0 <= i < s.files@.len() && #[trigger] s.files@[i] == (StoredFile {
        locator: Locator::ContributionFile(h, c, id, v),
        size,
    });
    assert(expected_size(s.environment, s.files@[i].locator) == Some(size as nat));
}

/// A complete round can always move on once what its aggregation reads is
/// in storage (or an advance that did not finish already aggregated it):
/// nothing refuses the advance, so `next_round` returns the height plus one
/// and makes it current.
pub proof fn lemma_complete_round_advances(s: Coordinator)
    requires
        s.wf(),
        s.started(),
        s.current().complete(),
        s.round_height < u64::MAX,
        s.round_height == 0 || s.interrupted_advance() || (!s.has_file(
            Locator::RoundFile(s.round_height),
        ) && forall|c: int|
            0 <= c < s.environment.number_of_chunks ==> s.has_file(#[trigger] s.aggregation_input(c))),
    ensures
        s.advance_refusal() is None,
{
}

/// After a crash that stored the next round but left the height where it
/// was, the stored round is reused: the advance is not refused.
pub proof fn lemma_interrupted_advance_resumes(s: Coordinator)
    requires
        s.wf(),
        s.started(),
        s.current().complete(),
        s.round_height < u64::MAX,
        s.interrupted_advance(),
    ensures
        s.advance_refusal() is None,
{
}

/// Verifying again a contribution that is already verified is refused with
/// `ContributionAlreadyVerified`, and a refused call changes nothing.
pub proof fn lemma_verify_again_refused(s: Coordinator, c: u64, id: u64, p: Participant)
    requires
        s.wf(),
        s.started(),
        p@.0,
        c < s.current().chunks@.len(),
        0 < id < s.current().chunks@[c as int].contributions@.len(),
        s.current().chunks@[c as int].contributions@[id as int].verified,
    ensures
        s.verify_refusal(c, id, p) == Some(CoordinatorError::ContributionAlreadyVerified),
{
}

} // verus!
