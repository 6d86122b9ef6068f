//! The lock index: who holds the lock on each project, and who holds the
//! lock on the index itself.
//!
//! The index lives in memory for the life of the mount. A lock is advisory:
//! the index records what the machines agreed on and answers requests by the
//! rules below; it does not stop anybody from touching a project.

use vstd::prelude::*;
use crate::path::bytes_eq;

verus! {

/// The state of one lock slot.
#[derive(Debug, PartialEq, Eq, Hash)]
pub enum LockStatus {
    /// This machine holds the lock.
    WeHaveLock(String),
    /// The named peer holds the lock.
    SomeoneHasLock(String),
    /// The lock is free.
    NobodyHasLock,
}

/// The value of a lock slot, with machine names as sequences of characters.
pub enum LockState {
    WeHave(Seq<char>),
    SomeoneHas(Seq<char>),
    Nobody,
}

impl View for LockStatus {
    type V = LockState;

    open spec fn view(&self) -> LockState {
        match self {
            LockStatus::WeHaveLock(name) => LockState::WeHave(name@),
            LockStatus::SomeoneHasLock(name) => LockState::SomeoneHas(name@),
            LockStatus::NobodyHasLock => LockState::Nobody,
        }
    }
}

/// Whether a request by `machine` to take a slot in state `state` succeeds.
///
/// It succeeds when the slot is free, when this machine holds it, and when
/// the requester already holds it. It fails only against another peer.
pub open spec fn acquire_succeeds(state: LockState, machine: Seq<char>) -> bool {
    match state {
        LockState::WeHave(_) => true,
        LockState::SomeoneHas(holder) => holder == machine,
        LockState::Nobody => true,
    }
}

/// The state of a slot after `machine` asked to take it: a free slot goes
/// to the requester, every other slot stays as it is.
pub open spec fn state_after_acquire(state: LockState, machine: Seq<char>) -> LockState {
    match state {
        LockState::Nobody => LockState::SomeoneHas(machine),
        _ => state,
    }
}

/// Whether a request by `machine` to give up a slot in state `state`
/// succeeds: only a held slot can be released, and a slot that a peer holds
/// only by that peer.
pub open spec fn release_succeeds(state: LockState, machine: Seq<char>) -> bool {
    match state {
        LockState::WeHave(_) => true,
        LockState::SomeoneHas(holder) => holder == machine,
        LockState::Nobody => false,
    }
}

/// The state of a slot after `machine` asked to give it up: free where the
/// request succeeds, unchanged where it fails.
pub open spec fn state_after_release(state: LockState, machine: Seq<char>) -> LockState {
    if release_succeeds(state, machine) {
        LockState::Nobody
    } else {
        state
    }
}

impl LockStatus {
    /// A copy of the status.
    pub fn duplicate(&self) -> (copy: LockStatus)
        ensures
            copy@ == self@,
    {
        match self {
            LockStatus::WeHaveLock(name) => LockStatus::WeHaveLock(name.clone()),
            LockStatus::SomeoneHasLock(name) => LockStatus::SomeoneHasLock(name.clone()),
            LockStatus::NobodyHasLock => LockStatus::NobodyHasLock,
        }
    }

    /// Asks for the slot on behalf of `machine_name` and says whether the
    /// request succeeded.
    pub fn acquire(&mut self, machine_name: String) -> (acquired: bool)
        ensures
            acquired == acquire_succeeds(old(self)@, machine_name@),
            final(self)@ == state_after_acquire(old(self)@, machine_name@),
    {
        match &*self {
            LockStatus::WeHaveLock(_) => true,
            LockStatus::SomeoneHasLock(holder) => *holder == machine_name,
            LockStatus::NobodyHasLock => {
                *self = LockStatus::SomeoneHasLock(machine_name);
                true
            },
        }
    }

    /// Gives the slot up on behalf of `machine_name` and says whether the
    /// request succeeded.
    pub fn release(&mut self, machine_name: String) -> (released: bool)
        ensures
            released == release_succeeds(old(self)@, machine_name@),
            final(self)@ == state_after_release(old(self)@, machine_name@),
    {
        let allowed = match &*self {
            LockStatus::WeHaveLock(_) => true,
            LockStatus::SomeoneHasLock(holder) => *holder == machine_name,
            LockStatus::NobodyHasLock => false,
        };
        if allowed {
            *self = LockStatus::NobodyHasLock;
        }
        allowed
    }
}

/// The name of a project: the first component of a path below the mount
/// root, as bytes.
pub type CanonicalProjectName = Vec<u8>;

/// The lock slot of one project.
#[derive(Debug, PartialEq, Eq, Hash)]
pub struct ProjectLock {
    pub project: CanonicalProjectName,
    pub status: LockStatus,
}

/// The lock slots of all known projects, and the slot that guards changes
/// to the set of projects.
#[derive(Debug)]
pub struct Index {
    /// One slot per project; no project occurs twice.
    pub project_lock: Vec<ProjectLock>,
    pub index_lock: LockStatus,
}

/// What an index holds: the state of each known project's slot and the
/// state of the index slot.
pub struct IndexView {
    pub project_lock: Map<Seq<u8>, LockState>,
    pub index_lock: LockState,
}

impl View for Index {
    type V = IndexView;

    open spec fn view(&self) -> IndexView {
        IndexView {
            project_lock: Map::new(
                |project: Seq<u8>| self.knows(project),
                |project: Seq<u8>| self.project_lock[self.slot_of(project)].status@,
            ),
            index_lock: self.index_lock@,
        }
    }
}

impl Index {
    /// Whether some slot belongs to `project`.
    pub open spec fn knows(&self, project: Seq<u8>) -> bool {
        exists|i: int|
            0 <= i < self.project_lock.len() && #[trigger] self.project_lock[i].project@ == project
    }

    /// The position of a slot that belongs to `project`.
    pub open spec fn slot_of(&self, project: Seq<u8>) -> int {
        choose|i: int|
            0 <= i < self.project_lock.len() && #[trigger] self.project_lock[i].project@ == project
    }

    /// No project has two slots.
    pub open spec fn wf(&self) -> bool {
        forall|i: int, j: int|
            0 <= i < j < self.project_lock.len() ==> #[trigger] self.project_lock[i].project@
                != #[trigger] self.project_lock[j].project@
    }

    /// In a well-formed index the slot at position `i` is the one that the
    /// view shows for its project.
    pub proof fn lemma_slot(&self, i: int)
        requires
            self.wf(),
            0 <= i < self.project_lock.len(),
        ensures
            self@.project_lock.contains_key(self.project_lock[i].project@),
            self@.project_lock[self.project_lock[i].project@] == self.project_lock[i].status@,
            self.slot_of(self.project_lock[i].project@) == i,
    {
        let project = self.project_lock[i].project@;
        let j = self.slot_of(project);
        assert(self.knows(project));
        if j < i {
            assert(self.project_lock[j].project@ != self.project_lock[i].project@);
        } else if i < j {
            assert(self.project_lock[i].project@ != self.project_lock[j].project@);
        }
    }

    /// An index without projects, with a free index slot.
    pub fn new() -> (index: Index)
        ensures
            index.wf(),
            index@.project_lock == Map::<Seq<u8>, LockState>::empty(),
            index@.index_lock == LockState::Nobody,
    {
        let index = Index { project_lock: Vec::new(), index_lock: LockStatus::NobodyHasLock };
        proof {
            assert(index@.project_lock =~= Map::<Seq<u8>, LockState>::empty());
        }
        index
    }

    /// The position of the slot of `project`, if the index knows it.
    fn find(&self, project: &CanonicalProjectName) -> (found: Option<usize>)
        requires
            self.wf(),
        ensures
            match found {
                Some(i) => i < self.project_lock.len() && self.project_lock[i as int].project@
                    == project@,
                None => !self@.project_lock.contains_key(project@),
            },
    {
        let mut i: usize = 0;
        while i < self.project_lock.len()
            invariant
                i <= self.project_lock.len(),
                forall|k: int| 0 <= k < i ==> self.project_lock[k].project@ != project@,
            decreases self.project_lock.len() - i,
        {
            if bytes_eq(&self.project_lock[i].project, project) {
                return Some(i);
            }
            i += 1;
        }
        None
    }

    /// Whether the index has a slot for `project`.
    pub fn contains_project(&self, project: &CanonicalProjectName) -> (known: bool)
        requires
            self.wf(),
        ensures
            known == self@.project_lock.contains_key(project@),
    {
        match self.find(project) {
            Some(i) => {
                proof {
                    self.lemma_slot(i as int);
                }
                true
            },
            None => false,
        }
    }

    /// The status of the slot of `project`, if the index knows it.
    pub fn project_status(&self, project: &CanonicalProjectName) -> (status: Option<LockStatus>)
        requires
            self.wf(),
        ensures
            match status {
                Some(s) => self@.project_lock.contains_key(project@) && s@
                    == self@.project_lock[project@],
                None => !self@.project_lock.contains_key(project@),
            },
    {
        match self.find(project) {
            Some(i) => {
                proof {
                    self.lemma_slot(i as int);
                }
                Some(self.project_lock[i].status.duplicate())
            },
            None => None,
        }
    }

    /// Puts the slot of `project` into `status`, adding the project if the
    /// index does not know it yet. Returns the status that the slot had.
    pub fn insert_project(&mut self, project: CanonicalProjectName, status: LockStatus) -> (before:
        Option<LockStatus>)
        requires
            old(self).wf(),
        ensures
            final(self).wf(),
            final(self)@.project_lock == old(self)@.project_lock.insert(project@, status@),
            final(self)@.index_lock == old(self)@.index_lock,
            match before {
                Some(s) => old(self)@.project_lock.contains_key(project@) && s@ == old(
                    self,
                )@.project_lock[project@],
                None => !old(self)@.project_lock.contains_key(project@),
            },
    {
        match self.find(&project) {
            Some(i) => {
                let before = self.project_lock[i].status.duplicate();
                self.project_lock[i].status = status;
                proof {
                    old(self).lemma_slot(i as int);
                    self.lemma_same_projects(*old(self), i as int);
                }
                Some(before)
            },
            None => {
                let ghost key = project@;
                self.project_lock.push(ProjectLock { project, status });
                proof {
                    let n = old(self).project_lock.len() as int;
                    assert(self.project_lock[n].project@ == key);
                    assert forall|i: int, j: int| 0 <= i < j < self.project_lock.len() implies (
                    #[trigger] self.project_lock[i].project@) != (
                    #[trigger] self.project_lock[j].project@) by {
                        if j == n {
                            assert(self.project_lock[i] == old(self).project_lock[i]);
                            assert(old(self).knows(old(self).project_lock[i].project@));
                        } else {
                            assert(self.project_lock[i] == old(self).project_lock[i]);
                            assert(self.project_lock[j] == old(self).project_lock[j]);
                        }
                    }
                    assert forall|p: Seq<u8>| self.knows(p) <==> (p == key || old(self).knows(
                        p,
                    )) by {
                        if self.knows(p) {
                            let i = self.slot_of(p);
                            if i < n {
                                assert(old(self).project_lock[i].project@ == p);
                            }
                        }
                        if old(self).knows(p) {
                            let i = old(self).slot_of(p);
                            assert(self.project_lock[i].project@ == p);
                        }
                    }
                    assert forall|p: Seq<u8>| self.knows(p) implies #[trigger] self@.project_lock[p]
                        == old(self)@.project_lock.insert(key, status@)[p] by {
                        let i = self.slot_of(p);
                        self.lemma_slot(i);
                        if i < n {
                            assert(self.project_lock[i] == old(self).project_lock[i]);
                            old(self).lemma_slot(i);
                        }
                    }
                    assert(self@.project_lock =~= old(self)@.project_lock.insert(key, status@));
                }
                None
            },
        }
    }

    /// An index that differs from `before` only in the status of the slot at
    /// position `i` shows the same projects, with that one slot changed.
    proof fn lemma_same_projects(&self, before: Index, i: int)
        requires
            before.wf(),
            0 <= i < before.project_lock.len(),
            self.project_lock.len() == before.project_lock.len(),
            self.index_lock == before.index_lock,
            forall|k: int|
                0 <= k < before.project_lock.len() ==> (#[trigger] self.project_lock[k]).project
                    == before.project_lock[k].project,
            forall|k: int|
                0 <= k < before.project_lock.len() && k != i ==> (
                #[trigger] self.project_lock[k]).status == before.project_lock[k].status,
        ensures
            self.wf(),
            self@.project_lock == before@.project_lock.insert(
                before.project_lock[i].project@,
                self.project_lock[i].status@,
            ),
            self@.index_lock == before@.index_lock,
    {
        let key = before.project_lock[i].project@;
        assert forall|a: int, b: int| 0 <= a < b < self.project_lock.len() implies (
        #[trigger] self.project_lock[a].project@) != (#[trigger] self.project_lock[b].project@) by {
            assert(before.project_lock[a].project@ != before.project_lock[b].project@);
        }
        assert forall|p: Seq<u8>| self.knows(p) <==> before.knows(p) by {
            if self.knows(p) {
                let k = self.slot_of(p);
                assert(before.project_lock[k].project@ == p);
            }
            if before.knows(p) {
                let k = before.slot_of(p);
                assert(self.project_lock[k].project@ == p);
            }
        }
        assert(before.knows(key));
        assert forall|p: Seq<u8>| self.knows(p) implies #[trigger] self@.project_lock[p]
            == before@.project_lock.insert(key, self.project_lock[i].status@)[p] by {
            let k = self.slot_of(p);
            self.lemma_slot(k);
            before.lemma_slot(k);
        }
        assert(self@.project_lock =~= before@.project_lock.insert(
            key,
            self.project_lock[i].status@,
        ));
    }

    /// Asks for the lock on `project` on behalf of `machine_name`; `true`
    /// means that the requester holds the lock, or may go on as if it did.
    ///
    /// The project must be known to the index.
    pub fn acquire_project_lock(&mut self, project: CanonicalProjectName, machine_name: String)
        -> (acquired:
        bool)
        requires
            old(self).wf(),
            old(self)@.project_lock.contains_key(project@),
        ensures
            final(self).wf(),
            acquired == acquire_succeeds(old(self)@.project_lock[project@], machine_name@),
            final(self)@.project_lock == old(self)@.project_lock.insert(
                project@,
                state_after_acquire(old(self)@.project_lock[project@], machine_name@),
            ),
            final(self)@.index_lock == old(self)@.index_lock,
    {
        let found = self.find(&project);
        let i = found.unwrap();
        proof {
            old(self).lemma_slot(i as int);
        }
        let acquired = self.project_lock[i].status.acquire(machine_name);
        proof {
            self.lemma_same_projects(*old(self), i as int);
        }
        acquired
    }

    /// Gives up the lock on `project` on behalf of `machine_name`; `true`
    /// means that the lock was held and is now free.
    ///
    /// The project must be known to the index.
    pub fn release_project_lock(&mut self, project: CanonicalProjectName, machine_name: String)
        -> (released:
        bool)
        requires
            old(self).wf(),
            old(self)@.project_lock.contains_key(project@),
        ensures
            final(self).wf(),
            released == release_succeeds(old(self)@.project_lock[project@], machine_name@),
            final(self)@.project_lock == old(self)@.project_lock.insert(
                project@,
                state_after_release(old(self)@.project_lock[project@], machine_name@),
            ),
            final(self)@.index_lock == old(self)@.index_lock,
    {
        let found = self.find(&project);
        let i = found.unwrap();
        proof {
            old(self).lemma_slot(i as int);
        }
        let released = self.project_lock[i].status.release(machine_name);
        proof {
            self.lemma_same_projects(*old(self), i as int);
        }
        released
    }

    /// Asks for the lock on the index itself on behalf of `machine_name`.
    pub fn acquire_index_lock(&mut self, machine_name: String) -> (acquired: bool)
        ensures
            acquired == acquire_succeeds(old(self)@.index_lock, machine_name@),
            final(self)@.index_lock == state_after_acquire(old(self)@.index_lock, machine_name@),
            final(self).project_lock == old(self).project_lock,
    {
        self.index_lock.acquire(machine_name)
    }

    /// Gives up the lock on the index itself on behalf of `machine_name`.
    pub fn release_index_lock(&mut self, machine_name: String) -> (released: bool)
        ensures
            released == release_succeeds(old(self)@.index_lock, machine_name@),
            final(self)@.index_lock == state_after_release(old(self)@.index_lock, machine_name@),
            final(self).project_lock == old(self).project_lock,
    {
        self.index_lock.release(machine_name)
    }
}

/// Asks `index` for the lock on `project` on behalf of `machine_name`, as
/// [`Index::acquire_project_lock`] does.
pub fn acquire_project_lock(
    index: &mut Index,
    project: CanonicalProjectName,
    machine_name: String,
) -> (acquired: bool)
    requires
        old(index).wf(),
        old(index)@.project_lock.contains_key(project@),
    ensures
        final(index).wf(),
        acquired == acquire_succeeds(old(index)@.project_lock[project@], machine_name@),
        final(index)@.project_lock == old(index)@.project_lock.insert(
            project@,
            state_after_acquire(old(index)@.project_lock[project@], machine_name@),
        ),
        final(index)@.index_lock == old(index)@.index_lock,
{
    index.acquire_project_lock(project, machine_name)
}

} // verus!
