//! The bookkeeping of a mounted filesystem: which inode stands for which
//! path, which files are open, and how much activity each project sees.

use vstd::prelude::*;
use crate::convert::{
    convert_file_type, convert_metadata, open_plan, parse_flag_options, FileAttr, FileKind,
    HostFileType, HostMetadata, OpenPlan, Timestamp,
};
use crate::file_handler::FileHandler;
use crate::follower::Follower;
use crate::fuse::{HostErrorKind, IFileHandle, INode};
use crate::index::{
    acquire_succeeds, release_succeeds, state_after_acquire, state_after_release,
    CanonicalProjectName, Index, LockState, LockStatus,
};
use crate::maps::{
    fx_bytes_get, fx_bytes_insert, fx_bytes_new, fx_bytes_remove, fx_get, fx_insert, fx_len,
    fx_new, fx_remove, numbers_by_bytes, BytesMap, NumberMap,
};
use crate::path::{clone_bytes, join, join_spec, project_name, project_name_spec};

verus! {

/// The inode number of the mount's root directory.
pub const ROOT_INO: u64 = 1;

/// Seconds for which the kernel may keep an attribute reply.
pub const ATTR_TTL_SECS: u64 = 1;

/// What the lock index should be asked after a change of a project's
/// reference count.
#[derive(Clone, Copy, Debug, PartialEq, Eq, Structural)]
pub enum LockIntention {
    /// The project became active: ask for its lock.
    Acquire,
    /// The project became idle: give its lock up.
    Release,
    /// The project was and stays active.
    Nothing,
}

/// The outcome of counting a reference up or down.
#[derive(Clone, Copy, Debug, PartialEq, Eq, Structural)]
pub struct RefChange {
    /// The project's count after the change.
    pub count: u64,
    pub intention: LockIntention,
}

/// The state of the slot that `project` has in an index, where a project
/// that the index does not know yet counts as free.
pub open spec fn slot_or_free(locks: Map<Seq<u8>, LockState>, project: Seq<u8>) -> LockState {
    if locks.contains_key(project) {
        locks[project]
    } else {
        LockState::Nobody
    }
}

/// Asks the lock index for what a change of a project's count calls for,
/// in the name of this machine: the lock when the project became active,
/// its release when the project became idle, and nothing otherwise. Returns
/// whether the request succeeded, where one was made.
///
/// A project becomes known to the index when it first becomes active: its
/// slot starts free, so that the request gets it. A release is asked only
/// for a project that the index knows.
pub fn follow_intention(
    index: &mut Index,
    project: CanonicalProjectName,
    machine_name: String,
    intention: LockIntention,
) -> (answer: Option<bool>)
    requires
        old(index).wf(),
        intention == LockIntention::Release ==> old(index)@.project_lock.contains_key(project@),
    ensures
        final(index).wf(),
        final(index)@.index_lock == old(index)@.index_lock,
        match intention {
            LockIntention::Acquire => {
                let state = slot_or_free(old(index)@.project_lock, project@);
                &&& answer == Some(acquire_succeeds(state, machine_name@))
                &&& final(index)@.project_lock == old(index)@.project_lock.insert(
                    project@,
                    state_after_acquire(state, machine_name@),
                )
            },
            LockIntention::Release => {
                let state = old(index)@.project_lock[project@];
                &&& answer == Some(release_succeeds(state, machine_name@))
                &&& final(index)@.project_lock == old(index)@.project_lock.insert(
                    project@,
                    state_after_release(state, machine_name@),
                )
            },
            LockIntention::Nothing => answer.is_none()
                && final(index)@.project_lock == old(index)@.project_lock,
        },
{
    match intention {
        LockIntention::Acquire => {
            if !index.contains_project(&project) {
                index.insert_project(clone_bytes(&project), LockStatus::NobodyHasLock);
            }
            let ghost known = index@.project_lock;
            let acquired = index.acquire_project_lock(project, machine_name);
            proof {
                let state = slot_or_free(old(index)@.project_lock, project@);
                assert(known[project@] == state);
                assert(index@.project_lock =~= old(index)@.project_lock.insert(
                    project@,
                    state_after_acquire(state, machine_name@),
                ));
            }
            Some(acquired)
        },
        LockIntention::Release => Some(index.release_project_lock(project, machine_name)),
        LockIntention::Nothing => None,
    }
}

/// The test for being another handle than `handle`.
pub open spec fn other_than(handle: u64) -> spec_fn(u64) -> bool {
    |other: u64| other != handle
}

/// `list` without every occurrence of `handle`.
pub open spec fn without(list: Seq<u64>, handle: u64) -> Seq<u64> {
    list.filter(other_than(handle))
}

/// What is left of a list without `handle` are the other members.
pub proof fn lemma_without(list: Seq<u64>, handle: u64, other: u64)
    ensures
        without(list, handle).contains(other) <==> (list.contains(other) && other != handle),
{
    let pred = other_than(handle);
    let kept = list.filter(pred);
    if kept.contains(other) {
        let k = choose|k: int| 0 <= k < kept.len() && kept[k] == other;
        list.lemma_filter_pred(pred, k);
        list.lemma_filter_contains_rev(pred, other);
    }
    if list.contains(other) && other != handle {
        let k = choose|k: int| 0 <= k < list.len() && list[k] == other;
        list.lemma_filter_contains(pred, k);
    }
}

/// A list that names no handle twice still does so without `handle`.
pub proof fn lemma_without_distinct(list: Seq<u64>, handle: u64)
    requires
        list.no_duplicates(),
    ensures
        without(list, handle).no_duplicates(),
    decreases list.len(),
{
    let pred = other_than(handle);
    if list.len() > 0 {
        let front = list.drop_last();
        let last = list.last();
        assert(front.no_duplicates()) by {
            assert forall|i: int, j: int| 0 <= i < front.len() && 0 <= j < front.len() && i
                != j implies front[i] != front[j] by {
                assert(front[i] == list[i] && front[j] == list[j]);
            }
        }
        lemma_without_distinct(front, handle);
        assert(list == front.push(last));
        front.lemma_filter_push(last, pred);
        if last != handle {
            let kept = without(front, handle);
            lemma_without(front, handle, last);
            if front.contains(last) {
                let k = choose|k: int| 0 <= k < front.len() && front[k] == last;
                assert(list[k] == list[list.len() - 1]);
            }
            assert forall|i: int, j: int| 0 <= i < kept.push(last).len() && 0 <= j < kept.push(
                last,
            ).len() && i != j implies kept.push(last)[i] != kept.push(last)[j] by {
                if i < kept.len() {
                    assert(kept.contains(kept[i]));
                }
                if j < kept.len() {
                    assert(kept.contains(kept[j]));
                }
            }
        }
    } else {
        list.lemma_filter_len(pred);
    }
}

/// The paths of the inodes once `ino` stands for `path`, in a registry
/// that bound `paths` and `inodes` before: the inode that stood for `path`
/// has none any more.
pub open spec fn paths_with(
    paths: Map<u64, Seq<u8>>,
    inodes: Map<Seq<u8>, u64>,
    ino: u64,
    path: Seq<u8>,
) -> Map<u64, Seq<u8>> {
    (if inodes.contains_key(path) {
        paths.remove(inodes[path])
    } else {
        paths
    }).insert(ino, path)
}

/// The inodes of the paths once `ino` stands for `path`, in a registry
/// that bound `paths` and `inodes` before: the path that `ino` stood for
/// has none any more.
pub open spec fn inodes_with(
    paths: Map<u64, Seq<u8>>,
    inodes: Map<Seq<u8>, u64>,
    ino: u64,
    path: Seq<u8>,
) -> Map<Seq<u8>, u64> {
    (if paths.contains_key(ino) {
        inodes.remove(paths[ino])
    } else {
        inodes
    }).insert(path, ino)
}

/// The state of one mount.
pub struct NimbusFS {
    /// The directory on the host whose contents the mount shows.
    local_storage: Vec<u8>,
    /// The directory at which the filesystem is mounted.
    mount_directory: Vec<u8>,
    /// The generation sent with entry replies.
    generation: u64,
    ino_file_map: NumberMap<Vec<u8>>,
    file_ino_map: BytesMap,
    /// How many references each project has.
    index_refs: BytesMap,
    ino_open_file_handlers: NumberMap<Vec<u64>>,
    file_handlers_map: NumberMap<FileHandler>,
    last_file_handle: IFileHandle,
    last_ino_alloc: INode,
}

impl NimbusFS {
    /// The path of each registered inode.
    pub closed spec fn paths(&self) -> Map<u64, Seq<u8>> {
        Map::new(
            |ino: u64| self.ino_file_map@.contains_key(ino),
            |ino: u64| self.ino_file_map@[ino]@,
        )
    }

    /// The inode of each registered path.
    pub closed spec fn inodes(&self) -> Map<Seq<u8>, u64> {
        numbers_by_bytes(self.file_ino_map)
    }

    /// The reference count of each project that was ever referred to.
    pub closed spec fn project_refs(&self) -> Map<Seq<u8>, u64> {
        numbers_by_bytes(self.index_refs)
    }

    /// The handles that are open on each inode.
    pub closed spec fn open_handles(&self) -> Map<u64, Seq<u64>> {
        Map::new(
            |ino: u64| self.ino_open_file_handlers@.contains_key(ino),
            |ino: u64| self.ino_open_file_handlers@[ino]@,
        )
    }

    /// The record of each open handle.
    pub closed spec fn handlers(&self) -> Map<u64, FileHandler> {
        self.file_handlers_map@
    }

    /// The inode number issued last.
    pub closed spec fn last_ino(&self) -> u64 {
        self.last_ino_alloc.inode
    }

    /// The handle identifier issued last.
    pub closed spec fn last_handle(&self) -> u64 {
        self.last_file_handle.index
    }

    /// The directory on the host whose contents the mount shows.
    pub closed spec fn storage(&self) -> Seq<u8> {
        self.local_storage@
    }

    /// The directory at which the filesystem is mounted.
    pub closed spec fn mount_point(&self) -> Seq<u8> {
        self.mount_directory@
    }

    /// The generation sent with entry replies.
    pub closed spec fn generation_number(&self) -> u64 {
        self.generation
    }

    /// No registered inode is newer than the one issued last, so the next
    /// one issued stands for no path yet.
    pub open spec fn inodes_issued(&self) -> bool {
        forall|ino: u64| #[trigger] self.paths().contains_key(ino) ==> ino <= self.last_ino()
    }

    /// The handles open on `ino`; none where the inode has no list.
    pub open spec fn handles_of(&self, ino: u64) -> Seq<u64> {
        if self.open_handles().contains_key(ino) {
            self.open_handles()[ino]
        } else {
            Seq::empty()
        }
    }

    /// The reference count of `project`; zero before its first reference.
    pub open spec fn refs_of(&self, project: Seq<u8>) -> u64 {
        if self.project_refs().contains_key(project) {
            self.project_refs()[project]
        } else {
            0
        }
    }

    /// Inodes and paths are bound one to one.
    pub open spec fn registry_wf(&self) -> bool {
        &&& forall|ino: u64| #[trigger]
            self.paths().contains_key(ino) ==> self.inodes().contains_key(self.paths()[ino])
                && self.inodes()[self.paths()[ino]] == ino
        &&& forall|path: Seq<u8>| #[trigger]
            self.inodes().contains_key(path) ==> self.paths().contains_key(self.inodes()[path])
                && self.paths()[self.inodes()[path]] == path
        &&& self.last_ino() >= ROOT_INO
    }

    /// The handle table and the lists of open handles agree, no handle is
    /// newer than the one issued last, no list names a handle twice, and the
    /// table is finite.
    pub open spec fn handles_wf(&self) -> bool {
        &&& self.handlers().dom().finite()
        &&& forall|ino: u64| (#[trigger] self.handles_of(ino)).no_duplicates()
        &&& forall|handle: u64| #[trigger]
            self.handlers().contains_key(handle) ==> self.handles_of(
                self.handlers()[handle].ino.inode,
            ).contains(handle) && handle <= self.last_handle()
        &&& forall|ino: u64, k: int|
            0 <= k < self.handles_of(ino).len() ==> self.handlers().contains_key(
                #[trigger] self.handles_of(ino)[k],
            ) && self.handlers()[self.handles_of(ino)[k]].ino.inode == ino
    }

    /// The invariant of the bookkeeping.
    pub open spec fn wf(&self) -> bool {
        self.registry_wf() && self.handles_wf()
    }

    /// The root inode stands for the storage directory.
    pub open spec fn root_bound(&self) -> bool {
        self.paths().contains_key(ROOT_INO) && self.paths()[ROOT_INO] == self.storage()
    }

    /// The bookkeeping of a fresh mount of `local_storage` at
    /// `mount_directory`: the root inode stands for the storage directory,
    /// and nothing else is known. Both paths are canonical.
    pub fn default(local_storage: Vec<u8>, mount_directory: Vec<u8>) -> (nimbus: NimbusFS)
        ensures
            nimbus.wf(),
            nimbus.root_bound(),
            nimbus.storage() == local_storage@,
            nimbus.mount_point() == mount_directory@,
            nimbus.paths() == Map::<u64, Seq<u8>>::empty().insert(ROOT_INO, local_storage@),
            nimbus.inodes() == Map::<Seq<u8>, u64>::empty().insert(local_storage@, ROOT_INO),
            nimbus.project_refs() == Map::<Seq<u8>, u64>::empty(),
            nimbus.open_handles() == Map::<u64, Seq<u64>>::empty(),
            nimbus.handlers() == Map::<u64, FileHandler>::empty(),
            nimbus.last_ino() == ROOT_INO,
            nimbus.last_handle() == 0,
            nimbus.generation_number() == 0,
            nimbus.inodes_issued(),
    {
        let mut ino_file_map: NumberMap<Vec<u8>> = fx_new();
        let mut file_ino_map = fx_bytes_new();
        let index_refs = fx_bytes_new();
        let ino_open_file_handlers: NumberMap<Vec<u64>> = fx_new();
        let file_handlers_map: NumberMap<FileHandler> = fx_new();
        let root_path = clone_bytes(&local_storage);
        proof {
            assert(ino_file_map@ =~= Map::<u64, Vec<u8>>::empty());
            assert(numbers_by_bytes(file_ino_map) =~= Map::<Seq<u8>, u64>::empty());
            assert(numbers_by_bytes(index_refs) =~= Map::<Seq<u8>, u64>::empty());
            assert(ino_open_file_handlers@ =~= Map::<u64, Vec<u64>>::empty());
            assert(file_handlers_map@ =~= Map::<u64, FileHandler>::empty());
        }
        fx_insert(&mut ino_file_map, ROOT_INO, clone_bytes(&local_storage));
        fx_bytes_insert(&mut file_ino_map, root_path, ROOT_INO);
        let nimbus = NimbusFS {
            local_storage,
            mount_directory,
            generation: 0,
            ino_file_map,
            file_ino_map,
            index_refs,
            ino_open_file_handlers,
            file_handlers_map,
            last_file_handle: IFileHandle { index: 0 },
            last_ino_alloc: INode { inode: ROOT_INO },
        };
        proof {
            assert(nimbus.paths() =~= Map::<u64, Seq<u8>>::empty().insert(
                ROOT_INO,
                local_storage@,
            ));
            assert(nimbus.open_handles() =~= Map::<u64, Seq<u64>>::empty());
        }
        nimbus
    }

    /// The directory on the host whose contents the mount shows.
    pub fn local_storage(&self) -> (path: &Vec<u8>)
        ensures
            path@ == self.storage(),
    {
        &self.local_storage
    }

    /// The directory at which the filesystem is mounted.
    pub fn mount_directory(&self) -> (path: &Vec<u8>)
        ensures
            path@ == self.mount_point(),
    {
        &self.mount_directory
    }

    /// The generation sent with entry replies.
    pub fn generation(&self) -> (generation: u64)
        ensures
            generation == self.generation_number(),
    {
        self.generation
    }

    /// The inode issued last.
    pub fn last_ino_alloc(&self) -> (ino: INode)
        ensures
            ino.inode == self.last_ino(),
    {
        self.last_ino_alloc
    }

    /// The handle issued last.
    pub fn last_file_handle(&self) -> (fh: IFileHandle)
        ensures
            fh.index == self.last_handle(),
    {
        self.last_file_handle
    }
}

impl NimbusFS {
    /// The paths of the inodes once `ino` stands for `path`.
    pub open spec fn paths_after_register(&self, ino: u64, path: Seq<u8>) -> Map<u64, Seq<u8>> {
        paths_with(self.paths(), self.inodes(), ino, path)
    }

    /// The inodes of the paths once `ino` stands for `path`.
    pub open spec fn inodes_after_register(&self, ino: u64, path: Seq<u8>) -> Map<Seq<u8>, u64> {
        inodes_with(self.paths(), self.inodes(), ino, path)
    }

    /// The mount is the one of `before`: the same storage directory, the
    /// same mount point and the same generation.
    pub open spec fn same_mount(&self, before: &NimbusFS) -> bool {
        &&& self.storage() == before.storage()
        &&& self.mount_point() == before.mount_point()
        &&& self.generation_number() == before.generation_number()
    }

    /// Everything but the registry is as in `before`.
    pub open spec fn same_but_registry(&self, before: &NimbusFS) -> bool {
        &&& self.generation_number() == before.generation_number()
        &&& self.project_refs() == before.project_refs()
        &&& self.open_handles() == before.open_handles()
        &&& self.handlers() == before.handlers()
        &&& self.last_handle() == before.last_handle()
        &&& self.storage() == before.storage()
        &&& self.mount_point() == before.mount_point()
    }

    /// A state with the handle table of a well-formed one is well-formed
    /// there.
    proof fn lemma_same_handles(&self, before: &NimbusFS)
        requires
            before.handles_wf(),
            self.handlers() == before.handlers(),
            self.open_handles() == before.open_handles(),
            self.last_handle() >= before.last_handle(),
        ensures
            self.handles_wf(),
    {
        assert forall|i: u64| #[trigger] self.handles_of(i) == before.handles_of(i) by {}
        assert forall|handle: u64| #[trigger]
            self.handlers().contains_key(handle) implies self.handles_of(
            self.handlers()[handle].ino.inode,
        ).contains(handle) && handle <= self.last_handle() by {
            assert(before.handlers().contains_key(handle));
        }
    }

    /// A state with the registry of a well-formed one is well-formed there.
    proof fn lemma_same_registry(&self, before: &NimbusFS)
        requires
            before.registry_wf(),
            self.paths() == before.paths(),
            self.inodes() == before.inodes(),
            self.last_ino() >= before.last_ino(),
        ensures
            self.registry_wf(),
    {
        assert forall|ino: u64| #[trigger] self.paths().contains_key(ino) implies
            self.inodes().contains_key(
            self.paths()[ino],
        ) && self.inodes()[self.paths()[ino]] == ino by {
            assert(before.paths().contains_key(ino));
        }
        assert forall|path: Seq<u8>| #[trigger]
            self.inodes().contains_key(path) implies self.paths().contains_key(
            self.inodes()[path],
        ) && self.paths()[self.inodes()[path]] == path by {
            assert(before.inodes().contains_key(path));
        }
    }

    /// What a state shares with an earlier one it shows in the same way:
    /// each map that was left alone shows the same contents, and the
    /// registry and the handle table stay well-formed where what they show
    /// has not changed.
    proof fn lemma_kept(&self, before: &NimbusFS)
        ensures
            self.ino_file_map == before.ino_file_map ==> self.paths() == before.paths(),
            self.file_ino_map == before.file_ino_map ==> self.inodes() == before.inodes(),
            self.index_refs == before.index_refs ==> self.project_refs() == before.project_refs(),
            self.ino_open_file_handlers == before.ino_open_file_handlers ==> self.open_handles()
                == before.open_handles(),
            self.file_handlers_map == before.file_handlers_map ==> self.handlers()
                == before.handlers(),
            self.local_storage == before.local_storage ==> self.storage() == before.storage(),
            self.mount_directory == before.mount_directory ==> self.mount_point()
                == before.mount_point(),
            self.generation == before.generation ==> self.generation_number()
                == before.generation_number(),
            self.last_ino_alloc == before.last_ino_alloc ==> self.last_ino() == before.last_ino(),
            self.last_file_handle == before.last_file_handle ==> self.last_handle()
                == before.last_handle(),
            before.registry_wf() && self.paths() == before.paths() && self.inodes()
                == before.inodes() && self.last_ino() >= before.last_ino() ==> self.registry_wf(),
            before.handles_wf() && self.handlers() == before.handlers() && self.open_handles()
                == before.open_handles() && self.last_handle() >= before.last_handle()
                ==> self.handles_wf(),
    {
        if self.ino_file_map == before.ino_file_map {
            assert(self.paths() =~= before.paths());
        }
        if self.ino_open_file_handlers == before.ino_open_file_handlers {
            assert(self.open_handles() =~= before.open_handles());
        }
        if before.registry_wf() && self.paths() == before.paths() && self.inodes()
            == before.inodes() && self.last_ino() >= before.last_ino() {
            self.lemma_same_registry(before);
        }
        if before.handles_wf() && self.handlers() == before.handlers() && self.open_handles()
            == before.open_handles() && self.last_handle() >= before.last_handle() {
            self.lemma_same_handles(before);
        }
    }

    /// Binds `ino` and `path` to each other. A binding that either of them
    /// had with another partner is dropped, so that no path has two inodes
    /// and no inode two paths. The path must be canonical.
    pub fn register_ino(&mut self, ino: INode, path: Vec<u8>)
        requires
            old(self).wf(),
        ensures
            final(self).wf(),
            final(self).paths() == old(self).paths_after_register(ino.inode, path@),
            final(self).inodes() == old(self).inodes_after_register(ino.inode, path@),
            final(self).last_ino() == old(self).last_ino(),
            final(self).same_but_registry(old(self)),
            old(self).root_bound() && ino.inode != ROOT_INO && path@ != old(self).storage()
                ==> final(self).root_bound(),
            old(self).inodes_issued() && ino.inode <= old(self).last_ino()
                ==> final(self).inodes_issued(),
    {
        let evicted = fx_bytes_get(&self.file_ino_map, &path);
        let displaced = fx_remove(&mut self.ino_file_map, ino.inode);
        match evicted {
            Some(other) => {
                fx_remove(&mut self.ino_file_map, other);
            },
            None => {},
        }
        match displaced {
            Some(former) => {
                fx_bytes_remove(&mut self.file_ino_map, &former);
            },
            None => {},
        }
        fx_insert(&mut self.ino_file_map, ino.inode, clone_bytes(&path));
        let ghost key = path@;
        fx_bytes_insert(&mut self.file_ino_map, path, ino.inode);
        proof {
            assert(self.paths() =~= old(self).paths_after_register(ino.inode, key));
            assert(self.inodes() =~= old(self).inodes_after_register(ino.inode, key));
            old(self).lemma_register_keeps_registry(*self, ino.inode, key);
            self.lemma_kept(old(self));
        }
    }

    /// Registering keeps inodes and paths bound one to one.
    proof fn lemma_register_keeps_registry(&self, after: NimbusFS, ino: u64, path: Seq<u8>)
        requires
            self.registry_wf(),
            after.paths() == self.paths_after_register(ino, path),
            after.inodes() == self.inodes_after_register(ino, path),
            after.last_ino() >= self.last_ino(),
        ensures
            after.registry_wf(),
    {
        assert forall|i: u64| #[trigger] after.paths().contains_key(i) implies
            after.inodes().contains_key(
            after.paths()[i],
        ) && after.inodes()[after.paths()[i]] == i by {
            if i != ino {
                assert(self.paths().contains_key(i));
                let q = self.paths()[i];
                assert(self.inodes().contains_key(q));
                if self.paths().contains_key(ino) {
                    assert(self.inodes().contains_key(self.paths()[ino]));
                }
            }
        }
        assert forall|q: Seq<u8>| #[trigger] after.inodes().contains_key(q) implies
            after.paths().contains_key(
            after.inodes()[q],
        ) && after.paths()[after.inodes()[q]] == q by {
            if q != path {
                assert(self.inodes().contains_key(q));
                let i = self.inodes()[q];
                assert(self.paths().contains_key(i));
                if self.inodes().contains_key(path) {
                    assert(self.paths().contains_key(self.inodes()[path]));
                }
            }
        }
    }

    /// Issues the next inode number.
    pub fn fresh_ino(&mut self) -> (ino: INode)
        requires
            old(self).wf(),
            old(self).last_ino() < u64::MAX,
        ensures
            final(self).wf(),
            ino.inode == old(self).last_ino() + 1,
            final(self).last_ino() == ino.inode,
            final(self).paths() == old(self).paths(),
            final(self).inodes() == old(self).inodes(),
            final(self).same_but_registry(old(self)),
            old(self).root_bound() ==> final(self).root_bound(),
            old(self).inodes_issued()
                ==> final(self).inodes_issued() && !final(self).paths().contains_key(ino.inode),
    {
        self.last_ino_alloc.inc();
        proof {
            self.lemma_kept(old(self));
        }
        self.last_ino_alloc
    }

    /// The path that `ino` stands for.
    pub fn lookup_ino_result(&self, ino: &INode) -> (found: Result<&Vec<u8>, HostErrorKind>)
        ensures
            match found {
                Ok(path) => self.paths().contains_key(ino.inode)
                    && path@ == self.paths()[ino.inode],
                Err(kind) => !self.paths().contains_key(ino.inode) && kind
                    == HostErrorKind::NotFound,
            },
    {
        match fx_get(&self.ino_file_map, ino.inode) {
            Some(path) => Ok(path),
            None => Err(HostErrorKind::NotFound),
        }
    }

    /// The inode that stands for `path`.
    pub fn lookup_file_result(&self, path: &Vec<u8>) -> (found: Result<INode, HostErrorKind>)
        ensures
            match found {
                Ok(ino) => self.inodes().contains_key(path@) && ino.inode == self.inodes()[path@],
                Err(kind) => !self.inodes().contains_key(path@) && kind == HostErrorKind::NotFound,
            },
    {
        match fx_bytes_get(&self.file_ino_map, path) {
            Some(inode) => Ok(INode { inode }),
            None => Err(HostErrorKind::NotFound),
        }
    }

    /// The path of the entry `name` in the directory that `parent` stands
    /// for.
    pub fn parent_name_lookup_result(&self, parent: INode, name: &Vec<u8>) -> (found: Result<
        Vec<u8>,
        HostErrorKind,
    >)
        ensures
            match found {
                Ok(path) => self.paths().contains_key(parent.inode) && path@ == join_spec(
                    self.paths()[parent.inode],
                    name@,
                ),
                Err(kind) => !self.paths().contains_key(parent.inode) && kind
                    == HostErrorKind::NotFound,
            },
    {
        match self.lookup_ino_result(&parent) {
            Ok(parent_file) => Ok(join(parent_file, name)),
            Err(kind) => Err(kind),
        }
    }

    /// The inode that stands for `path`: the one it has, or a fresh one
    /// that is bound to it now.
    pub fn lookup_or_create_path(&mut self, path: &Vec<u8>) -> (ino: INode)
        requires
            old(self).wf(),
            !old(self).inodes().contains_key(path@) ==> old(self).last_ino() < u64::MAX,
        ensures
            final(self).wf(),
            final(self).same_but_registry(old(self)),
            final(self).inodes().contains_key(path@),
            final(self).inodes()[path@] == ino.inode,
            old(self).root_bound() ==> final(self).root_bound(),
            old(self).inodes_issued() ==> final(self).inodes_issued(),
            old(self).inodes().contains_key(path@) ==> {
                &&& ino.inode == old(self).inodes()[path@]
                &&& final(self).paths() == old(self).paths()
                &&& final(self).inodes() == old(self).inodes()
                &&& final(self).last_ino() == old(self).last_ino()
            },
            !old(self).inodes().contains_key(path@) ==> {
                &&& ino.inode == old(self).last_ino() + 1
                &&& final(self).paths() == old(self).paths_after_register(ino.inode, path@)
                &&& final(self).inodes() == old(self).inodes_after_register(ino.inode, path@)
                &&& final(self).last_ino() == ino.inode
            },
    {
        match fx_bytes_get(&self.file_ino_map, path) {
            Some(inode) => INode { inode },
            None => {
                let ino = self.fresh_ino();
                proof {
                    if old(self).root_bound() {
                        assert(old(self).inodes().contains_key(old(self).paths()[ROOT_INO]));
                    }
                }
                self.register_ino(ino, clone_bytes(path));
                ino
            },
        }
    }

    /// Unbinds `path` and its inode from each other.
    pub fn remove_path(&mut self, path: &Vec<u8>) -> (done: Result<(), HostErrorKind>)
        requires
            old(self).wf(),
        ensures
            final(self).wf(),
            final(self).same_but_registry(old(self)),
            final(self).last_ino() == old(self).last_ino(),
            match done {
                Ok(_) => {
                    &&& old(self).inodes().contains_key(path@)
                    &&& final(self).inodes() == old(self).inodes().remove(path@)
                    &&& final(self).paths() == old(self).paths().remove(old(self).inodes()[path@])
                },
                Err(kind) => {
                    &&& kind == HostErrorKind::NotFound
                    &&& !old(self).inodes().contains_key(path@)
                    &&& final(self).inodes() == old(self).inodes()
                    &&& final(self).paths() == old(self).paths()
                },
            },
            old(self).root_bound() && path@ != old(self).storage() ==> final(self).root_bound(),
            old(self).inodes_issued() ==> final(self).inodes_issued(),
    {
        match fx_bytes_remove(&mut self.file_ino_map, path) {
            Some(inode) => {
                let removed = fx_remove(&mut self.ino_file_map, inode);
                proof {
                    assert(old(self).inodes().contains_key(path@));
                    assert(old(self).paths().contains_key(inode));
                    assert(self.paths() =~= old(self).paths().remove(inode));
                    assert(self.inodes() == old(self).inodes().remove(path@));
                    self.lemma_kept(old(self));
                    assert forall|i: u64| #[trigger]
                        self.paths().contains_key(i) implies
            self.inodes().contains_key(
                        self.paths()[i],
                    ) && self.inodes()[self.paths()[i]] == i by {
                        assert(old(self).paths().contains_key(i));
                    }
                    assert forall|q: Seq<u8>| #[trigger]
                        self.inodes().contains_key(q) implies self.paths().contains_key(
                        self.inodes()[q],
                    ) && self.paths()[self.inodes()[q]] == q by {
                        assert(old(self).inodes().contains_key(q));
                    }
                }
                match removed {
                    Some(_) => Ok(()),
                    None => Err(HostErrorKind::NotFound),
                }
            },
            None => {
                proof {
                    assert(!old(self).inodes().contains_key(path@));
                    assert(self.inodes() =~= old(self).inodes());
                    self.lemma_kept(old(self));
                }
                Err(HostErrorKind::NotFound)
            },
        }
    }

    /// Moves the inode of `old_path` to `new_path`.
    pub fn rename_ino(&mut self, old_path: &Vec<u8>, new_path: &Vec<u8>) -> (done: Result<
        (),
        HostErrorKind,
    >)
        requires
            old(self).wf(),
        ensures
            final(self).wf(),
            final(self).same_but_registry(old(self)),
            final(self).last_ino() == old(self).last_ino(),
            match done {
                Ok(_) => {
                    let ino = old(self).inodes()[old_path@];
                    &&& old(self).inodes().contains_key(old_path@)
                    &&& final(self).paths() == paths_with(
                        old(self).paths().remove(ino),
                        old(self).inodes().remove(old_path@),
                        ino,
                        new_path@,
                    )
                    &&& final(self).inodes() == inodes_with(
                        old(self).paths().remove(ino),
                        old(self).inodes().remove(old_path@),
                        ino,
                        new_path@,
                    )
                    &&& final(self).inodes().contains_key(new_path@)
                    &&& final(self).inodes()[new_path@] == old(self).inodes()[old_path@]
                    &&& final(self).paths()[old(self).inodes()[old_path@]] == new_path@
                    &&& old_path@ != new_path@ ==> !final(self).inodes().contains_key(old_path@)
                    &&& forall|other: Seq<u8>|
                        other != old_path@ && other != new_path@ ==> (
                        #[trigger] final(self).inodes().contains_key(other)
                            == old(self).inodes().contains_key(other))
                            && (old(self).inodes().contains_key(other)
                            ==> final(self).inodes()[other] == old(self).inodes()[other])
                },
                Err(kind) => {
                    &&& kind == HostErrorKind::NotFound
                    &&& !old(self).inodes().contains_key(old_path@)
                    &&& final(self).inodes() == old(self).inodes()
                    &&& final(self).paths() == old(self).paths()
                },
            },
            old(self).root_bound() && old_path@ != old(self).storage()
                && new_path@ != old(self).storage() ==> final(self).root_bound(),
            old(self).inodes_issued() ==> final(self).inodes_issued(),
    {
        let ino = match self.lookup_file_result(old_path) {
            Ok(ino) => ino,
            Err(kind) => {
                return Err(kind);
            },
        };
        match self.remove_path(old_path) {
            Ok(_) => {},
            Err(kind) => {
                return Err(kind);
            },
        }
        proof {
            if old(self).root_bound() && old_path@ != old(self).storage() {
                assert(old(self).inodes().contains_key(old(self).paths()[ROOT_INO]));
                assert(ino.inode != ROOT_INO);
            }
        }
        self.register_ino(ino, clone_bytes(new_path));
        Ok(())
    }
}

impl NimbusFS {
    /// Everything but the handle table is as in `before`.
    pub open spec fn same_but_handles(&self, before: &NimbusFS) -> bool {
        &&& self.generation_number() == before.generation_number()
        &&& self.paths() == before.paths()
        &&& self.inodes() == before.inodes()
        &&& self.last_ino() == before.last_ino()
        &&& self.project_refs() == before.project_refs()
        &&& self.storage() == before.storage()
        &&& self.mount_point() == before.mount_point()
    }

    /// Records a file just opened for `ino` and issues its handle.
    pub fn register_file_handler(&mut self, ino: INode, use_write_buffer: bool) -> (fh: IFileHandle)
        requires
            old(self).wf(),
            old(self).last_handle() < u64::MAX,
        ensures
            final(self).wf(),
            final(self).same_but_handles(old(self)),
            fh.index == old(self).last_handle() + 1,
            final(self).last_handle() == fh.index,
            !old(self).handlers().contains_key(fh.index),
            forall|other: u64| !(#[trigger] old(self).handles_of(other)).contains(fh.index),
            final(self).handlers().dom().len() == old(self).handlers().dom().len() + 1,
            old(self).root_bound() ==> final(self).root_bound(),
            old(self).inodes_issued() ==> final(self).inodes_issued(),
            final(self).handlers() == old(self).handlers().insert(
                fh.index,
                FileHandler { ino, offset: 0, use_write_buffer },
            ),
            final(self).open_handles() == old(self).open_handles().insert(
                ino.inode,
                old(self).handles_of(ino.inode).push(fh.index),
            ),
    {
        self.last_file_handle.inc();
        let fh = self.last_file_handle;
        fx_insert(&mut self.file_handlers_map, fh.index, FileHandler::new(ino, 0,
            use_write_buffer));
        let mut handlers = match fx_remove(&mut self.ino_open_file_handlers, ino.inode) {
            Some(handlers) => handlers,
            None => Vec::new(),
        };
        handlers.push(fh.index);
        fx_insert(&mut self.ino_open_file_handlers, ino.inode, handlers);
        proof {
            let list = old(self).handles_of(ino.inode).push(fh.index);
            assert(self.open_handles() =~= old(self).open_handles().insert(ino.inode, list));
            assert(self.handlers() == old(self).handlers().insert(
                fh.index,
                FileHandler { ino, offset: 0, use_write_buffer },
            ));
            self.lemma_kept(old(self));
            assert(!old(self).handlers().contains_key(fh.index));
            assert forall|handle: u64| #[trigger]
                self.handlers().contains_key(handle) implies self.handles_of(
                self.handlers()[handle].ino.inode,
            ).contains(handle) && handle <= self.last_handle() by {
                if handle == fh.index {
                    assert(list[list.len() - 1] == handle);
                } else {
                    assert(old(self).handlers().contains_key(handle));
                    let at = old(self).handlers()[handle].ino.inode;
                    let k = choose|k: int|
                        0 <= k < old(self).handles_of(at).len() && old(self).handles_of(at)[k]
                            == handle;
                    if at == ino.inode {
                        assert(list[k] == handle);
                    } else {
                        assert(self.handles_of(at)[k] == handle);
                    }
                }
            }
            assert forall|i: u64, k: int| 0 <= k < self.handles_of(i).len() implies
                self.handlers().contains_key(
                #[trigger] self.handles_of(i)[k],
            ) && self.handlers()[self.handles_of(i)[k]].ino.inode == i by {
                if i == ino.inode {
                    if k < list.len() - 1 {
                        assert(old(self).handles_of(i)[k] == list[k]);
                        assert(old(self).handlers().contains_key(old(self).handles_of(i)[k]));
                    }
                } else {
                    assert(old(self).handles_of(i)[k] == self.handles_of(i)[k]);
                    assert(old(self).handlers().contains_key(old(self).handles_of(i)[k]));
                }
            }
        }
        fh
    }

    /// The record of the open file `fh`.
    pub fn lookup_file_handler_result(&self, fh: IFileHandle) -> (found: Result<
        FileHandler,
        HostErrorKind,
    >)
        ensures
            match found {
                Ok(handler) => self.handlers().contains_key(fh.index) && handler
                    == self.handlers()[fh.index],
                Err(kind) => !self.handlers().contains_key(fh.index) && kind
                    == HostErrorKind::NotFound,
            },
    {
        match fx_get(&self.file_handlers_map, fh.index) {
            Some(handler) => Ok(*handler),
            None => Err(HostErrorKind::NotFound),
        }
    }

    /// Forgets the file `fh` that is open on `ino`, and returns its
    /// record. There is nothing to forget where `fh` is not open on `ino`.
    pub fn delete_file_handler_result(&mut self, ino: INode, fh: IFileHandle) -> (deleted: Result<
        FileHandler,
        HostErrorKind,
    >)
        requires
            old(self).wf(),
        ensures
            final(self).wf(),
            final(self).same_but_handles(old(self)),
            final(self).last_handle() == old(self).last_handle(),
            match deleted {
                Ok(handler) => {
                    &&& old(self).handlers().contains_key(fh.index)
                    &&& handler == old(self).handlers()[fh.index]
                    &&& handler.ino == ino
                    &&& final(self).handlers().dom().len() + 1 == old(self).handlers().dom().len()
                    &&& final(self).handlers() == old(self).handlers().remove(fh.index)
                    &&& final(self).open_handles() == old(self).open_handles().insert(
                        ino.inode,
                        without(old(self).handles_of(ino.inode), fh.index),
                    )
                },
                Err(kind) => {
                    &&& kind == HostErrorKind::NotFound
                    &&& !(old(self).handlers().contains_key(fh.index)
                        && old(self).handlers()[fh.index].ino == ino)
                    &&& final(self).handlers() == old(self).handlers()
                    &&& final(self).open_handles() == old(self).open_handles()
                },
            },
    {
        let handler = match fx_get(&self.file_handlers_map, fh.index) {
            Some(handler) => *handler,
            None => {
                return Err(HostErrorKind::NotFound);
            },
        };
        if handler.ino.inode != ino.inode {
            return Err(HostErrorKind::NotFound);
        }
        fx_remove(&mut self.file_handlers_map, fh.index);
        let open = match fx_remove(&mut self.ino_open_file_handlers, ino.inode) {
            Some(open) => open,
            None => Vec::new(),
        };
        let mut kept: Vec<u64> = Vec::new();
        let mut i: usize = 0;
        while i < open.len()
            invariant
                i <= open.len(),
                kept@ == without(open@.subrange(0, i as int), fh.index),
            decreases open.len() - i,
        {
            proof {
                let next = open@.subrange(0, i + 1);
                assert(next == open@.subrange(0, i as int).push(open@[i as int]));
                open@.subrange(0, i as int).lemma_filter_push(
                    open@[i as int],
                    other_than(fh.index),
                );
            }
            if open[i] != fh.index {
                kept.push(open[i]);
            }
            i += 1;
        }
        proof {
            assert(open@.subrange(0, open.len() as int) == open@);
            assert(open@ == old(self).handles_of(ino.inode));
        }
        fx_insert(&mut self.ino_open_file_handlers, ino.inode, kept);
        proof {
            let before = old(self).handles_of(ino.inode);
            let list = without(before, fh.index);
            assert(self.open_handles() =~= old(self).open_handles().insert(ino.inode, list));
            assert(self.handlers() == old(self).handlers().remove(fh.index));
            assert(before.no_duplicates());
            lemma_without_distinct(before, fh.index);
            assert forall|i: u64| (#[trigger] self.handles_of(i)).no_duplicates() by {
                if i != ino.inode {
                    assert(self.handles_of(i) == old(self).handles_of(i));
                }
            }
            self.lemma_kept(old(self));
            assert forall|handle: u64| #[trigger]
                self.handlers().contains_key(handle) implies self.handles_of(
                self.handlers()[handle].ino.inode,
            ).contains(handle) && handle <= self.last_handle() by {
                assert(old(self).handlers().contains_key(handle));
                let at = old(self).handlers()[handle].ino.inode;
                assert(old(self).handles_of(at).contains(handle));
                if at == ino.inode {
                    lemma_without(before, fh.index, handle);
                } else {
                    assert(self.handles_of(at) == old(self).handles_of(at));
                }
            }
            assert forall|i: u64, k: int| 0 <= k < self.handles_of(i).len() implies
                self.handlers().contains_key(
                #[trigger] self.handles_of(i)[k],
            ) && self.handlers()[self.handles_of(i)[k]].ino.inode == i by {
                let handle = self.handles_of(i)[k];
                if i == ino.inode {
                    assert(list.contains(handle));
                    lemma_without(before, fh.index, handle);
                    let j = choose|j: int| 0 <= j < before.len() && before[j] == handle;
                    assert(old(self).handlers().contains_key(old(self).handles_of(i)[j]));
                } else {
                    assert(old(self).handles_of(i)[k] == handle);
                    assert(old(self).handlers().contains_key(old(self).handles_of(i)[k]));
                }
            }
        }
        Ok(handler)
    }

    /// Names the files to flush before the attributes of `ino` are read
    /// from the host: every file that is open on `ino`, in the order in
    /// which they were opened. What these hold in their buffers has to reach
    /// the host first, or the host tells a stale size and time.
    pub fn flush_associated_file_handlers(&self, ino: INode) -> (handles: Vec<IFileHandle>)
        requires
            self.wf(),
        ensures
            handles@.len() == self.handles_of(ino.inode).len(),
            forall|k: int|
                0 <= k < handles@.len() ==> (#[trigger] handles@[k]).index == self.handles_of(
                    ino.inode,
                )[k],
            forall|k: int|
                0 <= k < handles@.len() ==> self.handlers().contains_key(
                    (#[trigger] handles@[k]).index,
                ),
    {
        let mut handles: Vec<IFileHandle> = Vec::new();
        match fx_get(&self.ino_open_file_handlers, ino.inode) {
            Some(open) => {
                let mut i: usize = 0;
                while i < open.len()
                    invariant
                        i <= open.len(),
                        self.wf(),
                        open@ == self.handles_of(ino.inode),
                        handles@.len() == i,
                        forall|k: int|
                            0 <= k < i ==> (#[trigger] handles@[k]).index == open@[k],
                        forall|k: int|
                            0 <= k < i ==> self.handlers().contains_key(
                                (#[trigger] handles@[k]).index,
                            ),
                    decreases open.len() - i,
                {
                    proof {
                        assert(self.handlers().contains_key(self.handles_of(ino.inode)[i as int]));
                    }
                    handles.push(IFileHandle { index: open[i] });
                    i += 1;
                }
            },
            None => {},
        }
        handles
    }

    /// The number of open files.
    pub fn count_file_handlers(&self) -> (count: usize)
        ensures
            count == self.handlers().dom().len(),
    {
        fx_len(&self.file_handlers_map)
    }
}

impl NimbusFS {
    /// Everything but the reference counts is as in `before`.
    pub open spec fn same_but_refs(&self, before: &NimbusFS) -> bool {
        &&& self.generation_number() == before.generation_number()
        &&& self.paths() == before.paths()
        &&& self.inodes() == before.inodes()
        &&& self.last_ino() == before.last_ino()
        &&& self.open_handles() == before.open_handles()
        &&& self.handlers() == before.handlers()
        &&& self.last_handle() == before.last_handle()
        &&& self.storage() == before.storage()
        &&& self.mount_point() == before.mount_point()
    }

    /// The project that `path` belongs to. The path must lie in a project.
    pub fn canonicize_project_name(&self, path: &Vec<u8>) -> (project: CanonicalProjectName)
        requires
            project_name_spec(self.storage(), path@) is Some,
        ensures
            Some(project@) == project_name_spec(self.storage(), path@),
    {
        project_name(&self.local_storage, path).unwrap()
    }

    /// The number of references that `project` has now.
    pub fn project_ref_count(&self, project: &CanonicalProjectName) -> (count: u64)
        ensures
            count == self.refs_of(project@),
    {
        match fx_bytes_get(&self.index_refs, project) {
            Some(count) => count,
            None => 0,
        }
    }

    /// Counts one more reference to `project`. The first reference, and the
    /// first after the count had gone back to zero, asks for the project's
    /// lock.
    pub fn inc_project_ref(&mut self, project: CanonicalProjectName) -> (change: RefChange)
        requires
            old(self).wf(),
            old(self).refs_of(project@) < u64::MAX,
        ensures
            final(self).wf(),
            final(self).same_but_refs(old(self)),
            old(self).root_bound() ==> final(self).root_bound(),
            change.count == old(self).refs_of(project@) + 1,
            final(self).project_refs() == old(self).project_refs().insert(project@, change.count),
            change.intention == (if old(self).refs_of(project@) == 0 {
                LockIntention::Acquire
            } else {
                LockIntention::Nothing
            }),
    {
        let prev = self.project_ref_count(&project);
        fx_bytes_insert(&mut self.index_refs, project, prev + 1);
        proof {
            self.lemma_kept(old(self));
        }
        RefChange {
            count: prev + 1,
            intention: if prev == 0 {
                LockIntention::Acquire
            } else {
                LockIntention::Nothing
            },
        }
    }

    /// Takes one reference to `project` back. Taking the last one back
    /// gives the project's lock up. The project must have a reference.
    pub fn dec_project_ref(&mut self, project: CanonicalProjectName) -> (change: RefChange)
        requires
            old(self).wf(),
            old(self).refs_of(project@) > 0,
        ensures
            final(self).wf(),
            final(self).same_but_refs(old(self)),
            old(self).root_bound() ==> final(self).root_bound(),
            change.count == old(self).refs_of(project@) - 1,
            final(self).project_refs() == old(self).project_refs().insert(project@, change.count),
            change.intention == (if change.count == 0 {
                LockIntention::Release
            } else {
                LockIntention::Nothing
            }),
    {
        let prev = self.project_ref_count(&project);
        fx_bytes_insert(&mut self.index_refs, project, prev - 1);
        proof {
            self.lemma_kept(old(self));
        }
        RefChange {
            count: prev - 1,
            intention: if prev == 1 {
                LockIntention::Release
            } else {
                LockIntention::Nothing
            },
        }
    }

    /// Counts a reference to `project` for the process `pid`, and returns
    /// the follower that tells when the process has left the project. The
    /// reference is counted before anything else happens; whoever runs the
    /// follower takes it back when the follower stops.
    pub fn pid_cwd_project_ref(
        &mut self,
        project: CanonicalProjectName,
        pid: u32,
        retry_limit: u32,
    ) -> (started: (Follower, RefChange))
        requires
            old(self).wf(),
            old(self).refs_of(project@) < u64::MAX,
        ensures
            final(self).wf(),
            final(self).same_but_refs(old(self)),
            old(self).root_bound() ==> final(self).root_bound(),
            started.1.count == old(self).refs_of(project@) + 1,
            final(self).project_refs() == old(self).project_refs().insert(
                project@,
                started.1.count,
            ),
            started.1.intention == (if old(self).refs_of(project@) == 0 {
                LockIntention::Acquire
            } else {
                LockIntention::Nothing
            }),
            started.0.pid == pid as i32,
            started.0.project@ == project@,
            started.0.project_directory@ == join_spec(old(self).mount_point(), project@),
            started.0.incomplete_reads == 0,
            started.0.retry_limit == retry_limit,
    {
        let change = self.inc_project_ref(clone_bytes(&project));
        let follower = Follower::new(&self.mount_directory, project, pid, retry_limit);
        (follower, change)
    }
}

/// A time to give a file: a stated one, or the moment at which it is
/// given.
#[derive(Clone, Copy, Debug, PartialEq, Eq, Structural)]
pub enum TimeOrNow {
    SpecificTime(Timestamp),
    Now,
}

/// The times to give a file; a time that is not named stays as it is.
#[derive(Clone, Copy, Debug, PartialEq, Eq, Structural)]
pub struct FileTimes {
    pub accessed: Option<Timestamp>,
    pub modified: Option<Timestamp>,
}

/// The time that a request names, at the moment `now`.
pub open spec fn requested_time(time: Option<TimeOrNow>, now: Timestamp) -> Option<Timestamp> {
    match time {
        Some(TimeOrNow::SpecificTime(stated)) => Some(stated),
        Some(TimeOrNow::Now) => Some(now),
        None => None,
    }
}

/// The times that a request to set attributes names, at the moment `now`.
pub fn construct_file_time(atime: Option<TimeOrNow>, mtime: Option<TimeOrNow>, now: Timestamp)
    -> (times:
    FileTimes)
    ensures
        times.accessed == requested_time(atime, now),
        times.modified == requested_time(mtime, now),
{
    let accessed = match atime {
        Some(TimeOrNow::SpecificTime(stated)) => Some(stated),
        Some(TimeOrNow::Now) => Some(now),
        None => None,
    };
    let modified = match mtime {
        Some(TimeOrNow::SpecificTime(stated)) => Some(stated),
        Some(TimeOrNow::Now) => Some(now),
        None => None,
    };
    FileTimes { accessed, modified }
}

/// What to do before a file's attributes are read from the host.
#[derive(Debug)]
pub struct StatPlan {
    /// The file's path on the host.
    pub path: Vec<u8>,
    /// The open files whose buffers must reach the host first.
    pub flush: Vec<IFileHandle>,
}

impl NimbusFS {
    /// Whether `ino` can be counted for a project: it is the root, which
    /// belongs to none, or it is unknown, or its path lies in a project.
    pub open spec fn countable(&self, ino: u64) -> bool {
        ino != ROOT_INO && self.paths().contains_key(ino) ==> project_name_spec(
            self.storage(),
            self.paths()[ino],
        ) is Some
    }

    /// The project of `ino`'s path.
    pub open spec fn project_of(&self, ino: u64) -> Seq<u8> {
        project_name_spec(self.storage(), self.paths()[ino]).unwrap()
    }

    /// Prepares reading the attributes of `ino`: where the file is, and
    /// which open files have to be flushed before, namely all that are open
    /// on `ino`.
    pub fn getattr_plan(&self, ino: INode) -> (plan: Result<StatPlan, HostErrorKind>)
        requires
            self.wf(),
        ensures
            match plan {
                Ok(plan) => {
                    &&& self.paths().contains_key(ino.inode)
                    &&& plan.path@ == self.paths()[ino.inode]
                    &&& plan.flush@.len() == self.handles_of(ino.inode).len()
                    &&& forall|k: int|
                        0 <= k < plan.flush@.len() ==> (#[trigger] plan.flush@[k]).index
                            == self.handles_of(ino.inode)[k]
                },
                Err(kind) => kind == HostErrorKind::NotFound && !self.paths().contains_key(
                    ino.inode,
                ),
            },
    {
        match self.lookup_ino_result(&ino) {
            Ok(path) => Ok(
                StatPlan {
                    path: clone_bytes(path),
                    flush: self.flush_associated_file_handlers(ino),
                },
            ),
            Err(kind) => Err(kind),
        }
    }

    /// The attributes of `ino`, of which the host knows `metadata`: the
    /// host's, under the mount's own inode number.
    pub fn getattr_fs(&self, ino: INode, metadata: &HostMetadata) -> (attr: FileAttr)
        requires
            metadata.convertible(),
        ensures
            attr == (FileAttr { ino: ino.inode, ..metadata.attributes() }),
    {
        let mut attr = convert_metadata(metadata);
        attr.ino = ino.inode;
        attr
    }

    /// Counts the opening of the directory `ino` for its project; the root
    /// belongs to no project and counts for none. Directory handles carry
    /// no state: the handle is always 0.
    pub fn opendir_fs(&mut self, ino: INode) -> (opened: Result<
        (IFileHandle, Option<RefChange>),
        HostErrorKind,
    >)
        requires
            old(self).wf(),
            old(self).countable(ino.inode),
            ino.inode != ROOT_INO && old(self).paths().contains_key(ino.inode)
                ==> old(self).refs_of(old(self).project_of(ino.inode)) < u64::MAX,
        ensures
            final(self).wf(),
            final(self).same_but_refs(old(self)),
            old(self).root_bound() ==> final(self).root_bound(),
            match opened {
                Ok((fh, change)) => {
                    &&& fh.index == 0
                    &&& ino.inode == ROOT_INO ==> change.is_none() && final(self).project_refs()
                        == old(self).project_refs()
                    &&& ino.inode != ROOT_INO ==> {
                        &&& old(self).paths().contains_key(ino.inode)
                        &&& change == Some(
                            old(self).change_after_inc(old(self).project_of(ino.inode)),
                        )
                        &&& final(self).project_refs() == old(self).project_refs().insert(
                            old(self).project_of(ino.inode),
                            change.unwrap().count,
                        )
                    }
                },
                Err(kind) => {
                    &&& kind == HostErrorKind::NotFound
                    &&& ino.inode != ROOT_INO
                    &&& !old(self).paths().contains_key(ino.inode)
                    &&& final(self).project_refs() == old(self).project_refs()
                },
            },
    {
        if ino.inode != ROOT_INO {
            let project = match self.lookup_ino_result(&ino) {
                Ok(path) => self.canonicize_project_name(path),
                Err(kind) => {
                    return Err(kind);
                },
            };
            let change = self.inc_project_ref(project);
            Ok((IFileHandle { index: 0 }, Some(change)))
        } else {
            Ok((IFileHandle { index: 0 }, None))
        }
    }

    /// The outcome of counting one more reference to `project`.
    pub open spec fn change_after_inc(&self, project: Seq<u8>) -> RefChange {
        RefChange {
            count: (self.refs_of(project) + 1) as u64,
            intention: if self.refs_of(project) == 0 {
                LockIntention::Acquire
            } else {
                LockIntention::Nothing
            },
        }
    }

    /// The outcome of taking one reference to `project` back.
    pub open spec fn change_after_dec(&self, project: Seq<u8>) -> RefChange {
        RefChange {
            count: (self.refs_of(project) - 1) as u64,
            intention: if self.refs_of(project) == 1 {
                LockIntention::Release
            } else {
                LockIntention::Nothing
            },
        }
    }

    /// Counts the closing of a file or directory on `ino` for its project;
    /// the root counts for none. The project must have a reference to take
    /// back.
    pub fn releasedir_fs(&mut self, ino: INode) -> (released: Result<
        Option<RefChange>,
        HostErrorKind,
    >)
        requires
            old(self).wf(),
            old(self).countable(ino.inode),
            ino.inode != ROOT_INO && old(self).paths().contains_key(ino.inode)
                ==> old(self).refs_of(old(self).project_of(ino.inode)) > 0,
        ensures
            final(self).wf(),
            final(self).same_but_refs(old(self)),
            old(self).root_bound() ==> final(self).root_bound(),
            match released {
                Ok(change) => {
                    &&& ino.inode == ROOT_INO ==> change.is_none() && final(self).project_refs()
                        == old(self).project_refs()
                    &&& ino.inode != ROOT_INO ==> {
                        &&& old(self).paths().contains_key(ino.inode)
                        &&& change == Some(
                            old(self).change_after_dec(old(self).project_of(ino.inode)),
                        )
                        &&& final(self).project_refs() == old(self).project_refs().insert(
                            old(self).project_of(ino.inode),
                            change.unwrap().count,
                        )
                    }
                },
                Err(kind) => {
                    &&& kind == HostErrorKind::NotFound
                    &&& ino.inode != ROOT_INO
                    &&& !old(self).paths().contains_key(ino.inode)
                    &&& final(self).project_refs() == old(self).project_refs()
                },
            },
    {
        if ino.inode != ROOT_INO {
            let project = match self.lookup_ino_result(&ino) {
                Ok(path) => self.canonicize_project_name(path),
                Err(kind) => {
                    return Err(kind);
                },
            };
            let change = self.dec_project_ref(project);
            Ok(Some(change))
        } else {
            Ok(None)
        }
    }
}

/// The rename flag that keeps an existing target.
pub const RENAME_NOREPLACE: u32 = 1;

/// The rename flag that swaps source and target.
pub const RENAME_EXCHANGE: u32 = 2;

/// The rename flag that leaves a whiteout at the source.
pub const RENAME_WHITEOUT: u32 = 4;

/// `nix::fcntl::RenameFlags::from_bits_truncate`, and `bits` on what it
/// returns: the bits of `flags` that stand for a flag of the host's rename.
/// Every other bit is dropped.
#[verifier::external_body]
fn known_rename_flags(flags: u32) -> (known: u32)
    ensures
        known == flags & (RENAME_NOREPLACE | RENAME_EXCHANGE | RENAME_WHITEOUT),
{
    nix::fcntl::RenameFlags::from_bits_truncate(flags).bits()
}

/// How to open a file on the host.
#[derive(Debug)]
pub struct OpenTarget {
    pub path: Vec<u8>,
    pub plan: OpenPlan,
}

/// A file that was opened and recorded.
#[derive(Clone, Copy, Debug, PartialEq, Eq)]
pub struct Opened {
    pub fh: IFileHandle,
    /// The change of the project's count; none for the root.
    pub change: Option<RefChange>,
}

/// A file that was created, opened and recorded.
#[derive(Clone, Copy, Debug, PartialEq, Eq)]
pub struct Created {
    pub ino: INode,
    pub fh: IFileHandle,
    /// The change of the project's count; none for the root.
    pub change: Option<RefChange>,
}

/// What a lookup found, and what is left to do for it.
#[derive(Debug)]
pub struct LookupPlan {
    /// The entry's path on the host.
    pub path: Vec<u8>,
    pub ino: INode,
    /// The open files whose buffers must reach the host before the
    /// entry's attributes are read.
    pub flush: Vec<IFileHandle>,
    /// The watch on the process that looked the entry up.
    pub follower: Follower,
    /// The change of the project's count.
    pub change: RefChange,
}

/// The offset at which a listing goes on after the entry that is the
/// `counter`-th behind the `offset` entries that the listing left out.
pub open spec fn entry_offset(offset: i64, counter: usize) -> int {
    offset + counter + 1
}

/// A listing that is taken up again numbers its entries as before: the
/// entry that comes `later_counter` entries behind `later` left out is the
/// one that came `counter` entries behind `offset` left out, and is given
/// the same offset to go on from.
pub proof fn lemma_listing_resumes(offset: i64, counter: usize, later: i64, later_counter: usize)
    requires
        offset + counter == later + later_counter,
    ensures
        entry_offset(offset, counter) == entry_offset(later, later_counter),
{
}

/// One entry of a directory listing.
#[derive(Clone, Copy, Debug, PartialEq, Eq)]
pub struct DirectoryEntry {
    pub ino: INode,
    /// The offset at which a listing goes on after this entry.
    pub offset: i64,
    pub kind: FileKind,
}

/// How to read from an open file.
#[derive(Debug)]
pub struct ReadPlan {
    /// Where to put the cursor, counted from the start of the file.
    pub position: u64,
    /// The buffer to read into: as long as was asked for, all zero.
    pub buffer: Vec<u8>,
}

/// How to rename on the host.
#[derive(Debug)]
pub struct RenamePlan {
    pub from: Vec<u8>,
    pub to: Vec<u8>,
    /// The flags for the host's rename.
    pub flags: u32,
}

impl NimbusFS {
    /// Prepares opening `ino` with `flags`: the path and the mode to open
    /// it with on the host. The flags must have a plan.
    pub fn open_target(&self, ino: INode, flags: i32) -> (target: Result<OpenTarget, HostErrorKind>)
        requires
            open_plan(flags).is_some(),
        ensures
            match target {
                Ok(target) => {
                    &&& self.paths().contains_key(ino.inode)
                    &&& target.path@ == self.paths()[ino.inode]
                    &&& Some(target.plan) == open_plan(flags)
                },
                Err(kind) => kind == HostErrorKind::NotFound && !self.paths().contains_key(
                    ino.inode,
                ),
            },
    {
        let plan = parse_flag_options(flags);
        match self.lookup_ino_result(&ino) {
            Ok(path) => Ok(OpenTarget { path: clone_bytes(path), plan }),
            Err(kind) => Err(kind),
        }
    }

    /// Records that `ino` was opened on the host: counts a reference for
    /// its project, unless it is the root, and issues the handle.
    pub fn open_fs(&mut self, ino: INode, use_write_buffer: bool) -> (opened: Result<
        Opened,
        HostErrorKind,
    >)
        requires
            old(self).wf(),
            old(self).countable(ino.inode),
            old(self).last_handle() < u64::MAX,
            ino.inode != ROOT_INO && old(self).paths().contains_key(ino.inode)
                ==> old(self).refs_of(old(self).project_of(ino.inode)) < u64::MAX,
        ensures
            final(self).wf(),
            final(self).same_mount(old(self)),
            old(self).root_bound() ==> final(self).root_bound(),
            final(self).paths() == old(self).paths(),
            final(self).inodes() == old(self).inodes(),
            final(self).last_ino() == old(self).last_ino(),
            match opened {
                Ok(opened) => {
                    &&& ino.inode != ROOT_INO ==> old(self).paths().contains_key(ino.inode)
                    &&& opened.fh.index == old(self).last_handle() + 1
                    &&& final(self).last_handle() == opened.fh.index
                    &&& final(self).handlers() == old(self).handlers().insert(
                        opened.fh.index,
                        FileHandler { ino, offset: 0, use_write_buffer },
                    )
                    &&& final(self).open_handles() == old(self).open_handles().insert(
                        ino.inode,
                        old(self).handles_of(ino.inode).push(opened.fh.index),
                    )
                    &&& ino.inode == ROOT_INO
                        ==> opened.change.is_none()
                            && final(self).project_refs() == old(self).project_refs()
                    &&& ino.inode != ROOT_INO ==> {
                        &&& opened.change == Some(
                            old(self).change_after_inc(old(self).project_of(ino.inode)),
                        )
                        &&& final(self).project_refs() == old(self).project_refs().insert(
                            old(self).project_of(ino.inode),
                            opened.change.unwrap().count,
                        )
                    }
                },
                Err(kind) => {
                    &&& kind == HostErrorKind::NotFound
                    &&& ino.inode != ROOT_INO
                    &&& !old(self).paths().contains_key(ino.inode)
                    &&& final(self).project_refs() == old(self).project_refs()
                    &&& final(self).handlers() == old(self).handlers()
                    &&& final(self).open_handles() == old(self).open_handles()
                    &&& final(self).last_handle() == old(self).last_handle()
                },
            },
    {
        let change = match self.opendir_fs(ino) {
            Ok((_, change)) => change,
            Err(kind) => {
                return Err(kind);
            },
        };
        let fh = self.register_file_handler(ino, use_write_buffer);
        Ok(Opened { fh, change })
    }

    /// Records that the file `filename` was created and opened on the host
    /// with `flags`: binds an inode to it if it has none, counts a
    /// reference for its project, and issues the handle. The flags must have
    /// a plan, and the file must lie in a project.
    pub fn create_fs(&mut self, filename: &Vec<u8>, flags: i32) -> (created: Created)
        requires
            old(self).wf(),
            old(self).root_bound(),
            open_plan(flags).is_some(),
            project_name_spec(old(self).storage(), filename@) is Some,
            !old(self).inodes().contains_key(filename@) ==> old(self).last_ino() < u64::MAX,
            old(self).last_handle() < u64::MAX,
            old(self).refs_of(project_name_spec(old(self).storage(), filename@).unwrap())
                < u64::MAX,
        ensures
            final(self).wf(),
            final(self).same_mount(old(self)),
            final(self).root_bound(),
            final(self).last_ino() >= old(self).last_ino(),
            old(self).inodes_issued() ==> final(self).inodes_issued(),
            final(self).inodes().contains_key(filename@),
            final(self).inodes()[filename@] == created.ino.inode,
            created.ino.inode == (if old(self).inodes().contains_key(filename@) {
                old(self).inodes()[filename@]
            } else {
                (old(self).last_ino() + 1) as u64
            }),
            created.ino.inode != ROOT_INO,
            old(self).inodes().contains_key(filename@) ==> {
                &&& final(self).paths() == old(self).paths()
                &&& final(self).inodes() == old(self).inodes()
                &&& final(self).last_ino() == old(self).last_ino()
            },
            !old(self).inodes().contains_key(filename@) ==> {
                &&& final(self).paths() == old(self).paths_after_register(
                    created.ino.inode,
                    filename@,
                )
                &&& final(self).inodes() == old(self).inodes_after_register(
                    created.ino.inode,
                    filename@,
                )
                &&& final(self).last_ino() == created.ino.inode
            },
            created.fh.index == old(self).last_handle() + 1,
            final(self).last_handle() == created.fh.index,
            final(self).handlers() == old(self).handlers().insert(
                created.fh.index,
                FileHandler {
                    ino: created.ino,
                    offset: 0,
                    use_write_buffer: open_plan(flags).unwrap().use_write_buffer,
                },
            ),
            final(self).open_handles() == old(self).open_handles().insert(
                created.ino.inode,
                old(self).handles_of(created.ino.inode).push(created.fh.index),
            ),
            created.change == Some(
                old(self).change_after_inc(
                    project_name_spec(old(self).storage(), filename@).unwrap(),
                ),
            ),
            final(self).project_refs() == old(self).project_refs().insert(
                project_name_spec(old(self).storage(), filename@).unwrap(),
                created.change.unwrap().count,
            ),
    {
        let ino = self.lookup_or_create_path(filename);
        let plan = parse_flag_options(flags);
        proof {
            assert(self.paths().contains_key(self.inodes()[filename@]));
            if ino.inode == ROOT_INO {
                assert(self.paths()[ROOT_INO] == self.storage());
                crate::path::lemma_no_project_at_base(self.storage());
            }
        }
        let opened = self.open_fs(ino, plan.use_write_buffer);
        let opened = opened.unwrap();
        Created { ino, fh: opened.fh, change: opened.change }
    }
}

impl NimbusFS {
    /// Looks the entry `name` of the directory `parent` up for the process
    /// `pid`: counts a reference for the entry's project, to be taken back
    /// when the returned follower stops; finds the entry's inode or binds a
    /// fresh one; and names the open files to flush before the entry's
    /// attributes are read. The entry must lie in a project.
    pub fn lookup_fs(&mut self, parent: INode, name: &Vec<u8>, pid: u32, retry_limit: u32) -> (plan:
        Result<LookupPlan, HostErrorKind>)
        requires
            old(self).wf(),
            old(self).paths().contains_key(parent.inode) ==> {
                let path = join_spec(old(self).paths()[parent.inode], name@);
                &&& project_name_spec(old(self).storage(), path) is Some
                &&& old(self).refs_of(project_name_spec(old(self).storage(), path).unwrap())
                    < u64::MAX
                &&& !old(self).inodes().contains_key(path) ==> old(self).last_ino() < u64::MAX
            },
        ensures
            final(self).wf(),
            final(self).same_mount(old(self)),
            old(self).root_bound() ==> final(self).root_bound(),
            final(self).open_handles() == old(self).open_handles(),
            final(self).handlers() == old(self).handlers(),
            final(self).last_handle() == old(self).last_handle(),
            final(self).last_ino() >= old(self).last_ino(),
            old(self).inodes_issued() ==> final(self).inodes_issued(),
            match plan {
                Ok(plan) => {
                    let path = join_spec(old(self).paths()[parent.inode], name@);
                    let project = project_name_spec(old(self).storage(), path).unwrap();
                    &&& old(self).paths().contains_key(parent.inode)
                    &&& plan.path@ == path
                    &&& final(self).inodes().contains_key(path)
                    &&& final(self).inodes()[path] == plan.ino.inode
                    &&& plan.ino.inode == (if old(self).inodes().contains_key(path) {
                        old(self).inodes()[path]
                    } else {
                        (old(self).last_ino() + 1) as u64
                    })
                    &&& old(self).inodes().contains_key(path)
                        ==> final(self).inodes() == old(self).inodes()
                            && final(self).paths() == old(self).paths()
                    &&& !old(self).inodes().contains_key(path)
                        ==> final(self).inodes()
                            == old(self).inodes_after_register(plan.ino.inode, path)
                                && final(self).paths()
                                    == old(self).paths_after_register(plan.ino.inode, path)
                    &&& plan.change == old(self).change_after_inc(project)
                    &&& final(self).project_refs() == old(self).project_refs().insert(
                        project,
                        plan.change.count,
                    )
                    &&& plan.follower.pid == pid as i32
                    &&& plan.follower.project@ == project
                    &&& plan.follower.project_directory@ == join_spec(
                        old(self).mount_point(),
                        project,
                    )
                    &&& plan.follower.incomplete_reads == 0
                    &&& plan.follower.retry_limit == retry_limit
                    &&& plan.flush@.len() == old(self).handles_of(plan.ino.inode).len()
                    &&& forall|k: int|
                        0 <= k < plan.flush@.len()
                            ==> (#[trigger] plan.flush@[k]).index
                                == old(self).handles_of(plan.ino.inode)[k]
                },
                Err(kind) => {
                    &&& kind == HostErrorKind::NotFound
                    &&& !old(self).paths().contains_key(parent.inode)
                    &&& final(self).paths() == old(self).paths()
                    &&& final(self).inodes() == old(self).inodes()
                    &&& final(self).project_refs() == old(self).project_refs()
                    &&& final(self).last_ino() == old(self).last_ino()
                },
            },
    {
        let filename = match self.parent_name_lookup_result(parent, name) {
            Ok(filename) => filename,
            Err(kind) => {
                return Err(kind);
            },
        };
        let project = self.canonicize_project_name(&filename);
        let (follower, change) = self.pid_cwd_project_ref(project, pid, retry_limit);
        let ino = self.lookup_or_create_path(&filename);
        let flush = self.flush_associated_file_handlers(ino);
        Ok(LookupPlan { path: filename, ino, flush, follower, change })
    }

    /// How many entries a listing that starts at `offset` leaves out.
    pub fn readdir_skip(offset: i64) -> (skipped: usize)
        requires
            0 <= offset <= usize::MAX,
        ensures
            skipped == offset,
    {
        offset as usize
    }

    /// The entry of a listing for the file at `entry_path`, which is the
    /// `counter`-th after the `offset` entries that the listing left out:
    /// its inode, found or freshly bound, its kind, and the offset at which
    /// the listing goes on after it.
    pub fn readdir_entry(
        &mut self,
        offset: i64,
        counter: usize,
        entry_path: &Vec<u8>,
        file_type: HostFileType,
    ) -> (entry: DirectoryEntry)
        requires
            old(self).wf(),
            file_type.kind().is_some(),
            0 <= offset,
            entry_offset(offset, counter) <= i64::MAX,
            !old(self).inodes().contains_key(entry_path@) ==> old(self).last_ino() < u64::MAX,
        ensures
            final(self).wf(),
            final(self).same_but_registry(old(self)),
            old(self).root_bound() ==> final(self).root_bound(),
            old(self).inodes_issued() ==> final(self).inodes_issued(),
            entry.offset == entry_offset(offset, counter),
            Some(entry.kind) == file_type.kind(),
            final(self).inodes().contains_key(entry_path@),
            final(self).inodes()[entry_path@] == entry.ino.inode,
            old(self).inodes().contains_key(entry_path@) ==> {
                &&& entry.ino.inode == old(self).inodes()[entry_path@]
                &&& final(self).paths() == old(self).paths()
                &&& final(self).inodes() == old(self).inodes()
                &&& final(self).last_ino() == old(self).last_ino()
            },
            !old(self).inodes().contains_key(entry_path@) ==> {
                &&& entry.ino.inode == old(self).last_ino() + 1
                &&& final(self).paths() == old(self).paths_after_register(
                    entry.ino.inode,
                    entry_path@,
                )
                &&& final(self).inodes() == old(self).inodes_after_register(
                    entry.ino.inode,
                    entry_path@,
                )
                &&& final(self).last_ino() == entry.ino.inode
            },
    {
        let ino = self.lookup_or_create_path(entry_path);
        DirectoryEntry {
            ino,
            offset: offset + (counter as i64) + 1,
            kind: convert_file_type(file_type),
        }
    }

    /// Prepares reading `size` bytes at `offset` from the open file `fh`.
    /// The offset is not negative, and the file was not opened for buffered
    /// writing.
    pub fn read_fs(&self, fh: IFileHandle, offset: i64, size: u32) -> (plan: Result<
        ReadPlan,
        HostErrorKind,
    >)
        requires
            offset >= 0,
            self.handlers().contains_key(fh.index) ==> !self.handlers()[fh.index].use_write_buffer,
        ensures
            match plan {
                Ok(plan) => {
                    &&& self.handlers().contains_key(fh.index)
                    &&& plan.position == offset
                    &&& plan.buffer@ == Seq::new(size as nat, |i: int| 0u8)
                },
                Err(kind) => kind == HostErrorKind::NotFound && !self.handlers().contains_key(
                    fh.index,
                ),
            },
    {
        match self.lookup_file_handler_result(fh) {
            Ok(_) => {
                let buffer: Vec<u8> = vec![0u8; size as usize];
                proof {
                    assert(buffer@ =~= Seq::new(size as nat, |i: int| 0u8));
                }
                Ok(ReadPlan { position: offset as u64, buffer })
            },
            Err(kind) => Err(kind),
        }
    }

    /// Prepares writing at `offset` to the open file `fh`: where to put the
    /// cursor. The offset is not negative.
    pub fn write_fs(&self, fh: IFileHandle, offset: i64) -> (position: Result<u64, HostErrorKind>)
        requires
            offset >= 0,
        ensures
            match position {
                Ok(position) => self.handlers().contains_key(fh.index) && position == offset,
                Err(kind) => kind == HostErrorKind::NotFound && !self.handlers().contains_key(
                    fh.index,
                ),
            },
    {
        match self.lookup_file_handler_result(fh) {
            Ok(_) => Ok(offset as u64),
            Err(kind) => Err(kind),
        }
    }

    /// Notes where the cursor of the open file `fh` stands after a seek, a
    /// read or a write. Nothing is noted for a handle that is not open.
    pub fn record_offset(&mut self, fh: IFileHandle, position: u64)
        requires
            old(self).wf(),
            position <= i64::MAX,
        ensures
            final(self).wf(),
            final(self).same_but_handles(old(self)),
            old(self).root_bound() ==> final(self).root_bound(),
            final(self).last_handle() == old(self).last_handle(),
            final(self).open_handles() == old(self).open_handles(),
            final(self).handlers() == (if old(self).handlers().contains_key(fh.index) {
                old(self).handlers().insert(
                    fh.index,
                    FileHandler { offset: position as i64, ..old(self).handlers()[fh.index] },
                )
            } else {
                old(self).handlers()
            }),
    {
        match self.lookup_file_handler_result(fh) {
            Ok(handler) => {
                let mut handler = handler;
                handler.seeked(position);
                fx_insert(&mut self.file_handlers_map, fh.index, handler);
                proof {
                    self.lemma_kept(old(self));
                    assert forall|i: u64| #[trigger] self.handles_of(i)
                        == old(self).handles_of(i) by {}
                    assert forall|handle: u64| #[trigger]
                        self.handlers().contains_key(handle) implies self.handles_of(
                        self.handlers()[handle].ino.inode,
                    ).contains(handle) && handle <= self.last_handle() by {
                        assert(old(self).handlers().contains_key(handle));
                    }
                    assert forall|i: u64, k: int|
                        0 <= k < self.handles_of(i).len() implies self.handlers().contains_key(
                        #[trigger] self.handles_of(i)[k],
                    ) && self.handlers()[self.handles_of(i)[k]].ino.inode == i by {
                        assert(old(self).handlers().contains_key(old(self).handles_of(i)[k]));
                    }
                }
            },
            Err(_) => {
                proof {
                    self.lemma_kept(old(self));
                }
            },
        }
    }

    /// Prepares renaming the entry `name` of `parent` to the entry
    /// `new_name` of `new_parent`: both paths, and of `flags` those that the
    /// host's rename knows. Once the host has renamed, [`Self::rename_ino`]
    /// moves the inode.
    pub fn rename_fs(
        &self,
        parent: INode,
        name: &Vec<u8>,
        new_parent: INode,
        new_name: &Vec<u8>,
        flags: u32,
    ) -> (plan: Result<RenamePlan, HostErrorKind>)
        ensures
            match plan {
                Ok(plan) => {
                    &&& self.paths().contains_key(parent.inode)
                    &&& self.paths().contains_key(new_parent.inode)
                    &&& plan.from@ == join_spec(self.paths()[parent.inode], name@)
                    &&& plan.to@ == join_spec(self.paths()[new_parent.inode], new_name@)
                    &&& plan.flags == flags & (RENAME_NOREPLACE | RENAME_EXCHANGE
                        | RENAME_WHITEOUT)
                },
                Err(kind) => kind == HostErrorKind::NotFound && !(self.paths().contains_key(
                    parent.inode,
                ) && self.paths().contains_key(new_parent.inode)),
            },
    {
        let from = match self.parent_name_lookup_result(parent, name) {
            Ok(from) => from,
            Err(kind) => {
                return Err(kind);
            },
        };
        let to = match self.parent_name_lookup_result(new_parent, new_name) {
            Ok(to) => to,
            Err(kind) => {
                return Err(kind);
            },
        };
        Ok(RenamePlan { from, to, flags: known_rename_flags(flags) })
    }
}

impl NimbusFS {
    /// The registry is a bijection: an inode stands for a path exactly if
    /// the path stands for the inode.
    pub proof fn lemma_registry_bijection(&self, ino: u64, path: Seq<u8>)
        requires
            self.wf(),
        ensures
            (self.paths().contains_key(ino) && self.paths()[ino] == path) <==> (
            self.inodes().contains_key(path) && self.inodes()[path] == ino),
    {
        if self.paths().contains_key(ino) && self.paths()[ino] == path {
            assert(self.inodes().contains_key(self.paths()[ino]));
        }
        if self.inodes().contains_key(path) && self.inodes()[path] == ino {
            assert(self.paths().contains_key(self.inodes()[path]));
        }
    }

    /// A handle is in the list of an inode exactly if its record names
    /// that inode.
    pub proof fn lemma_handle_sets(&self, ino: u64, handle: u64)
        requires
            self.wf(),
        ensures
            self.handles_of(ino).contains(handle) <==> (self.handlers().contains_key(handle)
                && self.handlers()[handle].ino.inode == ino),
    {
        if self.handles_of(ino).contains(handle) {
            let k = choose|k: int|
                0 <= k < self.handles_of(ino).len() && self.handles_of(ino)[k] == handle;
            assert(self.handlers().contains_key(self.handles_of(ino)[k]));
        }
    }

    /// Before the attributes of an inode are read, every file that is open
    /// on it is flushed: a list that names the handles of `ino` in order, as
    /// [`Self::getattr_plan`] and [`Self::lookup_fs`] give it, holds every
    /// handle whose record names `ino`, the buffered ones among them.
    pub proof fn lemma_flush_names_every_handle(
        &self,
        ino: u64,
        flush: Seq<IFileHandle>,
        handle: u64,
    )
        requires
            self.wf(),
            flush.len() == self.handles_of(ino).len(),
            forall|k: int|
                0 <= k < flush.len() ==> (#[trigger] flush[k]).index == self.handles_of(ino)[k],
            self.handlers().contains_key(handle),
            self.handlers()[handle].ino.inode == ino,
        ensures
            exists|k: int| 0 <= k < flush.len() && (#[trigger] flush[k]).index == handle,
    {
        self.lemma_handle_sets(ino, handle);
        let k = choose|k: int|
            0 <= k < self.handles_of(ino).len() && self.handles_of(ino)[k] == handle;
        assert(flush[k].index == handle);
    }

    /// Rename identity: once the inode of `old_path` has moved to
    /// `new_path`, the new path stands for that inode and, unless the two
    /// paths are one, the old path stands for none.
    pub proof fn lemma_rename_identity(&self, old_path: Seq<u8>, new_path: Seq<u8>)
        requires
            self.wf(),
            self.inodes().contains_key(old_path),
        ensures
            ({
                let ino = self.inodes()[old_path];
                let after = inodes_with(
                    self.paths().remove(ino),
                    self.inodes().remove(old_path),
                    ino,
                    new_path,
                );
                &&& after.contains_key(new_path)
                &&& after[new_path] == ino
                &&& old_path != new_path ==> !after.contains_key(old_path)
            }),
    {
    }

    /// A count is never below zero: one is taken back only from a count
    /// above zero, which is then one less, and counting up makes it one
    /// more.
    pub proof fn lemma_count_not_negative(&self, project: Seq<u8>)
        ensures
            self.refs_of(project) >= 0,
            self.refs_of(project) > 0 ==> self.change_after_dec(project).count
                == self.refs_of(project) - 1,
            self.refs_of(project) < u64::MAX ==> self.change_after_inc(project).count
                == self.refs_of(project) + 1,
    {
    }

    /// A handle is open once: the positions at which a list names it are
    /// one, and its record names the inode of that list, so that no other
    /// list names it.
    pub proof fn lemma_handle_open_once(&self, handle: u64, ino: u64, i: int, j: int)
        requires
            self.wf(),
            0 <= i < self.handles_of(ino).len(),
            0 <= j < self.handles_of(ino).len(),
            self.handles_of(ino)[i] == handle,
            self.handles_of(ino)[j] == handle,
        ensures
            i == j,
            self.handlers().contains_key(handle),
            self.handlers()[handle].ino.inode == ino,
    {
        assert(self.handles_of(ino).no_duplicates());
        assert(self.handlers().contains_key(self.handles_of(ino)[i]));
    }

    /// No open handle is newer than the one issued last, so the next one
    /// issued is newer than every open one.
    pub proof fn lemma_handles_issued(&self, handle: u64)
        requires
            self.wf(),
            self.handlers().contains_key(handle),
        ensures
            handle <= self.last_handle(),
    {
    }
}

} // verus!
