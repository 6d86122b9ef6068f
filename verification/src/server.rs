//! The answers of the lock service.
//!
//! Peers ask over HTTP for the lock on a project or on the index. What is
//! here decides each request against the index and names the answer; the
//! listener that receives the request and sends the answer is the caller's.
//!
//! A peer never gets a lock that this machine holds, and never frees one:
//! both requests fail. In every other state a peer's request follows the
//! rules of the index.

use vstd::prelude::*;
use vstd::utf8::encode_utf8;
use crate::index::{
    acquire_succeeds, release_succeeds, state_after_acquire, state_after_release, Index,
    LockState, LockStatus,
};
use crate::path::{components, first_normal, first_normal_part, split_components, views};

verus! {

/// The byte that opens an escape in a URL.
pub const PERCENT: u8 = 37;

/// The value of a hexadecimal digit.
pub open spec fn hex_value(digit: u8) -> Option<u8> {
    if 48 <= digit <= 57 {
        Some((digit - 48) as u8)
    } else if 97 <= digit <= 102 {
        Some((digit - 87) as u8)
    } else if 65 <= digit <= 70 {
        Some((digit - 55) as u8)
    } else {
        None
    }
}

/// Whether `text` begins with an escape: a percent sign and two
/// hexadecimal digits.
pub open spec fn begins_with_escape(text: Seq<u8>) -> bool {
    &&& text.len() >= 3
    &&& text[0] == PERCENT
    &&& hex_value(text[1]) is Some
    &&& hex_value(text[2]) is Some
}

/// `text` with each escape replaced by the byte that it stands for. A
/// percent sign that opens no escape stays.
pub open spec fn unescaped(text: Seq<u8>) -> Seq<u8>
    decreases text.len(),
{
    if text.len() == 0 {
        Seq::empty()
    } else if begins_with_escape(text) {
        seq![(hex_value(text[1]).unwrap() * 16 + hex_value(text[2]).unwrap()) as u8] + unescaped(
            text.skip(3),
        )
    } else {
        seq![text[0]] + unescaped(text.skip(1))
    }
}

/// The project that a request names: the first ordinary name in what the
/// request holds once its escapes are resolved. A request that holds no such
/// name names no project.
pub open spec fn requested_project(project_name: Seq<char>) -> Option<Seq<u8>> {
    first_normal(components(unescaped(encode_utf8(project_name))))
}

/// Whether a peer's request for a slot in state `state` succeeds: the slot
/// is free, or the peer holds it already.
pub open spec fn peer_acquire_succeeds(state: LockState, machine: Seq<char>) -> bool {
    match state {
        LockState::WeHave(_) => false,
        LockState::SomeoneHas(holder) => holder == machine,
        LockState::Nobody => true,
    }
}

/// Whether a peer's request to give up a slot in state `state` succeeds:
/// only the peer that holds the slot can free it.
pub open spec fn peer_release_succeeds(state: LockState, machine: Seq<char>) -> bool {
    match state {
        LockState::SomeoneHas(holder) => holder == machine,
        _ => false,
    }
}

/// The state of a slot after a peer asked to give it up.
pub open spec fn state_after_peer_release(state: LockState, machine: Seq<char>) -> LockState {
    if peer_release_succeeds(state, machine) {
        LockState::Nobody
    } else {
        state
    }
}

/// The answer to a request to acquire.
pub open spec fn acquire_reply(succeeded: bool) -> Seq<char> {
    if succeeded {
        "acquired"@
    } else {
        "fail"@
    }
}

/// The answer to a request to release.
pub open spec fn release_reply(succeeded: bool) -> Seq<char> {
    if succeeded {
        "released"@
    } else {
        "fail"@
    }
}

fn hex_digit(digit: u8) -> (value: Option<u8>)
    ensures
        value == hex_value(digit),
{
    if 48 <= digit && digit <= 57 {
        Some(digit - 48)
    } else if 97 <= digit && digit <= 102 {
        Some(digit - 87)
    } else if 65 <= digit && digit <= 70 {
        Some(digit - 55)
    } else {
        None
    }
}

/// Resolves the escapes of a piece of a URL.
pub fn url_unescape(text: &[u8]) -> (plain: Vec<u8>)
    ensures
        plain@ == unescaped(text@),
{
    let n = text.len();
    let mut plain: Vec<u8> = Vec::new();
    let mut pos: usize = 0;
    proof {
        assert(text@.skip(0) == text@);
        assert(Seq::<u8>::empty() + unescaped(text@) == unescaped(text@));
    }
    while pos < n
        invariant
            n == text.len(),
            pos <= n,
            unescaped(text@) == plain@ + unescaped(text@.skip(pos as int)),
        decreases n - pos,
    {
        let ghost rest = text@.skip(pos as int);
        let ghost before = plain@;
        let mut step: usize = 1;
        let mut byte: u8 = text[pos];
        proof {
            assert(rest[0] == text@[pos as int]);
        }
        if byte == PERCENT && n - pos >= 3 {
            proof {
                assert(rest[1] == text@[pos + 1]);
                assert(rest[2] == text@[pos + 2]);
            }
            match (hex_digit(text[pos + 1]), hex_digit(text[pos + 2])) {
                (Some(high), Some(low)) => {
                    byte = high * 16 + low;
                    step = 3;
                },
                _ => {},
            }
        }
        plain.push(byte);
        proof {
            assert(rest.skip(step as int) == text@.skip(pos + step));
            assert(unescaped(rest) == seq![byte] + unescaped(rest.skip(step as int)));
            assert(before + (seq![byte] + unescaped(rest.skip(step as int))) == before.push(byte)
                + unescaped(rest.skip(step as int)));
        }
        pos += step;
    }
    proof {
        assert(text@.skip(n as int).len() == 0);
        assert(plain@ + Seq::<u8>::empty() == plain@);
    }
    plain
}

/// The project that a request names, if it names one.
pub fn request_project(project_name: &String) -> (project: Option<Vec<u8>>)
    ensures
        match project {
            Some(name) => requested_project(project_name@) == Some(name@),
            None => requested_project(project_name@) is None,
        },
{
    let plain = url_unescape(project_name.as_str().as_bytes());
    let parts = split_components(&plain);
    proof {
        assert(views(parts@).skip(0) == views(parts@));
    }
    first_normal_part(&parts, 0)
}

/// Answers a peer that asks for the lock on a project: `acquired` where
/// the lock is free or the peer's already, `fail` otherwise.
///
/// The request must name a project that the index knows.
pub fn acquire_project_lock(index: &mut Index, machine_name: String, project_name: String)
    -> (reply:
    &'static str)
    requires
        old(index).wf(),
        requested_project(project_name@) is Some,
        old(index)@.project_lock.contains_key(requested_project(project_name@).unwrap()),
    ensures
        final(index).wf(),
        reply@ == acquire_reply(
            peer_acquire_succeeds(
                old(index)@.project_lock[requested_project(project_name@).unwrap()],
                machine_name@,
            ),
        ),
        final(index)@.project_lock == old(index)@.project_lock.insert(
            requested_project(project_name@).unwrap(),
            state_after_acquire(
                old(index)@.project_lock[requested_project(project_name@).unwrap()],
                machine_name@,
            ),
        ),
        final(index)@.index_lock == old(index)@.index_lock,
{
    let project = request_project(&project_name).unwrap();
    let status = index.project_status(&project).unwrap();
    proof {
        assert(index@.project_lock.insert(project@, index@.project_lock[project@])
            =~= index@.project_lock);
    }
    match status {
        LockStatus::WeHaveLock(_) => "fail",
        LockStatus::SomeoneHasLock(holder) => {
            if holder == machine_name {
                "acquired"
            } else {
                "fail"
            }
        },
        LockStatus::NobodyHasLock => {
            index.insert_project(project, LockStatus::SomeoneHasLock(machine_name));
            "acquired"
        },
    }
}

/// Answers a peer that gives up the lock on a project: `released` where
/// the peer held the lock, which is then free; `fail` otherwise.
///
/// The request must name a project that the index knows.
pub fn update_and_release_project_lock(
    index: &mut Index,
    machine_name: String,
    project_name: String,
) -> (reply: &'static str)
    requires
        old(index).wf(),
        requested_project(project_name@) is Some,
        old(index)@.project_lock.contains_key(requested_project(project_name@).unwrap()),
    ensures
        final(index).wf(),
        reply@ == release_reply(
            peer_release_succeeds(
                old(index)@.project_lock[requested_project(project_name@).unwrap()],
                machine_name@,
            ),
        ),
        final(index)@.project_lock == old(index)@.project_lock.insert(
            requested_project(project_name@).unwrap(),
            state_after_peer_release(
                old(index)@.project_lock[requested_project(project_name@).unwrap()],
                machine_name@,
            ),
        ),
        final(index)@.index_lock == old(index)@.index_lock,
{
    let project = request_project(&project_name).unwrap();
    let status = index.project_status(&project).unwrap();
    proof {
        assert(index@.project_lock.insert(project@, index@.project_lock[project@])
            =~= index@.project_lock);
    }
    match status {
        LockStatus::SomeoneHasLock(holder) => {
            if holder == machine_name {
                index.insert_project(project, LockStatus::NobodyHasLock);
                "released"
            } else {
                "fail"
            }
        },
        _ => "fail",
    }
}

/// Answers a peer that asks for the lock on the index.
pub fn acquire_index_lock(index: &mut Index, machine_name: String) -> (reply: &'static str)
    ensures
        reply@ == acquire_reply(peer_acquire_succeeds(old(index)@.index_lock, machine_name@)),
        final(index)@.index_lock == state_after_acquire(old(index)@.index_lock, machine_name@),
        final(index).project_lock == old(index).project_lock,
{
    match &index.index_lock {
        LockStatus::WeHaveLock(_) => "fail",
        LockStatus::SomeoneHasLock(holder) => {
            if *holder == machine_name {
                "acquired"
            } else {
                "fail"
            }
        },
        LockStatus::NobodyHasLock => {
            index.index_lock = LockStatus::SomeoneHasLock(machine_name);
            "acquired"
        },
    }
}

/// Answers a peer that gives up the lock on the index.
pub fn update_and_release_index_lock(index: &mut Index, machine_name: String) -> (reply:
    &'static str)
    ensures
        reply@ == release_reply(peer_release_succeeds(old(index)@.index_lock, machine_name@)),
        final(index)@.index_lock == state_after_peer_release(
            old(index)@.index_lock,
            machine_name@,
        ),
        final(index).project_lock == old(index).project_lock,
{
    match &index.index_lock {
        LockStatus::SomeoneHasLock(holder) => {
            if *holder == machine_name {
                index.index_lock = LockStatus::NobodyHasLock;
                "released"
            } else {
                "fail"
            }
        },
        _ => "fail",
    }
}

/// What a peer asks of the lock service.
#[derive(Debug, PartialEq, Eq)]
pub enum LockRequest {
    /// The lock on a project, for a machine.
    AcquireProject { machine: String, project: String },
    /// The release of the lock on a project, for a machine.
    ReleaseProject { machine: String, project: String },
    /// The lock on the index, for a machine.
    AcquireIndex { machine: String },
    /// The release of the lock on the index, for a machine.
    ReleaseIndex { machine: String },
}

/// A request, with names as sequences of characters.
pub enum LockRequestView {
    AcquireProject { machine: Seq<char>, project: Seq<char> },
    ReleaseProject { machine: Seq<char>, project: Seq<char> },
    AcquireIndex { machine: Seq<char> },
    ReleaseIndex { machine: Seq<char> },
}

impl View for LockRequest {
    type V = LockRequestView;

    open spec fn view(&self) -> LockRequestView {
        match self {
            LockRequest::AcquireProject { machine, project } => LockRequestView::AcquireProject {
                machine: machine@,
                project: project@,
            },
            LockRequest::ReleaseProject { machine, project } => LockRequestView::ReleaseProject {
                machine: machine@,
                project: project@,
            },
            LockRequest::AcquireIndex { machine } => LockRequestView::AcquireIndex {
                machine: machine@,
            },
            LockRequest::ReleaseIndex { machine } => LockRequestView::ReleaseIndex {
                machine: machine@,
            },
        }
    }
}

/// The number of characters in front of the first slash of `path`; the
/// length of `path` where it holds no slash.
pub open spec fn first_slash(path: Seq<char>) -> int
    decreases path.len(),
{
    if path.len() == 0 || path[0] == '/' {
        0
    } else {
        1 + first_slash(path.subrange(1, path.len() as int))
    }
}

/// The pieces into which the slashes cut `path`, empty ones too: one more
/// than there are slashes.
pub open spec fn pieces(path: Seq<char>) -> Seq<Seq<char>>
    decreases path.len(),
{
    let cut = first_slash(path);
    if 0 <= cut < path.len() {
        seq![path.subrange(0, cut)] + pieces(path.subrange(cut + 1, path.len() as int))
    } else {
        seq![path]
    }
}

/// The segments of the path of a request: the pieces behind the slash
/// that the path begins with, without the last piece where that is empty,
/// so that a path may end with one slash.
pub open spec fn route_segments(path: Seq<char>) -> Seq<Seq<char>> {
    let start: int = if path.len() > 0 && path[0] == '/' {
        1
    } else {
        0
    };
    let all = pieces(path.subrange(start, path.len() as int));
    if all.last().len() == 0 {
        all.drop_last()
    } else {
        all
    }
}

/// The request that a path stands for:
///
/// - `/lock/acquire/{machine}/{project}`
/// - `/lock/release/{machine}/{project}`
/// - `/index/lock/acquire/{machine}`
/// - `/index/lock/release/{machine}`
///
/// where a name in braces is any segment that is not empty. Every other
/// path stands for none.
pub open spec fn routed(path: Seq<char>) -> Option<LockRequestView> {
    let segments = route_segments(path);
    if segments.len() != 4 || segments[3].len() == 0 {
        None
    } else if segments[0] == "lock"@ && segments[1] == "acquire"@ && segments[2].len() > 0 {
        Some(LockRequestView::AcquireProject { machine: segments[2], project: segments[3] })
    } else if segments[0] == "lock"@ && segments[1] == "release"@ && segments[2].len() > 0 {
        Some(LockRequestView::ReleaseProject { machine: segments[2], project: segments[3] })
    } else if segments[0] == "index"@ && segments[1] == "lock"@ && segments[2] == "acquire"@ {
        Some(LockRequestView::AcquireIndex { machine: segments[3] })
    } else if segments[0] == "index"@ && segments[1] == "lock"@ && segments[2] == "release"@ {
        Some(LockRequestView::ReleaseIndex { machine: segments[3] })
    } else {
        None
    }
}

/// The views of a list of strings.
pub open spec fn texts(parts: Seq<String>) -> Seq<Seq<char>> {
    parts.map_values(|part: String| part@)
}

/// `first_slash` is the position of the first slash.
pub proof fn lemma_first_slash(path: Seq<char>, cut: int)
    requires
        0 <= cut <= path.len(),
        forall|k: int| 0 <= k < cut ==> path[k] != '/',
        cut < path.len() ==> path[cut] == '/',
    ensures
        first_slash(path) == cut,
    decreases path.len(),
{
    if path.len() == 0 || path[0] == '/' {
    } else {
        let tail = path.subrange(1, path.len() as int);
        assert forall|k: int| 0 <= k < cut - 1 implies tail[k] != '/' by {
            assert(tail[k] == path[k + 1]);
        }
        lemma_first_slash(tail, cut - 1);
    }
}

/// The segments of the path of a request.
pub fn split_route(path: &str) -> (parts: Vec<String>)
    ensures
        texts(parts@) == route_segments(path@),
{
    let n = path.unicode_len();
    let start: usize = if n > 0 && path.get_char(0) == '/' {
        1
    } else {
        0
    };
    let ghost all = pieces(path@.subrange(start as int, n as int));
    let mut parts: Vec<String> = Vec::new();
    let mut pos: usize = start;
    let mut done = false;
    proof {
        assert(texts(parts@) == Seq::<Seq<char>>::empty());
        assert(Seq::<Seq<char>>::empty() + all == all);
    }
    while !done
        invariant
            n == path@.len(),
            start <= pos <= n,
            start == (if path@.len() > 0 && path@[0] == '/' {
                1int
            } else {
                0int
            }),
            all == pieces(path@.subrange(start as int, n as int)),
            !done ==> all == texts(parts@) + pieces(path@.subrange(pos as int, n as int)),
            done ==> texts(parts@) == route_segments(path@),
        decreases n - pos + (if done { 0int } else { 1int }),
    {
        let mut end: usize = pos;
        while end < n && path.get_char(end) != '/'
            invariant
                n == path@.len(),
                pos <= end <= n,
                forall|k: int| pos <= k < end ==> path@[k] != '/',
            decreases n - end,
        {
            end += 1;
        }
        let ghost suffix = path@.subrange(pos as int, n as int);
        let ghost before = texts(parts@);
        proof {
            assert forall|k: int| 0 <= k < end - pos implies suffix[k] != '/' by {
                assert(suffix[k] == path@[pos + k]);
            }
            lemma_first_slash(suffix, end - pos);
        }
        if end == n {
            proof {
                assert(pieces(suffix) == seq![suffix]);
                assert(all == before + seq![suffix]);
                assert(all.last() == suffix);
                assert(all.drop_last() == before);
            }
            if end > pos {
                let piece = String::from_str(path.substring_char(pos, end));
                parts.push(piece);
                proof {
                    assert(texts(parts@) == before.push(suffix));
                    assert(before.push(suffix) == before + seq![suffix]);
                }
            }
            done = true;
        } else {
            let piece = String::from_str(path.substring_char(pos, end));
            parts.push(piece);
            proof {
                let head = suffix.subrange(0, end - pos);
                let rest = suffix.subrange(end - pos + 1, suffix.len() as int);
                assert(head == path@.subrange(pos as int, end as int));
                assert(rest == path@.subrange(end + 1, n as int));
                assert(pieces(suffix) == seq![head] + pieces(rest));
                assert(texts(parts@) == before.push(head));
                assert(before.push(head) == before + seq![head]);
                assert(before + (seq![head] + pieces(rest)) == (before + seq![head]) + pieces(
                    rest,
                ));
            }
            pos = end + 1;
        }
    }
    parts
}

/// The request that a path stands for, if it stands for one.
pub fn route(path: &str) -> (request: Option<LockRequest>)
    ensures
        match request {
            Some(request) => routed(path@) == Some(request@),
            None => routed(path@) is None,
        },
{
    let parts = split_route(path);
    proof {
        assert(texts(parts@).len() == parts.len());
    }
    if parts.len() != 4 {
        return None;
    }
    proof {
        assert(texts(parts@)[0] == parts@[0]@);
        assert(texts(parts@)[1] == parts@[1]@);
        assert(texts(parts@)[2] == parts@[2]@);
        assert(texts(parts@)[3] == parts@[3]@);
    }
    if parts[3].as_str().unicode_len() == 0 {
        return None;
    }
    let lock = String::from_str("lock");
    let index = String::from_str("index");
    let acquire = String::from_str("acquire");
    let release = String::from_str("release");
    if parts[0] == lock && parts[1] == acquire && parts[2].as_str().unicode_len() > 0 {
        Some(LockRequest::AcquireProject { machine: parts[2].clone(), project: parts[3].clone() })
    } else if parts[0] == lock && parts[1] == release && parts[2].as_str().unicode_len() > 0 {
        Some(LockRequest::ReleaseProject { machine: parts[2].clone(), project: parts[3].clone() })
    } else if parts[0] == index && parts[1] == lock && parts[2] == acquire {
        Some(LockRequest::AcquireIndex { machine: parts[3].clone() })
    } else if parts[0] == index && parts[1] == lock && parts[2] == release {
        Some(LockRequest::ReleaseIndex { machine: parts[3].clone() })
    } else {
        None
    }
}

impl LockRequest {
    /// Whether the request can be answered from `index`: a request for a
    /// project has to name one that the index knows.
    pub open spec fn answerable(self, index: Index) -> bool {
        match self {
            LockRequest::AcquireProject { project, .. } => requested_project(project@) is Some
                && index@.project_lock.contains_key(requested_project(project@).unwrap()),
            LockRequest::ReleaseProject { project, .. } => requested_project(project@) is Some
                && index@.project_lock.contains_key(requested_project(project@).unwrap()),
            _ => true,
        }
    }

    /// Whether the request can be answered from `index`.
    pub fn is_answerable(&self, index: &Index) -> (answerable: bool)
        requires
            index.wf(),
        ensures
            answerable == self.answerable(*index),
    {
        match self {
            LockRequest::AcquireProject { project, .. } => match request_project(project) {
                Some(project) => index.contains_project(&project),
                None => false,
            },
            LockRequest::ReleaseProject { project, .. } => match request_project(project) {
                Some(project) => index.contains_project(&project),
                None => false,
            },
            _ => true,
        }
    }
}

/// Answers a peer's request from the index: a request to acquire with
/// `acquired` or `fail`, a request to release with `released` or `fail`.
pub fn serve(index: &mut Index, request: LockRequest) -> (reply: &'static str)
    requires
        old(index).wf(),
        request.answerable(*old(index)),
    ensures
        final(index).wf(),
        match request {
            LockRequest::AcquireProject { machine, project } => {
                let name = requested_project(project@).unwrap();
                let state = old(index)@.project_lock[name];
                &&& reply@ == acquire_reply(peer_acquire_succeeds(state, machine@))
                &&& final(index)@.project_lock == old(index)@.project_lock.insert(
                    name,
                    state_after_acquire(state, machine@),
                )
                &&& final(index)@.index_lock == old(index)@.index_lock
            },
            LockRequest::ReleaseProject { machine, project } => {
                let name = requested_project(project@).unwrap();
                let state = old(index)@.project_lock[name];
                &&& reply@ == release_reply(peer_release_succeeds(state, machine@))
                &&& final(index)@.project_lock == old(index)@.project_lock.insert(
                    name,
                    state_after_peer_release(state, machine@),
                )
                &&& final(index)@.index_lock == old(index)@.index_lock
            },
            LockRequest::AcquireIndex { machine } => {
                let state = old(index)@.index_lock;
                &&& reply@ == acquire_reply(peer_acquire_succeeds(state, machine@))
                &&& final(index)@.index_lock == state_after_acquire(state, machine@)
                &&& final(index)@.project_lock == old(index)@.project_lock
            },
            LockRequest::ReleaseIndex { machine } => {
                let state = old(index)@.index_lock;
                &&& reply@ == release_reply(peer_release_succeeds(state, machine@))
                &&& final(index)@.index_lock == state_after_peer_release(state, machine@)
                &&& final(index)@.project_lock == old(index)@.project_lock
            },
        },
{
    match request {
        LockRequest::AcquireProject { machine, project } => acquire_project_lock(
            index,
            machine,
            project,
        ),
        LockRequest::ReleaseProject { machine, project } => update_and_release_project_lock(
            index,
            machine,
            project,
        ),
        LockRequest::AcquireIndex { machine } => acquire_index_lock(index, machine),
        LockRequest::ReleaseIndex { machine } => update_and_release_index_lock(index, machine),
    }
}

/// A request against one lock slot: by a peer through the service, or by
/// this machine through the index, each in the name of a machine.
pub enum SlotRequest {
    PeerAcquire(Seq<char>),
    PeerRelease(Seq<char>),
    LocalAcquire(Seq<char>),
    LocalRelease(Seq<char>),
}

impl SlotRequest {
    /// Whether the request, made against a slot in state `state`, succeeds.
    pub open spec fn succeeds(self, state: LockState) -> bool {
        match self {
            SlotRequest::PeerAcquire(machine) => peer_acquire_succeeds(state, machine),
            SlotRequest::PeerRelease(machine) => peer_release_succeeds(state, machine),
            SlotRequest::LocalAcquire(machine) => acquire_succeeds(state, machine),
            SlotRequest::LocalRelease(machine) => release_succeeds(state, machine),
        }
    }

    /// The state in which the request leaves a slot that was in state
    /// `state`.
    pub open spec fn state_after(self, state: LockState) -> LockState {
        match self {
            SlotRequest::PeerAcquire(machine) => state_after_acquire(state, machine),
            SlotRequest::PeerRelease(machine) => state_after_peer_release(state, machine),
            SlotRequest::LocalAcquire(machine) => state_after_acquire(state, machine),
            SlotRequest::LocalRelease(machine) => state_after_release(state, machine),
        }
    }

    /// Whether the request is a release in the name of `machine`.
    pub open spec fn releases_for(self, machine: Seq<char>) -> bool {
        match self {
            SlotRequest::PeerRelease(name) => name == machine,
            SlotRequest::LocalRelease(name) => name == machine,
            _ => false,
        }
    }

    /// Whether the request is an acquire in a name other than `machine`.
    pub open spec fn acquires_against(self, machine: Seq<char>) -> bool {
        match self {
            SlotRequest::PeerAcquire(name) => name != machine,
            SlotRequest::LocalAcquire(name) => name != machine,
            _ => false,
        }
    }
}

/// The state of a slot after a run of requests, made one after the other.
pub open spec fn state_after_requests(state: LockState, requests: Seq<SlotRequest>) -> LockState
    decreases requests.len(),
{
    if requests.len() == 0 {
        state
    } else {
        requests.last().state_after(state_after_requests(state, requests.drop_last()))
    }
}

/// A slot that a peer holds stays that peer's through every run of
/// requests in which nobody releases in the peer's name.
pub proof fn lemma_holder_stays(machine: Seq<char>, requests: Seq<SlotRequest>)
    requires
        forall|i: int| 0 <= i < requests.len() ==> !(#[trigger] requests[i]).releases_for(machine),
    ensures
        state_after_requests(LockState::SomeoneHas(machine), requests) == LockState::SomeoneHas(
            machine,
        ),
    decreases requests.len(),
{
    if requests.len() > 0 {
        let earlier = requests.drop_last();
        assert forall|i: int| 0 <= i < earlier.len() implies !(#[trigger] earlier[i]).releases_for(
            machine,
        ) by {
            assert(earlier[i] == requests[i]);
        }
        lemma_holder_stays(machine, earlier);
        assert(!requests[requests.len() - 1].releases_for(machine));
    }
}

/// Mutual exclusion. Once the service has told a peer `acquired` for a
/// slot, every request to acquire the slot in another machine's name fails,
/// whether it comes from a peer or from this machine, until somebody
/// releases the slot in the first peer's name.
pub proof fn lemma_mutual_exclusion(
    state: LockState,
    machine: Seq<char>,
    requests: Seq<SlotRequest>,
    rival: SlotRequest,
)
    requires
        peer_acquire_succeeds(state, machine),
        forall|i: int| 0 <= i < requests.len() ==> !(#[trigger] requests[i]).releases_for(machine),
        rival.acquires_against(machine),
    ensures
        !rival.succeeds(
            state_after_requests(state_after_acquire(state, machine), requests),
        ),
{
    lemma_holder_stays(machine, requests);
}

} // verus!
