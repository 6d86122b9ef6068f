//! Following a process to learn when it has left a project.
//!
//! A lookup below a project counts as activity in it for as long as the
//! process that made the lookup keeps its working directory inside the
//! project. The caller reads that directory at a fixed interval and hands
//! each reading to the follower, which says whether to go on.

use vstd::prelude::*;
use crate::index::CanonicalProjectName;
use crate::path::{join, join_spec, starts_with, starts_with_spec};

verus! {

/// Seconds between two readings of a process's working directory.
pub const PID_POLLING_INTERVAL_SECS: u64 = 1;

/// Why the host could not tell of a process.
#[derive(Clone, Copy, Debug, PartialEq, Eq, Structural)]
pub enum ProcFailure {
    /// The host refused to tell.
    PermissionDenied,
    /// There is no such process.
    NotFound,
    /// The host's record of the process was cut short.
    Incomplete,
    /// Reading the record failed.
    Io,
    /// The record could not be understood.
    InternalError,
    /// Any other failure.
    Other,
}

/// Why a follower stopped.
#[derive(Clone, Copy, Debug, PartialEq, Eq, Structural)]
pub enum StopReason {
    /// The process works outside the project now.
    LeftDirectory,
    /// The host could not tell of the process.
    Failed(ProcFailure),
}

/// What the caller does next.
#[derive(Clone, Copy, Debug, PartialEq, Eq, Structural)]
pub enum FollowerAction {
    /// Wait for the polling interval, read the working directory, and
    /// hand the reading to [`Follower::observe`].
    Poll,
    /// End the watch and take the project's reference back.
    Stop(StopReason),
}

/// The watch on one process for one project.
#[derive(Debug)]
pub struct Follower {
    /// The process, as the host numbers it.
    pub pid: i32,
    pub project: CanonicalProjectName,
    /// The project's directory below the mount point.
    pub project_directory: Vec<u8>,
    /// Readings that were cut short since the last complete one.
    pub incomplete_reads: u32,
    /// How many readings in a row may be cut short before the follower
    /// gives up.
    pub retry_limit: u32,
}

/// What follows the attempt to find the process: the watch begins if the
/// process was found, and ends on every failure.
pub open spec fn action_after_open(failure: Option<ProcFailure>) -> FollowerAction {
    match failure {
        None => FollowerAction::Poll,
        Some(failure) => FollowerAction::Stop(StopReason::Failed(failure)),
    }
}

/// What follows a reading of the working directory. The watch goes on
/// while the directory lies in the project, and through readings cut short
/// as long as fewer than `retry_limit` came in a row before; it ends on
/// everything else.
pub open spec fn action_after_reading(
    project_directory: Seq<u8>,
    incomplete_reads: u32,
    retry_limit: u32,
    reading: Result<Vec<u8>, ProcFailure>,
) -> FollowerAction {
    match reading {
        Ok(cwd) => if starts_with_spec(cwd@, project_directory) {
            FollowerAction::Poll
        } else {
            FollowerAction::Stop(StopReason::LeftDirectory)
        },
        Err(ProcFailure::Incomplete) => if incomplete_reads < retry_limit {
            FollowerAction::Poll
        } else {
            FollowerAction::Stop(StopReason::Failed(ProcFailure::Incomplete))
        },
        Err(failure) => FollowerAction::Stop(StopReason::Failed(failure)),
    }
}

/// The count of readings cut short in a row, after a reading.
pub open spec fn incomplete_reads_after(
    incomplete_reads: u32,
    retry_limit: u32,
    reading: Result<Vec<u8>, ProcFailure>,
) -> u32 {
    match reading {
        Ok(_) => 0,
        Err(ProcFailure::Incomplete) => if incomplete_reads < retry_limit {
            (incomplete_reads + 1) as u32
        } else {
            incomplete_reads
        },
        Err(_) => incomplete_reads,
    }
}

impl Follower {
    /// A follower of process `pid` for `project`, whose directory lies
    /// directly below `mount_directory`.
    pub fn new(
        mount_directory: &Vec<u8>,
        project: CanonicalProjectName,
        pid: u32,
        retry_limit: u32,
    ) -> (follower: Follower)
        ensures
            follower.pid == pid as i32,
            follower.project@ == project@,
            follower.project_directory@ == join_spec(mount_directory@, project@),
            follower.incomplete_reads == 0,
            follower.retry_limit == retry_limit,
    {
        let project_directory = join(mount_directory, &project);
        Follower { pid: pid as i32, project, project_directory, incomplete_reads: 0, retry_limit }
    }

    /// Takes the outcome of looking the process up, before any reading.
    pub fn opened(&self, failure: Option<ProcFailure>) -> (action: FollowerAction)
        ensures
            action == action_after_open(failure),
    {
        match failure {
            None => FollowerAction::Poll,
            Some(failure) => FollowerAction::Stop(StopReason::Failed(failure)),
        }
    }

    /// Takes one reading of the working directory and says how to go on.
    pub fn observe(&mut self, reading: &Result<Vec<u8>, ProcFailure>) -> (action: FollowerAction)
        ensures
            action == action_after_reading(
                old(self).project_directory@,
                old(self).incomplete_reads,
                old(self).retry_limit,
                *reading,
            ),
            final(self).incomplete_reads == incomplete_reads_after(
                old(self).incomplete_reads,
                old(self).retry_limit,
                *reading,
            ),
            final(self).pid == old(self).pid,
            final(self).project == old(self).project,
            final(self).project_directory == old(self).project_directory,
            final(self).retry_limit == old(self).retry_limit,
    {
        match reading {
            Ok(cwd) => {
                self.incomplete_reads = 0;
                if starts_with(cwd, &self.project_directory) {
                    FollowerAction::Poll
                } else {
                    FollowerAction::Stop(StopReason::LeftDirectory)
                }
            },
            Err(ProcFailure::Incomplete) => {
                if self.incomplete_reads < self.retry_limit {
                    self.incomplete_reads += 1;
                    FollowerAction::Poll
                } else {
                    FollowerAction::Stop(StopReason::Failed(ProcFailure::Incomplete))
                }
            },
            Err(failure) => FollowerAction::Stop(StopReason::Failed(*failure)),
        }
    }

    /// However long the host keeps cutting its readings short, the watch
    /// ends: each such reading either ends it or brings the count one closer
    /// to the limit, which ends it.
    pub proof fn lemma_short_readings_end(
        project_directory: Seq<u8>,
        incomplete_reads: u32,
        retry_limit: u32,
    )
        requires
            incomplete_reads <= retry_limit,
        ensures
            ({
                let reading = Err::<Vec<u8>, ProcFailure>(ProcFailure::Incomplete);
                let action = action_after_reading(
                    project_directory,
                    incomplete_reads,
                    retry_limit,
                    reading,
                );
                let after = incomplete_reads_after(incomplete_reads, retry_limit, reading);
                &&& after <= retry_limit
                &&& action == FollowerAction::Poll ==> retry_limit - after < retry_limit
                    - incomplete_reads
                &&& incomplete_reads == retry_limit ==> action == FollowerAction::Stop(
                    StopReason::Failed(ProcFailure::Incomplete),
                )
            }),
    {
    }
}

} // verus!
