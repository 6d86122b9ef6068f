use nimbus::follower::{
    Follower, FollowerAction, ProcFailure, StopReason, PID_POLLING_INTERVAL_SECS,
};

fn b(text: &str) -> Vec<u8> {
    text.as_bytes().to_vec()
}

fn follower(retry_limit: u32) -> Follower {
    Follower::new(&b("/mnt"), b("p"), 4242, retry_limit)
}

#[test]
fn a_follower_starts_at_the_project_directory() {
    let f = follower(3);
    assert_eq!(f.pid, 4242);
    assert_eq!(f.project, b("p"));
    assert_eq!(f.project_directory, b("/mnt/p"));
    assert_eq!(f.incomplete_reads, 0);
    assert_eq!(f.retry_limit, 3);
    assert_eq!(PID_POLLING_INTERVAL_SECS, 1);
}

#[test]
fn a_large_process_number_wraps_as_the_host_does() {
    let f = Follower::new(&b("/mnt"), b("p"), u32::MAX, 0);
    assert_eq!(f.pid, -1);
}

#[test]
fn the_watch_begins_only_if_the_process_is_found() {
    let f = follower(3);
    assert_eq!(f.opened(None), FollowerAction::Poll);
    for failure in [
        ProcFailure::NotFound,
        ProcFailure::PermissionDenied,
        ProcFailure::Incomplete,
        ProcFailure::Io,
        ProcFailure::InternalError,
        ProcFailure::Other,
    ] {
        assert_eq!(f.opened(Some(failure)), FollowerAction::Stop(StopReason::Failed(failure)));
    }
}

#[test]
fn the_watch_goes_on_inside_the_project() {
    let mut f = follower(3);
    assert_eq!(f.observe(&Ok(b("/mnt/p"))), FollowerAction::Poll);
    assert_eq!(f.observe(&Ok(b("/mnt/p/src/deep"))), FollowerAction::Poll);
    assert_eq!(f.observe(&Ok(b("/mnt/p/"))), FollowerAction::Poll);
}

#[test]
fn the_watch_ends_when_the_process_leaves() {
    let mut f = follower(3);
    assert_eq!(f.observe(&Ok(b("/mnt/pq"))), FollowerAction::Stop(StopReason::LeftDirectory));
    assert_eq!(f.observe(&Ok(b("/mnt"))), FollowerAction::Stop(StopReason::LeftDirectory));
    assert_eq!(f.observe(&Ok(b("/home/user"))), FollowerAction::Stop(StopReason::LeftDirectory));
}

#[test]
fn the_watch_ends_on_failures() {
    let mut f = follower(3);
    for failure in [
        ProcFailure::NotFound,
        ProcFailure::PermissionDenied,
        ProcFailure::Io,
        ProcFailure::InternalError,
        ProcFailure::Other,
    ] {
        assert_eq!(f.observe(&Err(failure)), FollowerAction::Stop(StopReason::Failed(failure)));
    }
    assert_eq!(f.incomplete_reads, 0);
}

#[test]
fn readings_cut_short_are_retried_up_to_the_limit() {
    let mut f = follower(2);
    let short = Err(ProcFailure::Incomplete);
    let gave_up = FollowerAction::Stop(StopReason::Failed(ProcFailure::Incomplete));
    assert_eq!(f.observe(&short), FollowerAction::Poll);
    assert_eq!(f.incomplete_reads, 1);
    assert_eq!(f.observe(&short), FollowerAction::Poll);
    assert_eq!(f.incomplete_reads, 2);
    assert_eq!(f.observe(&short), gave_up);
    assert_eq!(f.incomplete_reads, 2);
}

#[test]
fn a_complete_reading_starts_the_count_again() {
    let mut f = follower(1);
    let short = Err(ProcFailure::Incomplete);
    assert_eq!(f.observe(&short), FollowerAction::Poll);
    assert_eq!(f.observe(&Ok(b("/mnt/p"))), FollowerAction::Poll);
    assert_eq!(f.incomplete_reads, 0);
    assert_eq!(f.observe(&short), FollowerAction::Poll);
    assert_eq!(
        f.observe(&short),
        FollowerAction::Stop(StopReason::Failed(ProcFailure::Incomplete))
    );
}

#[test]
fn without_retries_the_first_short_reading_ends_the_watch() {
    let mut f = follower(0);
    assert_eq!(
        f.observe(&Err(ProcFailure::Incomplete)),
        FollowerAction::Stop(StopReason::Failed(ProcFailure::Incomplete))
    );
}
