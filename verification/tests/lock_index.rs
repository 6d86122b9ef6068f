use nimbus::index::{acquire_project_lock, Index, LockStatus};

fn name(text: &str) -> String {
    text.to_string()
}

fn project(text: &str) -> Vec<u8> {
    text.as_bytes().to_vec()
}

#[test]
fn a_new_index_knows_no_project_and_is_unlocked() {
    let index = Index::new();
    assert!(index.project_lock.is_empty());
    assert_eq!(index.index_lock, LockStatus::NobodyHasLock);
    assert!(!index.contains_project(&project("p")));
    assert_eq!(index.project_status(&project("p")), None);
}

#[test]
fn insert_project_adds_and_replaces() {
    let mut index = Index::new();
    assert_eq!(index.insert_project(project("p"), LockStatus::NobodyHasLock), None);
    assert_eq!(index.insert_project(project("q"), LockStatus::WeHaveLock(name("alpha"))), None);
    assert!(index.contains_project(&project("p")));
    assert!(index.contains_project(&project("q")));
    assert_eq!(
        index.insert_project(project("p"), LockStatus::SomeoneHasLock(name("beta"))),
        Some(LockStatus::NobodyHasLock)
    );
    assert_eq!(index.project_lock.len(), 2);
    assert_eq!(
        index.project_status(&project("p")),
        Some(LockStatus::SomeoneHasLock(name("beta")))
    );
    assert_eq!(
        index.project_status(&project("q")),
        Some(LockStatus::WeHaveLock(name("alpha")))
    );
}

#[test]
fn acquire_on_a_free_lock_gives_it_to_the_requester() {
    let mut index = Index::new();
    index.insert_project(project("p"), LockStatus::NobodyHasLock);
    assert!(index.acquire_project_lock(project("p"), name("alpha")));
    assert_eq!(
        index.project_status(&project("p")),
        Some(LockStatus::SomeoneHasLock(name("alpha")))
    );
}

#[test]
fn acquire_succeeds_where_we_hold_the_lock() {
    let mut index = Index::new();
    index.insert_project(project("p"), LockStatus::WeHaveLock(name("alpha")));
    assert!(index.acquire_project_lock(project("p"), name("alpha")));
    assert!(index.acquire_project_lock(project("p"), name("beta")));
    assert_eq!(
        index.project_status(&project("p")),
        Some(LockStatus::WeHaveLock(name("alpha")))
    );
}

#[test]
fn acquire_against_another_holder_fails() {
    let mut index = Index::new();
    index.insert_project(project("p"), LockStatus::SomeoneHasLock(name("alpha")));
    assert!(index.acquire_project_lock(project("p"), name("alpha")));
    assert!(!index.acquire_project_lock(project("p"), name("beta")));
    assert_eq!(
        index.project_status(&project("p")),
        Some(LockStatus::SomeoneHasLock(name("alpha")))
    );
}

#[test]
fn release_frees_a_held_lock() {
    let mut index = Index::new();
    index.insert_project(project("p"), LockStatus::WeHaveLock(name("alpha")));
    index.insert_project(project("q"), LockStatus::SomeoneHasLock(name("beta")));
    assert!(index.release_project_lock(project("p"), name("gamma")));
    assert_eq!(index.project_status(&project("p")), Some(LockStatus::NobodyHasLock));
    assert!(!index.release_project_lock(project("q"), name("alpha")));
    assert_eq!(
        index.project_status(&project("q")),
        Some(LockStatus::SomeoneHasLock(name("beta")))
    );
    assert!(index.release_project_lock(project("q"), name("beta")));
    assert_eq!(index.project_status(&project("q")), Some(LockStatus::NobodyHasLock));
}

#[test]
fn release_of_a_free_lock_is_refused() {
    let mut index = Index::new();
    index.insert_project(project("p"), LockStatus::NobodyHasLock);
    assert!(!index.release_project_lock(project("p"), name("alpha")));
    assert_eq!(index.project_status(&project("p")), Some(LockStatus::NobodyHasLock));
}

#[test]
fn one_project_does_not_touch_another() {
    let mut index = Index::new();
    index.insert_project(project("p"), LockStatus::NobodyHasLock);
    index.insert_project(project("q"), LockStatus::NobodyHasLock);
    assert!(index.acquire_project_lock(project("q"), name("alpha")));
    assert_eq!(index.project_status(&project("p")), Some(LockStatus::NobodyHasLock));
    assert!(index.acquire_project_lock(project("p"), name("beta")));
    assert_eq!(
        index.project_status(&project("q")),
        Some(LockStatus::SomeoneHasLock(name("alpha")))
    );
    assert_eq!(index.index_lock, LockStatus::NobodyHasLock);
}

#[test]
fn the_index_lock_follows_the_same_rules() {
    let mut index = Index::new();
    assert!(!index.release_index_lock(name("alpha")));
    assert!(index.acquire_index_lock(name("alpha")));
    assert_eq!(index.index_lock, LockStatus::SomeoneHasLock(name("alpha")));
    assert!(index.acquire_index_lock(name("alpha")));
    assert!(!index.acquire_index_lock(name("beta")));
    assert!(!index.release_index_lock(name("beta")));
    assert!(index.release_index_lock(name("alpha")));
    assert_eq!(index.index_lock, LockStatus::NobodyHasLock);
    index.index_lock = LockStatus::WeHaveLock(name("alpha"));
    assert!(index.acquire_index_lock(name("beta")));
    assert_eq!(index.index_lock, LockStatus::WeHaveLock(name("alpha")));
    assert!(index.release_index_lock(name("beta")));
    assert_eq!(index.index_lock, LockStatus::NobodyHasLock);
}

#[test]
fn the_free_function_acquires_like_the_method() {
    let mut index = Index::new();
    index.insert_project(project("p"), LockStatus::NobodyHasLock);
    assert!(acquire_project_lock(&mut index, project("p"), name("alpha")));
    assert!(!acquire_project_lock(&mut index, project("p"), name("beta")));
    assert!(acquire_project_lock(&mut index, project("p"), name("alpha")));
    assert_eq!(
        index.project_status(&project("p")),
        Some(LockStatus::SomeoneHasLock(name("alpha")))
    );
}

#[test]
fn no_second_machine_acquires_before_the_first_releases() {
    let mut index = Index::new();
    index.insert_project(project("p"), LockStatus::NobodyHasLock);
    assert!(index.acquire_project_lock(project("p"), name("alpha")));
    for rival in ["beta", "gamma", "delta"] {
        assert!(!index.acquire_project_lock(project("p"), name(rival)));
        assert!(!index.release_project_lock(project("p"), name(rival)));
    }
    assert!(index.release_project_lock(project("p"), name("alpha")));
    assert!(index.acquire_project_lock(project("p"), name("beta")));
}

#[test]
fn a_status_copies_itself() {
    let held = LockStatus::SomeoneHasLock(name("alpha"));
    assert_eq!(held.duplicate(), held);
    assert_eq!(LockStatus::NobodyHasLock.duplicate(), LockStatus::NobodyHasLock);
    assert_eq!(
        LockStatus::WeHaveLock(name("alpha")).duplicate(),
        LockStatus::WeHaveLock(name("alpha"))
    );
}
