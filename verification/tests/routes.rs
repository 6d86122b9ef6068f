use nimbus::index::{Index, LockStatus};
use nimbus::server::{route, serve, split_route, LockRequest};

fn s(text: &str) -> String {
    text.to_string()
}

#[test]
fn the_four_routes() {
    assert_eq!(
        route("/lock/acquire/alpha/p"),
        Some(LockRequest::AcquireProject { machine: s("alpha"), project: s("p") })
    );
    assert_eq!(
        route("/lock/release/alpha/p"),
        Some(LockRequest::ReleaseProject { machine: s("alpha"), project: s("p") })
    );
    assert_eq!(
        route("/index/lock/acquire/alpha"),
        Some(LockRequest::AcquireIndex { machine: s("alpha") })
    );
    assert_eq!(
        route("/index/lock/release/beta"),
        Some(LockRequest::ReleaseIndex { machine: s("beta") })
    );
}

#[test]
fn a_route_may_end_with_one_slash() {
    assert_eq!(
        route("/lock/acquire/alpha/p/"),
        Some(LockRequest::AcquireProject { machine: s("alpha"), project: s("p") })
    );
    assert_eq!(
        route("/index/lock/release/beta/"),
        Some(LockRequest::ReleaseIndex { machine: s("beta") })
    );
    assert_eq!(route("/lock/acquire/alpha/p//"), None);
}

#[test]
fn a_route_may_leave_the_first_slash_out() {
    assert_eq!(
        route("lock/release/alpha/p"),
        Some(LockRequest::ReleaseProject { machine: s("alpha"), project: s("p") })
    );
}

#[test]
fn names_are_taken_as_they_stand() {
    assert_eq!(
        route("/lock/acquire/m%C3%A4chine/my%20project"),
        Some(LockRequest::AcquireProject {
            machine: s("m%C3%A4chine"),
            project: s("my%20project")
        })
    );
    assert_eq!(
        route("/lock/acquire/mäch/prøject"),
        Some(LockRequest::AcquireProject { machine: s("mäch"), project: s("prøject") })
    );
    assert_eq!(
        route("/index/lock/acquire/lock"),
        Some(LockRequest::AcquireIndex { machine: s("lock") })
    );
    assert_eq!(
        route("/lock/acquire/acquire/release"),
        Some(LockRequest::AcquireProject { machine: s("acquire"), project: s("release") })
    );
}

#[test]
fn other_paths_stand_for_nothing() {
    for path in [
        "",
        "/",
        "/lock",
        "/lock/acquire",
        "/lock/acquire/alpha",
        "/lock/acquire/alpha/p/extra",
        "/lock/acquire//p",
        "/lock/acquire/alpha//",
        "/lock//acquire/alpha/p",
        "//lock/acquire/alpha/p",
        "/lock/steal/alpha/p",
        "/Lock/acquire/alpha/p",
        "/index/lock/acquire",
        "/index/lock/acquire/",
        "/index/lock/acquire/alpha/p",
        "/index/lock/steal/alpha",
        "/index/unlock/acquire/alpha",
        "/index/acquire/lock/alpha",
        "/locks/acquire/alpha/p",
    ] {
        assert_eq!(route(path), None, "{}", path);
    }
}

#[test]
fn segments_are_the_pieces_between_slashes() {
    assert_eq!(
        split_route("/lock/acquire/alpha/p"),
        vec![s("lock"), s("acquire"), s("alpha"), s("p")]
    );
    assert_eq!(split_route("/a//b"), vec![s("a"), s(""), s("b")]);
    assert_eq!(split_route("/a/b/"), vec![s("a"), s("b")]);
    assert_eq!(split_route("/a/b//"), vec![s("a"), s("b"), s("")]);
    assert_eq!(split_route("a"), vec![s("a")]);
    assert_eq!(split_route("//a"), vec![s(""), s("a")]);
    assert_eq!(split_route("/"), Vec::<String>::new());
    assert_eq!(split_route(""), Vec::<String>::new());
    assert_eq!(split_route("/ä/ö"), vec![s("ä"), s("ö")]);
}

#[test]
fn requests_are_answered_from_the_index() {
    let mut index = Index::new();
    index.insert_project(b"p".to_vec(), LockStatus::NobodyHasLock);
    let answers: Vec<&str> = [
        "/lock/acquire/alpha/p",
        "/lock/acquire/beta/p",
        "/lock/release/beta/p",
        "/lock/release/alpha/p",
        "/lock/acquire/beta/p",
        "/index/lock/acquire/alpha",
        "/index/lock/acquire/beta",
        "/index/lock/release/beta",
        "/index/lock/release/alpha",
    ]
    .iter()
    .map(|path| {
        let request = route(path).unwrap();
        assert!(request.is_answerable(&index));
        serve(&mut index, request)
    })
    .collect();
    assert_eq!(
        answers,
        vec![
            "acquired", "fail", "fail", "released", "acquired", "acquired", "fail", "fail",
            "released"
        ]
    );
    assert_eq!(index.project_status(&b"p".to_vec()), Some(LockStatus::SomeoneHasLock(s("beta"))));
    assert_eq!(index.index_lock, LockStatus::NobodyHasLock);
}

#[test]
fn a_request_for_an_unknown_project_cannot_be_answered() {
    let mut index = Index::new();
    index.insert_project(b"p".to_vec(), LockStatus::NobodyHasLock);
    assert!(!route("/lock/acquire/alpha/q").unwrap().is_answerable(&index));
    assert!(!route("/lock/release/alpha/q").unwrap().is_answerable(&index));
    assert!(!route("/lock/acquire/alpha/..").unwrap().is_answerable(&index));
    assert!(route("/lock/acquire/alpha/p").unwrap().is_answerable(&index));
    assert!(route("/lock/acquire/alpha/%70").unwrap().is_answerable(&index));
    assert!(route("/index/lock/acquire/alpha").unwrap().is_answerable(&index));
    assert!(route("/index/lock/release/alpha").unwrap().is_answerable(&index));
}
