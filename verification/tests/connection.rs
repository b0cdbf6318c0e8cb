use optra::connection::{
    connected_status, listing_from, runtime_failure, worker_move, Setup, SetupAction, SetupEvent,
    WorkerMove, WorkerPoll,
};
use optra::remote::{ListState, Request, Status};

fn setup() -> Setup {
    Setup::new("example.org", 2222, "alice")
}

fn failure(action: SetupAction) -> String {
    match action {
        SetupAction::Fail(m) => m,
        other => panic!("expected a failure, got {:?}", other),
    }
}

#[test]
fn setup_walks_through_every_step() {
    let mut s = setup();
    assert!(matches!(s.step(SetupEvent::Connected), SetupAction::ReachAgent));
    assert!(matches!(s.step(SetupEvent::AgentReached), SetupAction::ListKeys));
    assert!(matches!(s.step(SetupEvent::KeysListed(vec![false, true])), SetupAction::Offer(1)));
    assert!(matches!(s.step(SetupEvent::KeyAccepted), SetupAction::OpenChannel));
    assert!(matches!(s.step(SetupEvent::ChannelOpened), SetupAction::RequestSftp));
    assert!(matches!(s.step(SetupEvent::SftpGranted), SetupAction::StartSftp));
    assert!(matches!(s.step(SetupEvent::SftpStarted), SetupAction::Finish));
}

#[test]
fn refused_keys_are_followed_by_the_next_plain_key() {
    let mut s = setup();
    assert!(matches!(s.step(SetupEvent::KeysListed(vec![true, false, true])), SetupAction::Offer(0)));
    assert!(matches!(s.step(SetupEvent::KeyRefused), SetupAction::Offer(2)));
    assert_eq!(
        failure(s.step(SetupEvent::KeyRefused)),
        "No key in the SSH agent was accepted by alice@example.org."
    );
}

#[test]
fn an_agent_with_only_certificates_offers_nothing() {
    let mut s = setup();
    assert_eq!(
        failure(s.step(SetupEvent::KeysListed(vec![false, false]))),
        "No key in the SSH agent was accepted by alice@example.org."
    );
}

#[test]
fn an_empty_agent_is_reported() {
    let mut s = setup();
    assert_eq!(
        failure(s.step(SetupEvent::KeysListed(Vec::new()))),
        "The SSH agent has no keys loaded. Run `ssh-add` first."
    );
}

#[test]
fn an_unknown_host_key_says_how_to_record_it() {
    let mut s = setup();
    assert_eq!(
        failure(s.step(SetupEvent::HostKeyUnknown)),
        "Host key for example.org is not in ~/.ssh/known_hosts. Run `ssh alice@example.org` once to record it."
    );
}

#[test]
fn a_failed_connection_names_host_and_port() {
    let mut s = setup();
    assert_eq!(
        failure(s.step(SetupEvent::ConnectFailed("refused".to_string()))),
        "Could not connect to example.org:2222: refused"
    );
    let mut low = Setup::new("h", 0, "u");
    assert_eq!(failure(low.step(SetupEvent::ConnectFailed("x".to_string()))), "Could not connect to h:0: x");
    let mut high = Setup::new("h", 65535, "u");
    assert_eq!(
        failure(high.step(SetupEvent::ConnectFailed("x".to_string()))),
        "Could not connect to h:65535: x"
    );
}

#[test]
fn each_failing_step_has_its_message() {
    let mut s = setup();
    assert_eq!(
        failure(s.step(SetupEvent::AgentUnavailable("no socket".to_string()))),
        "No SSH agent available (no socket). Try `ssh-add`."
    );
    assert_eq!(
        failure(s.step(SetupEvent::KeysUnavailable("eof".to_string()))),
        "Could not list agent keys: eof"
    );
    assert_eq!(failure(s.step(SetupEvent::AuthFailed("eof".to_string()))), "Authentication error: eof");
    assert_eq!(failure(s.step(SetupEvent::ChannelFailed("eof".to_string()))), "Could not open channel: eof");
    assert_eq!(
        failure(s.step(SetupEvent::SftpRefused("no".to_string()))),
        "Remote host refused the SFTP subsystem: no"
    );
    assert_eq!(failure(s.step(SetupEvent::HandshakeFailed("bad".to_string()))), "SFTP handshake failed: bad");
}

#[test]
fn the_worker_stops_waits_or_serves() {
    assert!(matches!(worker_move(true, WorkerPoll::Idle), WorkerMove::Stop));
    assert!(matches!(worker_move(true, WorkerPoll::Got(Request::List("/".to_string()))), WorkerMove::Stop));
    assert!(matches!(worker_move(false, WorkerPoll::Idle), WorkerMove::Wait));
    assert!(matches!(worker_move(false, WorkerPoll::Closed), WorkerMove::Stop));
    match worker_move(false, WorkerPoll::Got(Request::Fetch("/a.exr".to_string()))) {
        WorkerMove::Serve(Request::Fetch(p)) => assert_eq!(p, "/a.exr"),
        other => panic!("expected to serve the fetch, got {:?}", other),
    }
}

#[test]
fn a_listing_joins_each_name_to_its_folder() {
    let state = listing_from("/data", vec![("a.exr".to_string(), false), ("sub".to_string(), true)]);
    match state {
        ListState::Ready(entries) => {
            assert_eq!(entries.len(), 2);
            assert_eq!(entries[0].path, "/data/a.exr");
            assert!(!entries[0].is_dir);
            assert_eq!(entries[1].path, "/data/sub");
            assert!(entries[1].is_dir);
        }
        other => panic!("expected a ready listing, got {:?}", other),
    }
    match listing_from("/", vec![("x".to_string(), false)]) {
        ListState::Ready(entries) => assert_eq!(entries[0].path, "/x"),
        other => panic!("expected a ready listing, got {:?}", other),
    }
}

#[test]
fn browsing_starts_at_home_or_at_the_root() {
    assert_eq!(connected_status(Some("/home/alice".to_string())), Status::Connected { home: "/home/alice".to_string() });
    assert_eq!(connected_status(None), Status::Connected { home: "/".to_string() });
    assert_eq!(runtime_failure("boom"), Status::Failed("runtime: boom".to_string()));
}

#[test]
fn a_connection_is_made_only_after_a_known_host_and_an_accepted_key() {
    let mut s = setup();
    let mut action = SetupAction::Connect;
    let answers = vec![
        SetupEvent::Connected,
        SetupEvent::AgentReached,
        SetupEvent::KeysListed(vec![true, true]),
        SetupEvent::KeyRefused,
        SetupEvent::KeyAccepted,
        SetupEvent::ChannelOpened,
        SetupEvent::SftpGranted,
        SetupEvent::SftpStarted,
    ];
    for event in answers {
        assert!(!matches!(action, SetupAction::Finish | SetupAction::Fail(_)));
        action = s.step(event);
    }
    assert!(matches!(action, SetupAction::Finish));

    let mut refused = setup();
    assert!(matches!(refused.step(SetupEvent::KeysListed(vec![true])), SetupAction::Offer(0)));
    assert!(matches!(refused.step(SetupEvent::KeyRefused), SetupAction::Fail(_)));
}
