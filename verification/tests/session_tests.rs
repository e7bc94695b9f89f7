use lan_pairing::session::{ConnectView, ServerError, SessionState, DEFAULT_PORT};

#[test]
fn new_session_is_idle() {
    let s = SessionState::new();
    assert!(!s.is_running());
    assert_eq!(s.url_str(), "");
    assert_eq!(s.port(), DEFAULT_PORT);
    assert_eq!(s.port(), 3000);
}

#[test]
fn begin_start_allowed_when_idle() {
    let s = SessionState::new();
    assert!(s.begin_start().is_ok());
}

#[test]
fn begin_start_refused_while_running() {
    let mut s = SessionState::new();
    s.mark_running(String::from("http://192.168.1.9:3000"), 3000);
    assert_eq!(s.begin_start(), Err(ServerError::AlreadyRunning));
}

#[test]
fn mark_running_publishes_url_and_port() {
    let mut s = SessionState::new();
    s.mark_running(String::from("http://192.168.1.9:8080"), 8080);
    assert!(s.is_running());
    assert_eq!(s.url_str(), "http://192.168.1.9:8080");
    assert_eq!(s.port(), 8080);
}

#[test]
fn url_non_empty_exactly_while_running() {
    let mut s = SessionState::new();
    assert!(!s.is_running() && s.url_str().is_empty());
    s.mark_running(String::from("http://192.168.1.9:3000"), 3000);
    assert!(s.is_running() && !s.url_str().is_empty());
    s.mark_stopped();
    assert!(!s.is_running() && s.url_str().is_empty());
}

#[test]
fn mark_stopped_keeps_port() {
    let mut s = SessionState::new();
    s.mark_running(String::from("http://10.0.0.2:4000"), 4000);
    s.mark_stopped();
    assert!(!s.is_running());
    assert_eq!(s.url_str(), "");
    assert_eq!(s.port(), 4000);
}

#[test]
fn read_gives_matching_snapshot() {
    let mut s = SessionState::new();
    s.mark_running(String::from("http://10.0.0.2:3000"), 3000);
    let snap = s.read();
    assert_eq!(snap.is_running(), s.is_running());
    assert_eq!(snap.url_str(), s.url_str());
    assert_eq!(snap.port(), s.port());
}

#[test]
fn finish_start_success_publishes() {
    let mut s = SessionState::new();
    assert!(s.finish_start(true, String::from("http://192.168.1.9:3000"), 3000).is_ok());
    assert!(s.is_running());
    assert_eq!(s.url_str(), "http://192.168.1.9:3000");
    assert_eq!(s.port(), 3000);
}

#[test]
fn failed_bind_surfaces_and_leaves_session_idle() {
    // The port could not be bound: the attempt reports `Bind` and the
    // record stays exactly as it was — never partially populated.
    let mut s = SessionState::new();
    assert!(s.begin_start().is_ok());
    let r = s.finish_start(false, String::from("http://192.168.1.9:3000"), 3000);
    assert_eq!(r, Err(ServerError::Bind));
    assert!(!s.is_running());
    assert_eq!(s.url_str(), "");
    assert_eq!(s.port(), DEFAULT_PORT);
}

#[test]
fn connect_view_idle_offers_start() {
    let s = SessionState::new();
    assert!(matches!(s.connect_view(false), ConnectView::StartButton));
    assert!(matches!(s.connect_view(true), ConnectView::StartButton));
}

#[test]
fn connect_view_running_builds_code_once() {
    let mut s = SessionState::new();
    s.mark_running(String::from("http://192.168.1.9:3000"), 3000);
    match s.connect_view(false) {
        ConnectView::Running { url, refresh_code } => {
            assert_eq!(url, "http://192.168.1.9:3000");
            assert!(refresh_code);
        }
        ConnectView::StartButton => panic!("expected the running view"),
    }
    match s.connect_view(true) {
        ConnectView::Running { refresh_code, .. } => assert!(!refresh_code),
        ConnectView::StartButton => panic!("expected the running view"),
    }
}
