//! Shared session record: one writer (the server's start routine), many
//! readers (a render loop polling for the published URL).

use vstd::prelude::*;

use crate::resolver::spec_url_text;

verus! {

/// Default TCP port the pairing server listens on.
pub const DEFAULT_PORT: u16 = 3000;

/// Errors surfaced by the pairing server's start routine.
#[derive(Debug, Clone, Copy, PartialEq, Eq, Structural)]
pub enum ServerError {
    /// A start was requested while a server is already running.
    AlreadyRunning,
    /// The listener could not be bound on the requested port.
    Bind,
}

/// The pairing session: whether the server is running, the URL it published,
/// and the port it listens on. The record starts out not running with an
/// empty URL; a successful bind marks it running and publishes the URL in one
/// step, so no reader ever sees a non-empty URL without `running`, or the
/// converse.
pub struct SessionState {
    running: bool,
    url: String,
    port: u16,
}

impl SessionState {
    /// Whether the server is marked running.
    pub closed spec fn spec_running(&self) -> bool {
        self.running
    }

    /// The published connection URL, empty while not running.
    pub closed spec fn spec_url(&self) -> Seq<char> {
        self.url@
    }

    /// The configured port.
    pub closed spec fn spec_port(&self) -> u16 {
        self.port
    }

    /// Well-formedness: the published URL is non-empty exactly while the
    /// server is running.
    pub open spec fn wf(&self) -> bool {
        self.spec_running() <==> self.spec_url().len() > 0
    }

    /// A fresh session: not running, no URL, default port.
    pub fn new() -> (s: Self)
        ensures
            !s.spec_running(),
            s.spec_url().len() == 0,
            s.spec_port() == DEFAULT_PORT,
            s.wf(),
    {
        SessionState { running: false, url: String::new(), port: DEFAULT_PORT }
    }

    /// A point-in-time copy of the record, for readers that must not hold
    /// the original while rendering.
    pub fn read(&self) -> (snap: Self)
        ensures
            snap.spec_running() == self.spec_running(),
            snap.spec_url() == self.spec_url(),
            snap.spec_port() == self.spec_port(),
            self.wf() ==> snap.wf(),
    {
        SessionState { running: self.running, url: self.url.clone(), port: self.port }
    }

    pub fn is_running(&self) -> (r: bool)
        ensures
            r == self.spec_running(),
    {
        self.running
    }

    pub fn url_str(&self) -> (r: &str)
        ensures
            r@ == self.spec_url(),
    {
        self.url.as_str()
    }

    pub fn port(&self) -> (r: u16)
        ensures
            r == self.spec_port(),
    {
        self.port
    }

    /// Guard against double starts: a start may proceed exactly when the
    /// server is not already running; otherwise the caller gets
    /// `AlreadyRunning` and must not bind a second listener.
    pub fn begin_start(&self) -> (r: Result<(), ServerError>)
        ensures
            r is Ok <==> !self.spec_running(),
            r is Err ==> r == Err::<(), ServerError>(ServerError::AlreadyRunning),
    {
        if self.running {
            Err(ServerError::AlreadyRunning)
        } else {
            Ok(())
        }
    }

    /// Record a successful bind: mark the session running and publish the
    /// URL and port, in one step. The URL must be a resolved connection
    /// URL, `http://<host>:<port>` for the very port that was bound.
    pub fn mark_running(&mut self, url: String, port: u16)
        requires
            !old(self).spec_running(),
            exists|h: Seq<char>| url@ == #[trigger] spec_url_text(h, port),
        ensures
            final(self).spec_running(),
            final(self).spec_url() == url@,
            final(self).spec_port() == port,
            final(self).wf(),
    {
        proof {
            reveal_strlit("http://");
            let h = choose|h: Seq<char>| url@ == #[trigger] spec_url_text(h, port);
            assert(url@.len() > 0);
        }
        self.running = true;
        self.url = url;
        self.port = port;
    }

    /// Complete a start attempt. On a successful bind the URL and port are
    /// published and the session is marked running, in one step; on a
    /// failed bind the caller gets `Bind` and the record stays exactly as
    /// it was — a failed bind never partially populates the session.
    pub fn finish_start(&mut self, bound: bool, url: String, port: u16) -> (r: Result<
        (),
        ServerError,
    >)
        requires
            !old(self).spec_running(),
            exists|h: Seq<char>| url@ == #[trigger] spec_url_text(h, port),
        ensures
            r is Ok <==> bound,
            bound ==> final(self).spec_running() && final(self).spec_url() == url@,
            bound ==> final(self).spec_port() == port && final(self).wf(),
            !bound ==> r == Err::<(), ServerError>(ServerError::Bind),
            !bound ==> *final(self) == *old(self),
            old(self).wf() ==> final(self).wf(),
    {
        if bound {
            self.mark_running(url, port);
            Ok(())
        } else {
            Err(ServerError::Bind)
        }
    }

    /// Tear the session down: not running, URL cleared, port kept for a
    /// later restart.
    pub fn mark_stopped(&mut self)
        ensures
            !final(self).spec_running(),
            final(self).spec_url().len() == 0,
            final(self).spec_port() == old(self).spec_port(),
            final(self).wf(),
    {
        self.running = false;
        self.url = String::new();
    }

    /// The pure render decision for the connect surface: show the start
    /// control while idle; while running, show the published URL and say
    /// whether the scannable code must be built — exactly when none is
    /// cached yet. A restart clears and republishes the URL, so a code is
    /// built at most once per published URL.
    pub fn connect_view(&self, has_cached_code: bool) -> (v: ConnectView)
        ensures
            !self.spec_running() ==> v is StartButton,
            self.spec_running() ==> (v matches ConnectView::Running { url, refresh_code }
                && url@ == self.spec_url() && refresh_code == (!has_cached_code
                && self.spec_url().len() > 0)),
    {
        if self.running {
            let refresh = !has_cached_code && !self.url.as_str().is_empty();
            ConnectView::Running { url: self.url.clone(), refresh_code: refresh }
        } else {
            ConnectView::StartButton
        }
    }
}

/// What the connect surface should render, derived from a session
/// snapshot and whether a scannable code is already cached.
pub enum ConnectView {
    /// The session is idle: offer to start the server.
    StartButton,
    /// The server runs: show the URL, and build the scannable code first
    /// when `refresh_code` says none is cached yet.
    Running { url: String, refresh_code: bool },
}

/// Law: in a well-formed session the running flag and a non-empty published
/// URL agree — no state has a URL without running, or the converse.
pub proof fn lemma_url_running_agree(s: &SessionState)
    requires
        s.wf(),
    ensures
        s.spec_running() <==> s.spec_url().len() > 0,
{
}

} // verus!
