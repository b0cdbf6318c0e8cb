//! Setting up a connection to a remote machine, and the worker that serves
//! it, as decisions on what the network answered.
//!
//! The application performs each network step (connect, reach the SSH agent,
//! offer a key, open the SFTP subsystem) and reports how it went; the
//! [`Setup`] machine answers with the next step, or with the message to show
//! when the connection cannot be made.
use vstd::prelude::*;
use crate::text::{push_text, string_from_chars};
use crate::paths::{path_join, join_path};
use crate::remote::{ListState, RemoteEntry, Request, Status};

verus! {

/// The character of decimal digit `d`.
pub open spec fn digit_char(d: nat) -> char {
    (d + 48) as char
}

/// Decimal text of `n`, without padding or sign, as `{}` formats an
/// unsigned integer.
pub open spec fn decimal(n: nat) -> Seq<char>
    decreases n,
{
    if n < 10 {
        seq![digit_char(n)]
    } else {
        decimal(n / 10).push(digit_char(n % 10))
    }
}

/// Appends the decimal text of `n` to `out`.
pub fn push_decimal(out: &mut Vec<char>, n: u64)
    ensures
        final(out)@ == old(out)@ + decimal(n as nat),
    decreases n,
{
    if n >= 10 {
        push_decimal(out, n / 10);
    }
    let d: u8 = (n % 10) as u8;
    let c: char = (d + 48u8) as char;
    let ghost mid = out@;
    out.push(c);
    proof {
        if n >= 10 {
            assert(out@ =~= old(out)@ + decimal(n as nat / 10).push(digit_char(n as nat % 10)));
        } else {
            assert(out@ =~= old(out)@ + seq![digit_char(n as nat)]);
        }
    }
}

/// The host's key is not among the known hosts.
pub open spec fn unknown_host_message(host: Seq<char>, user: Seq<char>) -> Seq<char> {
    "Host key for "@ + host + " is not in ~/.ssh/known_hosts. Run `ssh "@ + user + "@"@ + host
        + "` once to record it."@
}

/// The connection itself failed, for the reason `detail`.
pub open spec fn connect_failed_message(host: Seq<char>, port: u16, detail: Seq<char>) -> Seq<char> {
    "Could not connect to "@ + host + ":"@ + decimal(port as nat) + ": "@ + detail
}

/// No SSH agent could be reached.
pub open spec fn no_agent_message(detail: Seq<char>) -> Seq<char> {
    "No SSH agent available ("@ + detail + "). Try `ssh-add`."@
}

/// The agent would not list its keys.
pub open spec fn keys_unlisted_message(detail: Seq<char>) -> Seq<char> {
    "Could not list agent keys: "@ + detail
}

/// The agent holds no keys at all.
pub open spec fn no_keys_message() -> Seq<char> {
    "The SSH agent has no keys loaded. Run `ssh-add` first."@
}

/// The host refused every key the agent offered.
pub open spec fn no_key_accepted_message(host: Seq<char>, user: Seq<char>) -> Seq<char> {
    "No key in the SSH agent was accepted by "@ + user + "@"@ + host + "."@
}

/// Offering a key failed outright.
pub open spec fn auth_error_message(detail: Seq<char>) -> Seq<char> {
    "Authentication error: "@ + detail
}

/// No session channel could be opened.
pub open spec fn channel_failed_message(detail: Seq<char>) -> Seq<char> {
    "Could not open channel: "@ + detail
}

/// The host refused the SFTP subsystem.
pub open spec fn sftp_refused_message(detail: Seq<char>) -> Seq<char> {
    "Remote host refused the SFTP subsystem: "@ + detail
}

/// The SFTP session could not be started.
pub open spec fn handshake_failed_message(detail: Seq<char>) -> Seq<char> {
    "SFTP handshake failed: "@ + detail
}

/// What the last network step came to, as the application reports it. The
/// texts are the errors' own descriptions.
#[derive(Debug)]
pub enum SetupEvent {
    /// Connected, and the host's key is a known one.
    Connected,
    /// The host's key is not among the known hosts.
    HostKeyUnknown,
    /// The connection failed for another reason.
    ConnectFailed(String),
    /// The SSH agent answered.
    AgentReached,
    /// No SSH agent could be reached.
    AgentUnavailable(String),
    /// The agent's keys, in its order: `true` for a plain public key, `false`
    /// for a certificate (certificates are not offered).
    KeysListed(Vec<bool>),
    /// The agent would not list its keys.
    KeysUnavailable(String),
    /// The host accepted the key just offered.
    KeyAccepted,
    /// The host turned the key just offered down.
    KeyRefused,
    /// Offering the key failed outright.
    AuthFailed(String),
    /// A session channel is open.
    ChannelOpened,
    /// No session channel could be opened.
    ChannelFailed(String),
    /// The host granted the SFTP subsystem.
    SftpGranted,
    /// The host refused the SFTP subsystem.
    SftpRefused(String),
    /// The SFTP session is up.
    SftpStarted,
    /// The SFTP session could not be started.
    HandshakeFailed(String),
}

/// What an event reports.
pub enum EventView {
    Connected,
    HostKeyUnknown,
    ConnectFailed(Seq<char>),
    AgentReached,
    AgentUnavailable(Seq<char>),
    KeysListed(Seq<bool>),
    KeysUnavailable(Seq<char>),
    KeyAccepted,
    KeyRefused,
    AuthFailed(Seq<char>),
    ChannelOpened,
    ChannelFailed(Seq<char>),
    SftpGranted,
    SftpRefused(Seq<char>),
    SftpStarted,
    HandshakeFailed(Seq<char>),
}

impl View for SetupEvent {
    type V = EventView;

    open spec fn view(&self) -> EventView {
        match self {
            SetupEvent::Connected => EventView::Connected,
            SetupEvent::HostKeyUnknown => EventView::HostKeyUnknown,
            SetupEvent::ConnectFailed(e) => EventView::ConnectFailed(e@),
            SetupEvent::AgentReached => EventView::AgentReached,
            SetupEvent::AgentUnavailable(e) => EventView::AgentUnavailable(e@),
            SetupEvent::KeysListed(k) => EventView::KeysListed(k@),
            SetupEvent::KeysUnavailable(e) => EventView::KeysUnavailable(e@),
            SetupEvent::KeyAccepted => EventView::KeyAccepted,
            SetupEvent::KeyRefused => EventView::KeyRefused,
            SetupEvent::AuthFailed(e) => EventView::AuthFailed(e@),
            SetupEvent::ChannelOpened => EventView::ChannelOpened,
            SetupEvent::ChannelFailed(e) => EventView::ChannelFailed(e@),
            SetupEvent::SftpGranted => EventView::SftpGranted,
            SetupEvent::SftpRefused(e) => EventView::SftpRefused(e@),
            SetupEvent::SftpStarted => EventView::SftpStarted,
            SetupEvent::HandshakeFailed(e) => EventView::HandshakeFailed(e@),
        }
    }
}

/// The next network step to take.
#[derive(Debug)]
pub enum SetupAction {
    /// Connect to the host and check its key.
    Connect,
    /// Reach the SSH agent.
    ReachAgent,
    /// Ask the agent for its keys.
    ListKeys,
    /// Offer the agent's key at this position to the host.
    Offer(usize),
    /// Open a session channel.
    OpenChannel,
    /// Ask for the SFTP subsystem.
    RequestSftp,
    /// Start the SFTP session on the channel.
    StartSftp,
    /// The connection is made.
    Finish,
    /// The connection cannot be made; the message says why.
    Fail(String),
}

/// What an action asks for.
pub enum ActionView {
    Connect,
    ReachAgent,
    ListKeys,
    Offer(int),
    OpenChannel,
    RequestSftp,
    StartSftp,
    Finish,
    Fail(Seq<char>),
}

impl View for SetupAction {
    type V = ActionView;

    open spec fn view(&self) -> ActionView {
        match self {
            SetupAction::Connect => ActionView::Connect,
            SetupAction::ReachAgent => ActionView::ReachAgent,
            SetupAction::ListKeys => ActionView::ListKeys,
            SetupAction::Offer(i) => ActionView::Offer(*i as int),
            SetupAction::OpenChannel => ActionView::OpenChannel,
            SetupAction::RequestSftp => ActionView::RequestSftp,
            SetupAction::StartSftp => ActionView::StartSftp,
            SetupAction::Finish => ActionView::Finish,
            SetupAction::Fail(m) => ActionView::Fail(m@),
        }
    }
}

/// What the setup remembers: where it connects to, and the agent's keys
/// with the position of the one offered last.
pub struct SetupView {
    pub host: Seq<char>,
    pub port: u16,
    pub user: Seq<char>,
    pub keys: Seq<bool>,
    pub offered: int,
}

/// The first plain public key at or after position `from`, or the number
/// of keys when there is none.
pub open spec fn next_plain(keys: Seq<bool>, from: int) -> int
    decreases keys.len() - from,
{
    if from >= keys.len() {
        keys.len() as int
    } else if from >= 0 && keys[from] {
        from
    } else {
        next_plain(keys, from + 1)
    }
}

/// Offer the first plain key at or after `from`, or give up when there is
/// none left.
pub open spec fn offer_from(s: SetupView, keys: Seq<bool>, from: int) -> (SetupView, ActionView) {
    let i = next_plain(keys, from);
    if i < keys.len() {
        (SetupView { keys, offered: i, ..s }, ActionView::Offer(i))
    } else {
        (SetupView { keys, ..s }, ActionView::Fail(no_key_accepted_message(s.host, s.user)))
    }
}

/// The next step after `event`: each step that went well leads to the
/// next one; a failure ends the setup with its message. The agent's keys
/// are offered in its order, certificates skipped, until the host accepts
/// one.
pub open spec fn setup_next(s: SetupView, event: EventView) -> (SetupView, ActionView) {
    match event {
        EventView::Connected => (s, ActionView::ReachAgent),
        EventView::HostKeyUnknown => (s, ActionView::Fail(unknown_host_message(s.host, s.user))),
        EventView::ConnectFailed(e) => (s, ActionView::Fail(connect_failed_message(s.host, s.port, e))),
        EventView::AgentReached => (s, ActionView::ListKeys),
        EventView::AgentUnavailable(e) => (s, ActionView::Fail(no_agent_message(e))),
        EventView::KeysListed(keys) => if keys.len() == 0 {
            (SetupView { keys, ..s }, ActionView::Fail(no_keys_message()))
        } else {
            offer_from(s, keys, 0)
        },
        EventView::KeysUnavailable(e) => (s, ActionView::Fail(keys_unlisted_message(e))),
        EventView::KeyAccepted => (s, ActionView::OpenChannel),
        EventView::KeyRefused => offer_from(s, s.keys, s.offered + 1),
        EventView::AuthFailed(e) => (s, ActionView::Fail(auth_error_message(e))),
        EventView::ChannelOpened => (s, ActionView::RequestSftp),
        EventView::ChannelFailed(e) => (s, ActionView::Fail(channel_failed_message(e))),
        EventView::SftpGranted => (s, ActionView::StartSftp),
        EventView::SftpRefused(e) => (s, ActionView::Fail(sftp_refused_message(e))),
        EventView::SftpStarted => (s, ActionView::Finish),
        EventView::HandshakeFailed(e) => (s, ActionView::Fail(handshake_failed_message(e))),
    }
}

/// Setting up a connection to `user@host:port`. The first step is always
/// [`SetupAction::Connect`]; then each reported event gives the next one.
pub struct Setup {
    host: String,
    port: u16,
    user: String,
    keys: Vec<bool>,
    offered: usize,
}

impl View for Setup {
    type V = SetupView;

    closed spec fn view(&self) -> SetupView {
        SetupView {
            host: self.host@,
            port: self.port,
            user: self.user@,
            keys: self.keys@,
            offered: self.offered as int,
        }
    }
}

/// The first plain public key at or after `from` (see [`next_plain`]).
fn find_plain(keys: &Vec<bool>, from: usize) -> (i: usize)
    ensures
        i as int == next_plain(keys@, from as int),
    decreases keys.len() - from,
{
    if from >= keys.len() {
        keys.len()
    } else if keys[from] {
        from
    } else {
        find_plain(keys, from + 1)
    }
}

/// A message made of one text.
fn text_message(parts: &str) -> (m: String)
    ensures
        m@ == parts@,
{
    let mut out: Vec<char> = Vec::new();
    push_text(&mut out, parts);
    string_from_chars(&out)
}

/// A message made of a fixed text and a detail.
fn detail_message(head: &str, detail: &str) -> (m: String)
    ensures
        m@ == head@ + detail@,
{
    let mut out: Vec<char> = Vec::new();
    push_text(&mut out, head);
    push_text(&mut out, detail);
    string_from_chars(&out)
}

impl Setup {
    /// Setting up a connection to `user@host:port`; nothing offered yet.
    pub fn new(host: &str, port: u16, user: &str) -> (r: Self)
        ensures
            r@ == (SetupView { host: host@, port, user: user@, keys: Seq::empty(), offered: 0 }),
    {
        let r = Setup {
            host: host.to_string(),
            port,
            user: user.to_string(),
            keys: Vec::new(),
            offered: 0,
        };
        proof {
            assert(r@.keys =~= Seq::<bool>::empty());
        }
        r
    }

    /// Offers the first plain key at or after `from`, or gives up.
    fn offer_from(&mut self, keys: Vec<bool>, from: usize) -> (action: SetupAction)
        ensures
            final(self)@ == offer_from(old(self)@, keys@, from as int).0,
            action@ == offer_from(old(self)@, keys@, from as int).1,
    {
        let i = find_plain(&keys, from);
        self.keys = keys;
        if i < self.keys.len() {
            self.offered = i;
            SetupAction::Offer(i)
        } else {
            let mut out: Vec<char> = Vec::new();
            push_text(&mut out, "No key in the SSH agent was accepted by ");
            push_text(&mut out, self.user.as_str());
            push_text(&mut out, "@");
            push_text(&mut out, self.host.as_str());
            push_text(&mut out, ".");
            proof {
                assert(out@ =~= no_key_accepted_message(self.host@, self.user@));
            }
            SetupAction::Fail(string_from_chars(&out))
        }
    }

    /// The next step after `event` (see [`setup_next`]).
    pub fn step(&mut self, event: SetupEvent) -> (action: SetupAction)
        ensures
            final(self)@ == setup_next(old(self)@, event@).0,
            action@ == setup_next(old(self)@, event@).1,
    {
        match event {
            SetupEvent::Connected => SetupAction::ReachAgent,
            SetupEvent::HostKeyUnknown => {
                let mut out: Vec<char> = Vec::new();
                push_text(&mut out, "Host key for ");
                push_text(&mut out, self.host.as_str());
                push_text(&mut out, " is not in ~/.ssh/known_hosts. Run `ssh ");
                push_text(&mut out, self.user.as_str());
                push_text(&mut out, "@");
                push_text(&mut out, self.host.as_str());
                push_text(&mut out, "` once to record it.");
                proof {
                    assert(out@ =~= unknown_host_message(self.host@, self.user@));
                }
                SetupAction::Fail(string_from_chars(&out))
            },
            SetupEvent::ConnectFailed(e) => {
                let mut out: Vec<char> = Vec::new();
                push_text(&mut out, "Could not connect to ");
                push_text(&mut out, self.host.as_str());
                push_text(&mut out, ":");
                push_decimal(&mut out, self.port as u64);
                push_text(&mut out, ": ");
                push_text(&mut out, e.as_str());
                proof {
                    assert(out@ =~= connect_failed_message(self.host@, self.port, e@));
                }
                SetupAction::Fail(string_from_chars(&out))
            },
            SetupEvent::AgentReached => SetupAction::ListKeys,
            SetupEvent::AgentUnavailable(e) => {
                let mut out: Vec<char> = Vec::new();
                push_text(&mut out, "No SSH agent available (");
                push_text(&mut out, e.as_str());
                push_text(&mut out, "). Try `ssh-add`.");
                proof {
                    assert(out@ =~= no_agent_message(e@));
                }
                SetupAction::Fail(string_from_chars(&out))
            },
            SetupEvent::KeysListed(keys) => {
                if keys.len() == 0 {
                    self.keys = keys;
                    SetupAction::Fail(text_message("The SSH agent has no keys loaded. Run `ssh-add` first."))
                } else {
                    self.offer_from(keys, 0)
                }
            },
            SetupEvent::KeysUnavailable(e) => SetupAction::Fail(
                detail_message("Could not list agent keys: ", e.as_str()),
            ),
            SetupEvent::KeyAccepted => SetupAction::OpenChannel,
            SetupEvent::KeyRefused => {
                let mut keys: Vec<bool> = Vec::new();
                std::mem::swap(&mut keys, &mut self.keys);
                if self.offered >= keys.len() {
                    // Nothing was offered from this list: there is no next key.
                    self.offer_from(keys, self.offered)
                } else {
                    let from = self.offered + 1;
                    self.offer_from(keys, from)
                }
            },
            SetupEvent::AuthFailed(e) => SetupAction::Fail(detail_message("Authentication error: ", e.as_str())),
            SetupEvent::ChannelOpened => SetupAction::RequestSftp,
            SetupEvent::ChannelFailed(e) => SetupAction::Fail(detail_message("Could not open channel: ", e.as_str())),
            SetupEvent::SftpGranted => SetupAction::StartSftp,
            SetupEvent::SftpRefused(e) => SetupAction::Fail(
                detail_message("Remote host refused the SFTP subsystem: ", e.as_str()),
            ),
            SetupEvent::SftpStarted => SetupAction::Finish,
            SetupEvent::HandshakeFailed(e) => SetupAction::Fail(detail_message("SFTP handshake failed: ", e.as_str())),
        }
    }
}

/// Whether `event` reports how the step `action` went.
pub open spec fn answers(action: ActionView, event: EventView) -> bool {
    match action {
        ActionView::Connect => event is Connected || event is HostKeyUnknown || event is ConnectFailed,
        ActionView::ReachAgent => event is AgentReached || event is AgentUnavailable,
        ActionView::ListKeys => event is KeysListed || event is KeysUnavailable,
        ActionView::Offer(_) => event is KeyAccepted || event is KeyRefused || event is AuthFailed,
        ActionView::OpenChannel => event is ChannelOpened || event is ChannelFailed,
        ActionView::RequestSftp => event is SftpGranted || event is SftpRefused,
        ActionView::StartSftp => event is SftpStarted || event is HandshakeFailed,
        _ => false,
    }
}

/// The setup and its next step after `events` are reported in turn to the
/// setup `s`, whose first step is to connect.
pub open spec fn run(s: SetupView, events: Seq<EventView>) -> (SetupView, ActionView)
    decreases events.len(),
{
    if events.len() == 0 {
        (s, ActionView::Connect)
    } else {
        setup_next(run(s, events.drop_last()).0, events.last())
    }
}

/// Each of `events` reports how the step asked for just before it went.
pub open spec fn answered_in_turn(s: SetupView, events: Seq<EventView>) -> bool
    decreases events.len(),
{
    if events.len() == 0 {
        true
    } else {
        answered_in_turn(s, events.drop_last()) && answers(run(s, events.drop_last()).1, events.last())
    }
}

proof fn lemma_run_progress(s: SetupView, events: Seq<EventView>)
    requires
        answered_in_turn(s, events),
    ensures
        ({
            let a = run(s, events).1;
            &&& (a is ReachAgent || a is ListKeys || a is Offer) ==> events.contains(EventView::Connected)
            &&& (a is OpenChannel || a is RequestSftp || a is StartSftp || a is Finish) ==> {
                &&& events.contains(EventView::Connected)
                &&& events.contains(EventView::KeyAccepted)
            }
        }),
    decreases events.len(),
{
    if events.len() > 0 {
        let es = events.drop_last();
        let e = events.last();
        lemma_run_progress(s, es);
        assert(events == es.push(e));
        assert forall|x: EventView| es.contains(x) implies events.contains(x) by {
            let i = choose|i: int| 0 <= i < es.len() && es[i] == x;
            assert(events[i] == es[i]);
        }
        assert(events[events.len() - 1] == e);
    }
}

/// A connection is made only once the host's key was found among the known
/// hosts and the host accepted one of the agent's keys: when every report
/// answers the step asked for, the setup finishes only after both.
pub proof fn lemma_success_needs_known_host_and_accepted_key(s: SetupView, events: Seq<EventView>)
    requires
        answered_in_turn(s, events),
        run(s, events).1 is Finish,
    ensures
        events.contains(EventView::Connected),
        events.contains(EventView::KeyAccepted),
{
    lemma_run_progress(s, events);
}

/// After the host refuses a key, the next plain key after it in the
/// agent's list is offered whenever there is one (certificates skipped);
/// the setup gives up only when none is left.
pub proof fn lemma_refusal_offers_next_key(s: SetupView)
    requires
        0 <= s.offered,
    ensures
        (exists|j: int| s.offered < j < s.keys.len() && s.keys[j]) ==> (setup_next(s, EventView::KeyRefused).1 matches ActionView::Offer(i) && {
            &&& s.offered < i < s.keys.len()
            &&& s.keys[i]
            &&& forall|m: int| s.offered < m < i ==> !s.keys[m]
        }),
        !(exists|j: int| s.offered < j < s.keys.len() && s.keys[j]) ==> setup_next(s, EventView::KeyRefused).1 is Fail,
{
    lemma_keys_offered_in_order(s.keys, s.offered + 1);
    let i = next_plain(s.keys, s.offered + 1);
    if exists|j: int| s.offered < j < s.keys.len() && s.keys[j] {
        let j = choose|j: int| s.offered < j < s.keys.len() && s.keys[j];
        if i >= s.keys.len() {
            assert(!s.keys[j]);
        }
    } else {
        if i < s.keys.len() {
            assert(s.keys[i]);
        }
    }
}

/// Once the agent lists its keys, its first plain key is offered, whatever
/// certificates come before it; with no plain key the setup gives up.
pub proof fn lemma_first_plain_key_offered(s: SetupView, keys: Seq<bool>)
    ensures
        (exists|j: int| 0 <= j < keys.len() && keys[j]) ==> (setup_next(s, EventView::KeysListed(keys)).1 matches ActionView::Offer(i) && {
            &&& 0 <= i < keys.len()
            &&& keys[i]
            &&& forall|m: int| 0 <= m < i ==> !keys[m]
        }),
        !(exists|j: int| 0 <= j < keys.len() && keys[j]) ==> setup_next(s, EventView::KeysListed(keys)).1 is Fail,
{
    lemma_keys_offered_in_order(keys, 0);
    let i = next_plain(keys, 0);
    if exists|j: int| 0 <= j < keys.len() && keys[j] {
        let j = choose|j: int| 0 <= j < keys.len() && keys[j];
        if i >= keys.len() {
            assert(!keys[j]);
        }
    } else {
        if i < keys.len() {
            assert(keys[i]);
        }
    }
}

/// The keys are offered in the agent's order, each at most once, and
/// certificates never: the key offered next is the first plain key after
/// the one just refused, and when none is left the setup gives up.
pub proof fn lemma_keys_offered_in_order(keys: Seq<bool>, from: int)
    requires
        0 <= from,
    ensures
        from <= next_plain(keys, from) <= keys.len() || from > keys.len(),
        next_plain(keys, from) < keys.len() ==> keys[next_plain(keys, from)],
        forall|j: int| from <= j < next_plain(keys, from) ==> !keys[j],
    decreases keys.len() - from,
{
    if from < keys.len() && !keys[from] {
        lemma_keys_offered_in_order(keys, from + 1);
    }
}

/// What the worker finds when it looks for work.
#[derive(Debug)]
pub enum WorkerPoll {
    /// A request from the UI.
    Got(Request),
    /// Nothing asked for yet.
    Idle,
    /// The UI has gone away.
    Closed,
}

/// What the worker does next.
#[derive(Debug)]
pub enum WorkerMove {
    /// Serve this request.
    Serve(Request),
    /// Sleep a little and look again, leaving the runtime free to drive the
    /// SFTP session.
    Wait,
    /// Stop: the connection was dropped, or the UI has gone away.
    Stop,
}

/// The worker's next move: it stops once the connection is shut down or the
/// UI has gone; otherwise it serves what was asked, or waits.
pub fn worker_move(shutdown: bool, poll: WorkerPoll) -> (m: WorkerMove)
    ensures
        shutdown ==> m is Stop,
        !shutdown ==> match poll {
            WorkerPoll::Got(r) => m == WorkerMove::Serve(r),
            WorkerPoll::Idle => m is Wait,
            WorkerPoll::Closed => m is Stop,
        },
{
    if shutdown {
        return WorkerMove::Stop;
    }
    match poll {
        WorkerPoll::Got(r) => WorkerMove::Serve(r),
        WorkerPoll::Idle => WorkerMove::Wait,
        WorkerPoll::Closed => WorkerMove::Stop,
    }
}

/// The entries of a listing of `dir`, from the names it holds and whether
/// each is a folder: each path is the folder joined with the name.
pub open spec fn listed_entries(dir: Seq<char>, names: Seq<(String, bool)>) -> Seq<(Seq<char>, bool)> {
    names.map_values(|n: (String, bool)| (path_join(dir, n.0@), n.1))
}

/// The listing of `dir` that the worker records, from the names the server
/// returned, in the server's order.
pub fn listing_from(dir: &str, names: Vec<(String, bool)>) -> (state: ListState)
    ensures
        state matches ListState::Ready(entries) && entries@.map_values(|e: RemoteEntry| (e.path@, e.is_dir))
            == listed_entries(dir@, names@),
{
    let mut entries: Vec<RemoteEntry> = Vec::new();
    let mut i: usize = 0;
    while i < names.len()
        invariant
            i <= names.len(),
            entries@.map_values(|e: RemoteEntry| (e.path@, e.is_dir)) == listed_entries(dir@, names@.take(i as int)),
        decreases names.len() - i,
    {
        let ghost before = entries@;
        let path = join_path(dir, names[i].0.as_str());
        let entry = RemoteEntry { path, is_dir: names[i].1 };
        assert((entry.path@, entry.is_dir) == (path_join(dir@, names@[i as int].0@), names@[i as int].1));
        entries.push(entry);
        proof {
            let f = |e: RemoteEntry| (e.path@, e.is_dir);
            assert(names@.take(i + 1) =~= names@.take(i as int).push(names@[i as int]));
            assert(entries@ == before.push(entry));
            assert(entries@.map_values(f) =~= before.map_values(f).push(f(entry)));
            assert(entries@.map_values(|e: RemoteEntry| (e.path@, e.is_dir)) =~= listed_entries(
                dir@,
                names@.take(i + 1),
            ));
        }
        i = i + 1;
    }
    proof {
        assert(names@.take(names.len() as int) =~= names@);
    }
    ListState::Ready(entries)
}

/// The state once connected: browsing starts where `ssh` would, in the
/// user's home folder, or at `/` when the server would not say where that is.
pub fn connected_status(home: Option<String>) -> (status: Status)
    ensures
        status matches Status::Connected { home: h } && h@ == (match home {
            Some(p) => p@,
            None => "/"@,
        }),
{
    match home {
        Some(p) => Status::Connected { home: p },
        None => Status::Connected { home: text_message("/") },
    }
}

/// The state when the worker could not even start its runtime.
pub fn runtime_failure(detail: &str) -> (status: Status)
    ensures
        status matches Status::Failed(m) && m@ == "runtime: "@ + detail@,
{
    Status::Failed(detail_message("runtime: ", detail))
}

} // verus!
