//! The reload session held with one connected browser, as a state machine:
//! each event that reaches the session (a published change, the outcome of a
//! send, a reply of the browser) gives its next state and the one thing to
//! send, and a list of live fragment instances updates the ledger.
use vstd::prelude::*;

use crate::endpoint::{endpoint_for_file, endpoint_of_file};
use crate::ledger::{
    classified, history_or_empty, with_pending, FormLedger, FormView, HistoryView, LedgerKey,
};
use crate::text::{ends_with, str_ends_with, str_equal};

verus! {

/// The liveness probe sent for every published change.
pub const PING: &'static str = "you up?";

/// The reply by which a browser asks for a full page reload.
pub const FULL_RELOAD: &'static str = "r";

/// Where a session stands.
#[derive(Debug)]
pub enum SessionState {
    /// Waiting for the next published change.
    Idle,
    /// The probe for the change of `path` was handed out to be sent.
    Probing { path: String },
    /// The browser was told that `endpoint` changed; waiting for its answer.
    AwaitingAck { endpoint: String },
    /// Waiting for the fragment instances of `endpoint` still alive.
    AwaitingIndices { endpoint: String },
    /// The session is over.
    Closed,
}

/// What reaches a session.
#[derive(Debug)]
pub enum SessionEvent {
    /// The file at this path, under a watched root, changed.
    Published(String),
    /// The last message handed out was sent.
    Sent,
    /// The last message handed out could not be sent.
    SendFailed,
    /// The browser replied with text.
    Text(String),
    /// The browser replied with bytes.
    Binary(Vec<u8>),
    /// No usable reply came: the wait ended, or the receive failed.
    NoReply,
    /// The source of published changes is gone.
    ChannelClosed,
}

/// What a session asks to be done on its connection.
#[derive(Debug)]
pub enum Action {
    /// Nothing to send.
    Nothing,
    /// Send this text message.
    SendText(String),
    /// Send this binary message.
    SendBinary(Vec<u8>),
    /// Close the connection.
    Close,
}

/// Where a session stands, with its texts as character sequences.
pub enum PhaseView {
    Idle,
    Probing(Seq<char>),
    AwaitingAck(Seq<char>),
    AwaitingIndices(Seq<char>),
    Closed,
}

/// An event, with its texts and bytes as sequences.
pub enum EventView {
    Published(Seq<char>),
    Sent,
    SendFailed,
    Text(Seq<char>),
    Binary(Seq<u8>),
    NoReply,
    ChannelClosed,
}

/// An action, with its texts and bytes as sequences.
pub enum ActionView {
    Nothing,
    SendText(Seq<char>),
    SendBinary(Seq<u8>),
    Close,
}

impl View for SessionState {
    type V = PhaseView;

    open spec fn view(&self) -> PhaseView {
        match self {
            SessionState::Idle => PhaseView::Idle,
            SessionState::Probing { path } => PhaseView::Probing(path@),
            SessionState::AwaitingAck { endpoint } => PhaseView::AwaitingAck(endpoint@),
            SessionState::AwaitingIndices { endpoint } => PhaseView::AwaitingIndices(endpoint@),
            SessionState::Closed => PhaseView::Closed,
        }
    }
}

impl View for SessionEvent {
    type V = EventView;

    open spec fn view(&self) -> EventView {
        match self {
            SessionEvent::Published(p) => EventView::Published(p@),
            SessionEvent::Sent => EventView::Sent,
            SessionEvent::SendFailed => EventView::SendFailed,
            SessionEvent::Text(t) => EventView::Text(t@),
            SessionEvent::Binary(b) => EventView::Binary(b@),
            SessionEvent::NoReply => EventView::NoReply,
            SessionEvent::ChannelClosed => EventView::ChannelClosed,
        }
    }
}

impl View for Action {
    type V = ActionView;

    open spec fn view(&self) -> ActionView {
        match self {
            Action::Nothing => ActionView::Nothing,
            Action::SendText(t) => ActionView::SendText(t@),
            Action::SendBinary(b) => ActionView::SendBinary(b@),
            Action::Close => ActionView::Close,
        }
    }
}

/// The little-endian unsigned integer in bytes `4 * i` to `4 * i + 3` of `b`.
pub open spec fn le_word(b: Seq<u8>, i: int) -> int {
    b[4 * i] + 256 * b[4 * i + 1] + 65536 * b[4 * i + 2] + 16777216 * b[4 * i + 3]
}

/// The instance numbers a browser sent: one little-endian 32-bit word per
/// four bytes; nothing when the length is not a multiple of four.
pub open spec fn decoded_indices(b: Seq<u8>) -> Option<Seq<u32>> {
    if b.len() % 4 == 0 {
        Some(Seq::new(b.len() / 4, |i: int| le_word(b, i) as u32))
    } else {
        None
    }
}

/// Decodes the instance numbers a browser sent; see [`decoded_indices`].
pub fn decode_indices(b: &[u8]) -> (r: Option<Vec<u32>>)
    ensures
        match r {
            Some(v) => decoded_indices(b@) == Some(v@),
            None => decoded_indices(b@) is None,
        },
{
    if b.len() % 4 != 0 {
        return None;
    }
    let len = b.len();
    let n = len / 4;
    let mut v: Vec<u32> = Vec::new();
    let mut i: usize = 0;
    while i < n
        invariant
            len == b@.len(),
            n == b@.len() / 4,
            b@.len() % 4 == 0,
            i <= n,
            v@.len() == i,
            forall|j: int| 0 <= j < i ==> v@[j] == le_word(b@, j) as u32,
        decreases n - i,
    {
        let k = 4 * i;
        let w: u32 = b[k] as u32 + (b[k + 1] as u32) * 256 + (b[k + 2] as u32) * 65536 + (b[k
            + 3] as u32) * 16777216;
        v.push(w);
        i = i + 1;
    }
    assert(v@ =~= Seq::new(b@.len() / 4, |i: int| le_word(b@, i) as u32));
    Some(v)
}

/// The ledger change a step asks for: the endpoint whose pending queue is
/// replaced, and the new queue.
pub type PendingUpdate = Option<(Seq<char>, Seq<u32>)>;

/// One step of a session whose templates carry `extension`: from `phase` and
/// `event`, the next phase, what to send, and the ledger change.
///
/// A published change is first probed with [`PING`]; once the probe is sent,
/// a template change is announced by its endpoint and any other change by a
/// single zero byte. After an announcement the browser's text reply
/// [`FULL_RELOAD`] ends the session; any other reply leads to waiting for the
/// live instances, whose well-formed list replaces the endpoint's pending
/// queue. A failed send ends the session, as does the end of the published
/// changes. An event the phase does not wait for changes nothing.
pub open spec fn transition(phase: PhaseView, event: EventView, extension: Seq<char>) -> (
    PhaseView,
    ActionView,
    PendingUpdate,
) {
    let unchanged = (phase, ActionView::Nothing, None);
    match phase {
        PhaseView::Closed => unchanged,
        _ => match event {
            EventView::SendFailed => (PhaseView::Closed, ActionView::Nothing, None),
            EventView::ChannelClosed => (PhaseView::Closed, ActionView::Close, None),
            _ => match phase {
                PhaseView::Idle => match event {
                    EventView::Published(path) => (
                        PhaseView::Probing(path),
                        ActionView::SendText(PING@),
                        None,
                    ),
                    _ => unchanged,
                },
                PhaseView::Probing(path) => match event {
                    EventView::Sent => if ends_with(path, extension) {
                        let endpoint = endpoint_of_file(path, extension);
                        (PhaseView::AwaitingAck(endpoint), ActionView::SendText(endpoint), None)
                    } else {
                        (PhaseView::Idle, ActionView::SendBinary(seq![0u8]), None)
                    },
                    _ => unchanged,
                },
                PhaseView::AwaitingAck(endpoint) => match event {
                    EventView::Text(t) => if t == FULL_RELOAD@ {
                        (PhaseView::Closed, ActionView::Close, None)
                    } else {
                        (PhaseView::AwaitingIndices(endpoint), ActionView::Nothing, None)
                    },
                    EventView::Binary(_) => (
                        PhaseView::AwaitingIndices(endpoint),
                        ActionView::Nothing,
                        None,
                    ),
                    EventView::NoReply => (
                        PhaseView::AwaitingIndices(endpoint),
                        ActionView::Nothing,
                        None,
                    ),
                    _ => unchanged,
                },
                PhaseView::AwaitingIndices(endpoint) => match event {
                    EventView::Binary(b) => match decoded_indices(b) {
                        Some(ids) => (PhaseView::Idle, ActionView::Nothing, Some((endpoint, ids))),
                        None => (PhaseView::Idle, ActionView::Nothing, None),
                    },
                    EventView::Text(_) => (PhaseView::Idle, ActionView::Nothing, None),
                    EventView::NoReply => (PhaseView::Idle, ActionView::Nothing, None),
                    _ => unchanged,
                },
                _ => unchanged,
            },
        },
    }
}

/// The ledger after `update` for `client`.
pub open spec fn updated_ledger(
    m: Map<LedgerKey, HistoryView>,
    client: Seq<char>,
    update: PendingUpdate,
) -> Map<LedgerKey, HistoryView> {
    match update {
        Some((endpoint, ids)) => m.insert(
            (client, endpoint),
            with_pending(history_or_empty(m, (client, endpoint)), ids),
        ),
        None => m,
    }
}

/// The reload session of one browser connection.
#[derive(Debug)]
pub struct Session {
    /// The identity of the connected client.
    pub client: String,
    /// The extension that marks template files.
    pub extension: String,
    /// Where the session stands.
    pub state: SessionState,
}

impl Session {
    /// A new session, waiting for the first change.
    pub fn new(client: String, extension: String) -> (r: Session)
        ensures
            r.client == client,
            r.extension == extension,
            r.state@ == PhaseView::Idle,
    {
        Session { client, extension, state: SessionState::Idle }
    }

    /// Whether the session is over.
    pub fn is_closed(&self) -> (r: bool)
        ensures
            r == (self.state@ is Closed),
    {
        match self.state {
            SessionState::Closed => true,
            _ => false,
        }
    }

    /// Takes one event; see [`transition`]. Updates `ledger` as the step asks
    /// and gives what to send.
    pub fn step(&mut self, ledger: &mut FormLedger, event: SessionEvent) -> (r: Action)
        requires
            old(ledger).well_formed(),
        ensures
            final(ledger).well_formed(),
            final(self).client == old(self).client,
            final(self).extension == old(self).extension,
            ({
                let (phase, action, update) = transition(
                    old(self).state@,
                    event@,
                    old(self).extension@,
                );
                &&& final(self).state@ == phase
                &&& r@ == action
                &&& final(ledger)@ == updated_ledger(old(ledger)@, old(self).client@, update)
            }),
    {
        let mut state = SessionState::Closed;
        std::mem::swap(&mut state, &mut self.state);
        match state {
            SessionState::Closed => {
                return Action::Nothing;
            },
            _ => {},
        }
        match event {
            SessionEvent::SendFailed => {
                return Action::Nothing;
            },
            SessionEvent::ChannelClosed => {
                return Action::Close;
            },
            _ => {},
        }
        match state {
            SessionState::Idle => match event {
                SessionEvent::Published(path) => {
                    self.state = SessionState::Probing { path };
                    Action::SendText(PING.to_owned())
                },
                _ => {
                    self.state = SessionState::Idle;
                    Action::Nothing
                },
            },
            SessionState::Probing { path } => match event {
                SessionEvent::Sent => {
                    if str_ends_with(path.as_str(), self.extension.as_str()) {
                        let endpoint = endpoint_for_file(path.as_str(), self.extension.as_str());
                        let announced = endpoint.clone();
                        self.state = SessionState::AwaitingAck { endpoint };
                        Action::SendText(announced)
                    } else {
                        self.state = SessionState::Idle;
                        let marker = vec![0u8];
                        assert(marker@ =~= seq![0u8]);
                        Action::SendBinary(marker)
                    }
                },
                _ => {
                    self.state = SessionState::Probing { path };
                    Action::Nothing
                },
            },
            SessionState::AwaitingAck { endpoint } => match event {
                SessionEvent::Text(t) => {
                    if str_equal(t.as_str(), FULL_RELOAD) {
                        Action::Close
                    } else {
                        self.state = SessionState::AwaitingIndices { endpoint };
                        Action::Nothing
                    }
                },
                SessionEvent::Binary(_) | SessionEvent::NoReply => {
                    self.state = SessionState::AwaitingIndices { endpoint };
                    Action::Nothing
                },
                _ => {
                    self.state = SessionState::AwaitingAck { endpoint };
                    Action::Nothing
                },
            },
            SessionState::AwaitingIndices { endpoint } => match event {
                SessionEvent::Binary(b) => {
                    match decode_indices(b.as_slice()) {
                        Some(ids) => {
                            ledger.set_pending(self.client.as_str(), endpoint.as_str(), &ids);
                        },
                        None => {},
                    }
                    self.state = SessionState::Idle;
                    Action::Nothing
                },
                SessionEvent::Text(_) | SessionEvent::NoReply => {
                    self.state = SessionState::Idle;
                    Action::Nothing
                },
                _ => {
                    self.state = SessionState::AwaitingIndices { endpoint };
                    Action::Nothing
                },
            },
            SessionState::Closed => Action::Nothing,
        }
    }
}

/// A browser that asks for a full reload in answer to an announcement ends
/// its session, and the ledger is left as it was.
pub proof fn lemma_full_reload_short_circuits(
    endpoint: Seq<char>,
    reply: Seq<char>,
    extension: Seq<char>,
    m: Map<LedgerKey, HistoryView>,
    client: Seq<char>,
)
    requires
        reply == FULL_RELOAD@,
    ensures
        ({
            let (phase, action, update) = transition(
                PhaseView::AwaitingAck(endpoint),
                EventView::Text(reply),
                extension,
            );
            &&& phase is Closed
            &&& action is Close
            &&& updated_ledger(m, client, update) == m
        }),
{
}

/// A failed send ends only the session it happened in: that session is
/// closed, the ledger is left as it was, and so any other client's
/// classification on it comes out as it would have without the failure.
pub proof fn lemma_connection_isolation(
    phase: PhaseView,
    extension: Seq<char>,
    m: Map<LedgerKey, HistoryView>,
    client: Seq<char>,
    other: LedgerKey,
    submitted: FormView,
)
    requires
        !(phase is Closed),
    ensures
        ({
            let (next, action, update) = transition(phase, EventView::SendFailed, extension);
            let after = updated_ledger(m, client, update);
            &&& next is Closed
            &&& after == m
            &&& classified(history_or_empty(after, other), submitted)
                == classified(history_or_empty(m, other), submitted)
        }),
{
}

/// A whole reload round: a template change is probed and announced by its
/// endpoint; a browser that answers anything but [`FULL_RELOAD`] and then
/// lists its live instances gets them queued for that endpoint, the session
/// goes back to waiting, and the next submission on the endpoint is matched
/// to the first listed instance.
pub proof fn lemma_reload_round(
    path: Seq<char>,
    extension: Seq<char>,
    reply: Seq<char>,
    bytes: Seq<u8>,
    m: Map<LedgerKey, HistoryView>,
    client: Seq<char>,
    submitted: FormView,
)
    requires
        ends_with(path, extension),
        reply != FULL_RELOAD@,
        decoded_indices(bytes) matches Some(ids) && ids.len() > 0 && ids[0] < history_or_empty(
            m,
            (client, endpoint_of_file(path, extension)),
        ).contents.len(),
    ensures
        ({
            let endpoint = endpoint_of_file(path, extension);
            let ids = decoded_indices(bytes)->Some_0;
            let (probing, ping, no_update) = transition(PhaseView::Idle, EventView::Published(path), extension);
            let (announced, announce, no_update2) = transition(probing, EventView::Sent, extension);
            let (listing, quiet, no_update3) = transition(announced, EventView::Text(reply), extension);
            let (done, quiet2, update) = transition(listing, EventView::Binary(bytes), extension);
            let after = updated_ledger(m, client, update);
            &&& ping == ActionView::SendText(PING@)
            &&& announce == ActionView::SendText(endpoint)
            &&& no_update is None && no_update2 is None && no_update3 is None
            &&& done is Idle
            &&& after[(client, endpoint)].pending == ids
            &&& classified(history_or_empty(after, (client, endpoint)), submitted).1
                == history_or_empty(m, (client, endpoint)).contents[ids[0] as int]
        }),
{
}

} // verus!
