use crate::err::ClockerError;
use vstd::prelude::*;
use vstd::utf8::{decode_utf8, decode_utf8_encode_utf8, encode_utf8, valid_utf8};

verus! {

/// How many bytes the single read of a connection asks for.
pub const READ_CAPACITY: usize = 4096;

/// Where one connection stands in its handshake, read, write sequence.
pub enum ConnState {
    Accepted,
    Handshaking,
    Reading,
    Writing { message: String },
    Closed,
    Errored,
}

/// What the transport reports back after an action was performed.
pub enum ConnEvent {
    /// The connection was handed to its own task.
    Start,
    HandshakeDone,
    HandshakeFailed,
    ReadDone { bytes: Vec<u8> },
    ReadFailed,
    /// All of the requested bytes, or only `written` of them, went out.
    WriteDone { written: usize },
    WriteFailed,
}

/// How a connection ended, for the log line that closes it.
pub enum Outcome {
    Echoed { message: String, success: bool },
    Failed { error: ClockerError },
}

/// What the transport is asked to do next.
pub enum ConnAction {
    Handshake,
    Read { capacity: usize },
    Write { bytes: Vec<u8> },
    Report { outcome: Outcome },
    /// The event does not belong to the current state: nothing is done.
    Ignore,
}

/// The mathematical model of a `ConnState`.
pub enum StateView {
    Accepted,
    Handshaking,
    Reading,
    Writing { message: Seq<char> },
    Closed,
    Errored,
}

/// The mathematical model of a `ConnEvent`.
pub enum EventView {
    Start,
    HandshakeDone,
    HandshakeFailed,
    ReadDone { bytes: Seq<u8> },
    ReadFailed,
    WriteDone { written: nat },
    WriteFailed,
}

/// The mathematical model of an `Outcome`.
pub enum OutcomeView {
    Echoed { message: Seq<char>, success: bool },
    Failed { error: ClockerError },
}

/// The mathematical model of a `ConnAction`.
pub enum ActionView {
    Handshake,
    Read { capacity: nat },
    Write { bytes: Seq<u8> },
    Report { outcome: OutcomeView },
    Ignore,
}

impl View for ConnState {
    type V = StateView;

    open spec fn view(&self) -> StateView {
        match self {
            ConnState::Accepted => StateView::Accepted,
            ConnState::Handshaking => StateView::Handshaking,
            ConnState::Reading => StateView::Reading,
            ConnState::Writing { message } => StateView::Writing { message: message@ },
            ConnState::Closed => StateView::Closed,
            ConnState::Errored => StateView::Errored,
        }
    }
}

impl View for ConnEvent {
    type V = EventView;

    open spec fn view(&self) -> EventView {
        match self {
            ConnEvent::Start => EventView::Start,
            ConnEvent::HandshakeDone => EventView::HandshakeDone,
            ConnEvent::HandshakeFailed => EventView::HandshakeFailed,
            ConnEvent::ReadDone { bytes } => EventView::ReadDone { bytes: bytes@ },
            ConnEvent::ReadFailed => EventView::ReadFailed,
            ConnEvent::WriteDone { written } => EventView::WriteDone { written: *written as nat },
            ConnEvent::WriteFailed => EventView::WriteFailed,
        }
    }
}

impl View for Outcome {
    type V = OutcomeView;

    open spec fn view(&self) -> OutcomeView {
        match self {
            Outcome::Echoed { message, success } => OutcomeView::Echoed {
                message: message@,
                success: *success,
            },
            Outcome::Failed { error } => OutcomeView::Failed { error: *error },
        }
    }
}

impl View for ConnAction {
    type V = ActionView;

    open spec fn view(&self) -> ActionView {
        match self {
            ConnAction::Handshake => ActionView::Handshake,
            ConnAction::Read { capacity } => ActionView::Read { capacity: *capacity as nat },
            ConnAction::Write { bytes } => ActionView::Write { bytes: bytes@ },
            ConnAction::Report { outcome } => ActionView::Report { outcome: outcome@ },
            ConnAction::Ignore => ActionView::Ignore,
        }
    }
}

/// One transition of a connection: the next state and what the transport
/// must do. An event that does not belong to the state changes nothing.
pub open spec fn next(s: StateView, e: EventView) -> (StateView, ActionView) {
    match (s, e) {
        (StateView::Accepted, EventView::Start) => (StateView::Handshaking, ActionView::Handshake),
        (StateView::Handshaking, EventView::HandshakeDone) => (
            StateView::Reading,
            ActionView::Read { capacity: READ_CAPACITY as nat },
        ),
        (StateView::Handshaking, EventView::HandshakeFailed) => (
            StateView::Errored,
            ActionView::Report { outcome: OutcomeView::Failed { error: ClockerError::Handshake } },
        ),
        (StateView::Reading, EventView::ReadDone { bytes }) => if valid_utf8(bytes) {
            (
                StateView::Writing { message: decode_utf8(bytes) },
                ActionView::Write { bytes },
            )
        } else {
            (
                StateView::Errored,
                ActionView::Report {
                    outcome: OutcomeView::Failed { error: ClockerError::UnexpectedFromUtf },
                },
            )
        },
        (StateView::Reading, EventView::ReadFailed) => (
            StateView::Errored,
            ActionView::Report { outcome: OutcomeView::Failed { error: ClockerError::UnexpectedIO } },
        ),
        (StateView::Writing { message }, EventView::WriteDone { written }) => (
            StateView::Closed,
            ActionView::Report {
                outcome: OutcomeView::Echoed {
                    message,
                    success: written == encode_utf8(message).len(),
                },
            },
        ),
        (StateView::Writing { message }, EventView::WriteFailed) => (
            StateView::Closed,
            ActionView::Report { outcome: OutcomeView::Echoed { message, success: false } },
        ),
        _ => (s, ActionView::Ignore),
    }
}

/// The states and actions that a sequence of events leads through, from `s`.
pub open spec fn run(s: StateView, events: Seq<EventView>) -> (StateView, Seq<ActionView>)
    decreases events.len(),
{
    if events.len() == 0 {
        (s, seq![])
    } else {
        let (s1, a) = next(s, events[0]);
        let (s2, rest) = run(s1, events.drop_first());
        (s2, seq![a] + rest)
    }
}

/// A state in which the connection is over.
pub open spec fn is_terminal(s: StateView) -> bool {
    s is Closed || s is Errored
}

/// Once a connection is over, no event moves it and no action is asked for.
pub proof fn lemma_finished_is_final(s: StateView, events: Seq<EventView>)
    requires
        is_terminal(s),
    ensures
        run(s, events).0 == s,
        run(s, events).1 == Seq::new(events.len(), |i: int| ActionView::Ignore),
    decreases events.len(),
{
    if events.len() > 0 {
        lemma_finished_is_final(s, events.drop_first());
        assert(run(s, events).1 =~= Seq::new(events.len(), |i: int| ActionView::Ignore));
    }
}

/// A connection's outcome is reported exactly when it ends: a step reports
/// if and only if it moves a live connection into a final state.
pub proof fn lemma_report_exactly_on_termination(s: StateView, e: EventView)
    ensures
        next(s, e).1 is Report <==> (!is_terminal(s) && is_terminal(next(s, e).0)),
{
}

/// Whether a Read may still come from state `s`.
pub open spec fn may_read(s: StateView) -> bool {
    s is Accepted || s is Handshaking
}

/// Whether a Write may still come from state `s`.
pub open spec fn may_write(s: StateView) -> bool {
    s is Accepted || s is Handshaking || s is Reading
}

proof fn lemma_step_order(s: StateView, e: EventView)
    ensures
        next(s, e).1 is Read ==> s is Handshaking && next(s, e).0 is Reading,
        next(s, e).1 is Write ==> s is Reading && next(s, e).0 is Writing,
        next(s, e).1 is Handshake ==> s is Accepted && next(s, e).0 is Handshaking,
        !may_read(s) ==> !may_read(next(s, e).0),
        !may_write(s) ==> !may_write(next(s, e).0),
        s is Accepted ==> next(s, e).0 is Accepted || next(s, e).1 is Handshake,
        s is Handshaking ==> next(s, e).0 is Handshaking || next(s, e).1 is Read || next(
            s,
            e,
        ).0 is Errored,
{
}

proof fn lemma_run_unfold(s: StateView, events: Seq<EventView>)
    requires
        events.len() > 0,
    ensures
        ({
            let acts = run(s, events).1;
            let rest = run(next(s, events[0]).0, events.drop_first()).1;
            &&& acts.len() == rest.len() + 1
            &&& acts[0] == next(s, events[0]).1
            &&& forall|k: int| 1 <= k < acts.len() ==> #[trigger] acts[k] == rest[k - 1]
        }),
{
    let (s1, a) = next(s, events[0]);
    let rest = run(s1, events.drop_first()).1;
    assert(run(s, events).1 == seq![a] + rest);
}

proof fn lemma_no_more_reads(s: StateView, events: Seq<EventView>)
    requires
        !may_read(s),
    ensures
        forall|i: int| 0 <= i < run(s, events).1.len() ==> !(#[trigger] run(s, events).1[i] is Read),
    decreases events.len(),
{
    if events.len() > 0 {
        lemma_step_order(s, events[0]);
        lemma_no_more_reads(next(s, events[0]).0, events.drop_first());
        lemma_run_unfold(s, events);
    }
}

proof fn lemma_no_more_writes(s: StateView, events: Seq<EventView>)
    requires
        !may_write(s),
    ensures
        forall|i: int| 0 <= i < run(s, events).1.len() ==> !(#[trigger] run(s, events).1[i] is Write),
    decreases events.len(),
{
    if events.len() > 0 {
        lemma_step_order(s, events[0]);
        lemma_no_more_writes(next(s, events[0]).0, events.drop_first());
        lemma_run_unfold(s, events);
    }
}

proof fn lemma_reads_once(s: StateView, events: Seq<EventView>)
    ensures
        ({
            let acts = run(s, events).1;
            forall|i: int, j: int| 0 <= i < j < acts.len() ==> !(#[trigger] acts[i] is Read && #[trigger] acts[j] is Read)
        }),
    decreases events.len(),
{
    if events.len() > 0 {
        let s1 = next(s, events[0]).0;
        let rest = run(s1, events.drop_first()).1;
        let acts = run(s, events).1;
        lemma_step_order(s, events[0]);
        lemma_run_unfold(s, events);
        lemma_reads_once(s1, events.drop_first());
        if acts[0] is Read {
            lemma_no_more_reads(s1, events.drop_first());
        }
        assert forall|i: int, j: int| 0 <= i < j < acts.len() implies !(#[trigger] acts[i] is Read && #[trigger] acts[j] is Read) by {
            if i > 0 {
                assert(acts[i] == rest[i - 1] && acts[j] == rest[j - 1]);
            } else {
                assert(acts[j] == rest[j - 1]);
            }
        }
    }
}

proof fn lemma_writes_once(s: StateView, events: Seq<EventView>)
    ensures
        ({
            let acts = run(s, events).1;
            forall|i: int, j: int| 0 <= i < j < acts.len() ==> !(#[trigger] acts[i] is Write && #[trigger] acts[j] is Write)
        }),
    decreases events.len(),
{
    if events.len() > 0 {
        let s1 = next(s, events[0]).0;
        let rest = run(s1, events.drop_first()).1;
        let acts = run(s, events).1;
        lemma_step_order(s, events[0]);
        lemma_run_unfold(s, events);
        lemma_writes_once(s1, events.drop_first());
        if acts[0] is Write {
            lemma_no_more_writes(s1, events.drop_first());
        }
        assert forall|i: int, j: int| 0 <= i < j < acts.len() implies !(#[trigger] acts[i] is Write && #[trigger] acts[j] is Write) by {
            if i > 0 {
                assert(acts[i] == rest[i - 1] && acts[j] == rest[j - 1]);
            } else {
                assert(acts[j] == rest[j - 1]);
            }
        }
    }
}

proof fn lemma_write_after_read(s: StateView, events: Seq<EventView>)
    requires
        may_read(s),
    ensures
        ({
            let acts = run(s, events).1;
            forall|j: int| 0 <= j < acts.len() && #[trigger] acts[j] is Write ==>
                exists|i: int| 0 <= i < j && #[trigger] acts[i] is Read
        }),
    decreases events.len(),
{
    if events.len() > 0 {
        let s1 = next(s, events[0]).0;
        let rest = run(s1, events.drop_first()).1;
        let acts = run(s, events).1;
        lemma_step_order(s, events[0]);
        lemma_run_unfold(s, events);
        if may_read(s1) {
            lemma_write_after_read(s1, events.drop_first());
        } else if !may_write(s1) {
            lemma_no_more_writes(s1, events.drop_first());
        }
        assert forall|j: int| 0 <= j < acts.len() && #[trigger] acts[j] is Write implies
            exists|i: int| 0 <= i < j && #[trigger] acts[i] is Read by {
            assert(j > 0);
            assert(acts[j] == rest[j - 1]);
            if may_read(s1) {
                let i = choose|i: int| 0 <= i < j - 1 && #[trigger] rest[i] is Read;
                assert(acts[i + 1] == rest[i]);
            } else {
                assert(acts[0] is Read);
            }
        }
    }
}

proof fn lemma_read_after_handshake(s: StateView, events: Seq<EventView>)
    requires
        s is Accepted,
    ensures
        ({
            let acts = run(s, events).1;
            forall|j: int| 0 <= j < acts.len() && #[trigger] acts[j] is Read ==>
                exists|i: int| 0 <= i < j && #[trigger] acts[i] is Handshake
        }),
    decreases events.len(),
{
    if events.len() > 0 {
        let s1 = next(s, events[0]).0;
        let rest = run(s1, events.drop_first()).1;
        let acts = run(s, events).1;
        lemma_step_order(s, events[0]);
        lemma_run_unfold(s, events);
        if s1 is Accepted {
            lemma_read_after_handshake(s1, events.drop_first());
        }
        assert forall|j: int| 0 <= j < acts.len() && #[trigger] acts[j] is Read implies
            exists|i: int| 0 <= i < j && #[trigger] acts[i] is Handshake by {
            assert(j > 0);
            assert(acts[j] == rest[j - 1]);
            if s1 is Accepted {
                let i = choose|i: int| 0 <= i < j - 1 && #[trigger] rest[i] is Handshake;
                assert(acts[i + 1] == rest[i]);
            } else {
                assert(acts[0] is Handshake);
            }
        }
    }
}

/// Whatever the transport reports, a connection asks for at most one read
/// and at most one write, and in order: the handshake before the read, the
/// read before the write.
pub proof fn lemma_one_read_one_write(events: Seq<EventView>)
    ensures
        ({
            let acts = run(StateView::Accepted, events).1;
            &&& forall|i: int, j: int| 0 <= i < j < acts.len() ==> !(#[trigger] acts[i] is Read && #[trigger] acts[j] is Read)
            &&& forall|i: int, j: int| 0 <= i < j < acts.len() ==> !(#[trigger] acts[i] is Write && #[trigger] acts[j] is Write)
            &&& forall|j: int| 0 <= j < acts.len() && #[trigger] acts[j] is Write ==>
                exists|i: int| 0 <= i < j && #[trigger] acts[i] is Read
            &&& forall|j: int| 0 <= j < acts.len() && #[trigger] acts[j] is Read ==>
                exists|i: int| 0 <= i < j && #[trigger] acts[i] is Handshake
        }),
{
    lemma_reads_once(StateView::Accepted, events);
    lemma_writes_once(StateView::Accepted, events);
    lemma_write_after_read(StateView::Accepted, events);
    lemma_read_after_handshake(StateView::Accepted, events);
}

/// A client that sends valid UTF-8 of at most the read capacity after the
/// handshake gets exactly those bytes back, and the connection is reported
/// as a successful echo of the decoded text.
pub proof fn lemma_echo_round_trip(bytes: Seq<u8>)
    requires
        valid_utf8(bytes),
        bytes.len() <= READ_CAPACITY,
    ensures
        run(
            StateView::Accepted,
            seq![
                EventView::Start,
                EventView::HandshakeDone,
                EventView::ReadDone { bytes },
                EventView::WriteDone { written: bytes.len() },
            ],
        ) == (
            StateView::Closed,
            seq![
                ActionView::Handshake,
                ActionView::Read { capacity: READ_CAPACITY as nat },
                ActionView::Write { bytes },
                ActionView::Report {
                    outcome: OutcomeView::Echoed { message: decode_utf8(bytes), success: true },
                },
            ],
        ),
{
    decode_utf8_encode_utf8(bytes);
    let events = seq![
        EventView::Start,
        EventView::HandshakeDone,
        EventView::ReadDone { bytes },
        EventView::WriteDone { written: bytes.len() },
    ];
    let e1 = events.drop_first();
    let e2 = e1.drop_first();
    let e3 = e2.drop_first();
    let e4 = e3.drop_first();
    assert(e4.len() == 0);
    assert(e3 =~= seq![EventView::WriteDone { written: bytes.len() }]);
    assert(e2 =~= seq![EventView::ReadDone { bytes }, EventView::WriteDone { written: bytes.len() }]);
    let msg = decode_utf8(bytes);
    let report = ActionView::Report { outcome: OutcomeView::Echoed { message: msg, success: true } };
    assert(run(StateView::Closed, e4) == (StateView::Closed, Seq::<ActionView>::empty()));
    assert(run(StateView::Writing { message: msg }, e3).1 =~= seq![report]);
    assert(run(StateView::Reading, e2).1 =~= seq![ActionView::Write { bytes }, report]);
    assert(run(StateView::Handshaking, e1).1 =~= seq![
        ActionView::Read { capacity: READ_CAPACITY as nat },
        ActionView::Write { bytes },
        report,
    ]);
    assert(run(StateView::Accepted, events).1 =~= seq![
        ActionView::Handshake,
        ActionView::Read { capacity: READ_CAPACITY as nat },
        ActionView::Write { bytes },
        report,
    ]);
}

/// A client whose message is not valid UTF-8 gets no response: the
/// connection fails with a decode error, and whatever the transport reports
/// afterwards, nothing is ever written to it.
pub proof fn lemma_invalid_utf8_is_never_echoed(bytes: Seq<u8>, later: Seq<EventView>)
    requires
        !valid_utf8(bytes),
    ensures
        ({
            let (s, actions) = run(
                StateView::Accepted,
                seq![EventView::Start, EventView::HandshakeDone, EventView::ReadDone { bytes }] + later,
            );
            &&& s == StateView::Errored
            &&& actions[2] == ActionView::Report {
                outcome: OutcomeView::Failed { error: ClockerError::UnexpectedFromUtf },
            }
            &&& forall|i: int| 0 <= i < actions.len() ==> !(#[trigger] actions[i] is Write)
        }),
{
    let events = seq![EventView::Start, EventView::HandshakeDone, EventView::ReadDone { bytes }] + later;
    let e1 = events.drop_first();
    let e2 = e1.drop_first();
    let e3 = e2.drop_first();
    assert(e3 =~= later);
    assert(e2[0] == EventView::ReadDone { bytes });
    assert(e1[0] == EventView::HandshakeDone);
    lemma_finished_is_final(StateView::Errored, later);
    let failed = ActionView::Report {
        outcome: OutcomeView::Failed { error: ClockerError::UnexpectedFromUtf },
    };
    let ignores = Seq::new(later.len(), |i: int| ActionView::Ignore);
    assert(run(StateView::Reading, e2).1 =~= seq![failed] + ignores);
    assert(run(StateView::Handshaking, e1).1 =~= seq![ActionView::Read { capacity: READ_CAPACITY as nat }, failed] + ignores);
    let actions = run(StateView::Accepted, events).1;
    assert(actions =~= seq![ActionView::Handshake, ActionView::Read { capacity: READ_CAPACITY as nat }, failed] + ignores);
}

/// Relies on String::from_utf8: it succeeds exactly when the bytes are valid
/// UTF-8, and the string then holds the characters they encode.
#[verifier::external_body]
fn decode_message(bytes: Vec<u8>) -> (r: Option<String>)
    ensures
        r is Some <==> valid_utf8(bytes@),
        r matches Some(s) ==> s@ == decode_utf8(bytes@),
{
    String::from_utf8(bytes).ok()
}

impl ConnState {
    /// The state of a connection that was just accepted.
    pub fn new() -> (r: ConnState)
        ensures
            r@ == StateView::Accepted,
    {
        ConnState::Accepted
    }

    /// Whether the connection is over.
    pub fn is_finished(&self) -> (r: bool)
        ensures
            r == is_terminal(self@),
    {
        match self {
            ConnState::Closed | ConnState::Errored => true,
            _ => false,
        }
    }

    /// Takes one event of the transport and gives the next state and the
    /// action to perform.
    pub fn step(self, event: ConnEvent) -> (r: (ConnState, ConnAction))
        ensures
            (r.0@, r.1@) == next(self@, event@),
    {
        match (self, event) {
            (ConnState::Accepted, ConnEvent::Start) => (ConnState::Handshaking, ConnAction::Handshake),
            (ConnState::Handshaking, ConnEvent::HandshakeDone) => (
                ConnState::Reading,
                ConnAction::Read { capacity: READ_CAPACITY },
            ),
            (ConnState::Handshaking, ConnEvent::HandshakeFailed) => (
                ConnState::Errored,
                ConnAction::Report { outcome: Outcome::Failed { error: ClockerError::Handshake } },
            ),
            (ConnState::Reading, ConnEvent::ReadDone { bytes }) => {
                match decode_message(bytes) {
                    Some(message) => {
                        let echoed: Vec<u8> = message.as_str().as_bytes_vec();
                        proof {
                            decode_utf8_encode_utf8(event@->ReadDone_bytes);
                        }
                        (ConnState::Writing { message }, ConnAction::Write { bytes: echoed })
                    },
                    None => (
                        ConnState::Errored,
                        ConnAction::Report {
                            outcome: Outcome::Failed { error: ClockerError::UnexpectedFromUtf },
                        },
                    ),
                }
            },
            (ConnState::Reading, ConnEvent::ReadFailed) => (
                ConnState::Errored,
                ConnAction::Report { outcome: Outcome::Failed { error: ClockerError::UnexpectedIO } },
            ),
            (ConnState::Writing { message }, ConnEvent::WriteDone { written }) => {
                let success = written == message.as_str().as_bytes().len();
                (
                    ConnState::Closed,
                    ConnAction::Report { outcome: Outcome::Echoed { message, success } },
                )
            },
            (ConnState::Writing { message }, ConnEvent::WriteFailed) => (
                ConnState::Closed,
                ConnAction::Report { outcome: Outcome::Echoed { message, success: false } },
            ),
            (s, _) => (s, ConnAction::Ignore),
        }
    }
}

} // verus!
