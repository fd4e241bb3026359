//! One agent connection: starting it, and what to do on it next.

use crate::session::Request;
use crate::session::RequestView;
use crate::text::enclose;
use crate::update::stop_name;
use crate::update::StopReason;
use agent_client_protocol::AcpAgent;
use agent_client_protocol::Error as AcpError;
use std::str::FromStr;
use vstd::prelude::*;
use vstd::string::*;

verus! {

/// The agent of the protocol's client library: how to start its process. Nothing is known of
/// what is inside one.
#[verifier::external_type_specification]
#[verifier::external_body]
pub struct ExAcpAgent(AcpAgent);

/// The error of the protocol's client library. Nothing is known of what is inside one.
#[verifier::external_type_specification]
#[verifier::external_body]
pub struct ExAcpError(AcpError);

/// What `AcpAgent::from_str` makes of a command: the agent to start, or why it is none.
pub uninterp spec fn parsed_agent(command: Seq<char>) -> Result<AcpAgent, AcpError>;

/// `AcpAgent::from_str` reads a command line, or a description in JSON, and starts nothing.
/// The result depends on the command alone; which commands it takes is not stated.
#[verifier::external_body]
fn parse_agent(command: &str) -> (result: Result<AcpAgent, AcpError>)
    ensures
        result == parsed_agent(command@),
{
    AcpAgent::from_str(command)
}

/// How it reads that `command` is no agent, for a reason.
pub open spec fn launch_error_text(command: Seq<char>, reason: Seq<char>) -> Seq<char> {
    "could not launch agent `"@ + command + "`: "@ + reason
}

/// What to tell when `command` is no agent, for a reason.
pub fn launch_error(command: &str, reason: &str) -> (result: String)
    ensures
        result@ == launch_error_text(command@, reason@),
{
    let mut result = enclose("could not launch agent `", command, "`: ");
    result.append(reason);
    result
}

/// The agent that a command starts, or what to tell when it is none.
pub fn launch(command: &str) -> (result: Result<AcpAgent, String>)
    ensures
        match parsed_agent(command@) {
            Ok(agent) => result == Ok::<AcpAgent, String>(agent),
            Err(error) => {
                &&& result matches Err(message)
                &&& exists|reason: String|
                    #![trigger reason@]
                    to_string_from_display_ensures::<AcpError>(&error, reason) && message@
                        == launch_error_text(command@, reason@)
            },
        },
{
    match parse_agent(command) {
        Ok(agent) => Ok(agent),
        Err(error) => {
            let reason = error.to_string();
            let message = launch_error(command, reason.as_str());
            assert(to_string_from_display_ensures::<AcpError>(&error, reason) && message@
                == launch_error_text(command@, reason@));
            Err(message)
        },
    }
}

/// How the end of a connection reads on the status line.
pub fn farewell(result: &Result<(), String>) -> (message: String)
    ensures
        message@ == match *result {
            Ok(()) => "assist: agent disconnected"@,
            Err(error) => "assist: "@ + error@,
        },
{
    match result {
        Ok(()) => "assist: agent disconnected".to_owned(),
        Err(error) => {
            let mut message = "assist: ".to_owned();
            message.append(error.as_str());
            message
        },
    }
}

/// What the client offers the agent.
#[derive(Clone, Copy, Debug, PartialEq, Eq, Structural)]
pub struct Capabilities {
    pub read_text_file: bool,
    pub write_text_file: bool,
    pub terminal: bool,
}

/// What this client offers. An agent that is not offered the files will never ask for their
/// contents, and will read stale bytes off disk instead.
pub fn capabilities() -> (result: Capabilities)
    ensures
        result == (Capabilities { read_text_file: true, write_text_file: true, terminal: false }),
{
    Capabilities { read_text_file: true, write_text_file: true, terminal: false }
}

/// Where a connection is.
#[derive(Clone, Copy, Debug, PartialEq, Eq, Structural)]
pub enum Phase {
    /// Waiting for the answer to `initialize`.
    Initializing,
    /// Waiting for the answer to `session/new`.
    Opening,
    /// No turn is in flight.
    Idle,
    /// A turn is in flight: waiting for its end, and for requests meanwhile.
    Turn,
    /// The connection is over.
    Closed,
}

/// Something that a connection waited for.
pub enum Signal {
    /// The agent answered `initialize`.
    Initialized,
    /// The agent answered `session/new`.
    Opened,
    /// The next request out of the queue, or none if the session is gone.
    Queue(Option<Request>),
    /// The agent answered `session/prompt`: the turn is over.
    Answered(StopReason),
    /// The connection failed, and this is how the failure reads.
    Failed(String),
}

/// What a [`Signal`] says.
pub enum SignalView {
    Initialized,
    Opened,
    Queue(Option<RequestView>),
    Answered(Seq<char>),
    Failed(Seq<char>),
}

impl View for Signal {
    type V = SignalView;

    open spec fn view(&self) -> SignalView {
        match *self {
            Signal::Initialized => SignalView::Initialized,
            Signal::Opened => SignalView::Opened,
            Signal::Queue(Some(request)) => SignalView::Queue(Some(request@)),
            Signal::Queue(None) => SignalView::Queue(None),
            Signal::Answered(stop) => SignalView::Answered(stop_name(stop)),
            Signal::Failed(error) => SignalView::Failed(error@),
        }
    }
}

/// What to do on a connection before waiting again.
pub enum Action {
    /// Offer the agent these capabilities.
    Initialize(Capabilities),
    /// Ask the agent for a session.
    OpenSession,
    /// Nothing.
    Wait,
    /// Echo the message and send it as a prompt.
    StartTurn(String),
    /// Tell the agent to abandon the turn, and go on waiting for its end.
    NotifyCancel,
    /// Free the session, and note why the turn ended.
    EndTurn(StopReason),
    /// End the connection with this result.
    Finish(Result<(), String>),
}

/// What an [`Action`] does.
pub enum ActionView {
    Initialize(Capabilities),
    OpenSession,
    Wait,
    StartTurn(Seq<char>),
    NotifyCancel,
    EndTurn(Seq<char>),
    Finish(Result<(), Seq<char>>),
}

impl View for Action {
    type V = ActionView;

    open spec fn view(&self) -> ActionView {
        match *self {
            Action::Initialize(offer) => ActionView::Initialize(offer),
            Action::OpenSession => ActionView::OpenSession,
            Action::Wait => ActionView::Wait,
            Action::StartTurn(text) => ActionView::StartTurn(text@),
            Action::NotifyCancel => ActionView::NotifyCancel,
            Action::EndTurn(stop) => ActionView::EndTurn(stop_name(stop)),
            Action::Finish(Ok(())) => ActionView::Finish(Ok(())),
            Action::Finish(Err(error)) => ActionView::Finish(Err(error@)),
        }
    }
}

/// Whether a connection in this phase waits for such a signal.
pub open spec fn expects(phase: Phase, signal: SignalView) -> bool {
    match signal {
        SignalView::Initialized => phase == Phase::Initializing,
        SignalView::Opened => phase == Phase::Opening,
        SignalView::Queue(_) => phase == Phase::Idle || phase == Phase::Turn,
        SignalView::Answered(_) => phase == Phase::Turn,
        SignalView::Failed(_) => phase != Phase::Closed,
    }
}

/// Whether a connection in this phase waits for such a signal.
pub fn is_expected(phase: Phase, signal: &Signal) -> (result: bool)
    ensures
        result == expects(phase, signal@),
{
    match signal {
        Signal::Initialized => phase == Phase::Initializing,
        Signal::Opened => phase == Phase::Opening,
        Signal::Queue(_) => phase == Phase::Idle || phase == Phase::Turn,
        Signal::Answered(_) => phase == Phase::Turn,
        Signal::Failed(_) => phase != Phase::Closed,
    }
}

/// Where a connection goes on a signal, and what it does on the way.
pub open spec fn next(phase: Phase, signal: SignalView) -> (Phase, ActionView) {
    match signal {
        SignalView::Initialized => (Phase::Opening, ActionView::OpenSession),
        SignalView::Opened => (Phase::Idle, ActionView::Wait),
        SignalView::Queue(request) => if phase == Phase::Turn {
            match request {
                Some(RequestView::Cancel) => (Phase::Turn, ActionView::NotifyCancel),
                // A message that comes during a turn is dropped, and a queue that closed
                // gives nothing more.
                _ => (Phase::Turn, ActionView::Wait),
            }
        } else {
            match request {
                Some(RequestView::Prompt(text)) => (Phase::Turn, ActionView::StartTurn(text)),
                // A cancel with no turn in flight is a no-op.
                Some(RequestView::Cancel) => (Phase::Idle, ActionView::Wait),
                None => (Phase::Closed, ActionView::Finish(Ok(()))),
            }
        },
        SignalView::Answered(stop) => (Phase::Idle, ActionView::EndTurn(stop)),
        SignalView::Failed(error) => (Phase::Closed, ActionView::Finish(Err(error))),
    }
}

/// Begin a connection.
pub fn start() -> (result: (Phase, Action))
    ensures
        result.0 == Phase::Initializing,
        result.1@ == ActionView::Initialize(
            (Capabilities { read_text_file: true, write_text_file: true, terminal: false }),
        ),
{
    (Phase::Initializing, Action::Initialize(capabilities()))
}

/// Take a connection on by one signal.
///
/// During a turn the queue is still served, so that a cancel can reach the agent; the turn is
/// awaited to its end even after that.
pub fn step(phase: Phase, signal: Signal) -> (result: (Phase, Action))
    requires
        expects(phase, signal@),
    ensures
        (result.0, result.1@) == next(phase, signal@),
{
    match signal {
        Signal::Initialized => (Phase::Opening, Action::OpenSession),
        Signal::Opened => (Phase::Idle, Action::Wait),
        Signal::Queue(request) => match phase {
            Phase::Turn => match request {
                Some(Request::Cancel) => (Phase::Turn, Action::NotifyCancel),
                _ => (Phase::Turn, Action::Wait),
            },
            _ => match request {
                Some(Request::Prompt(text)) => (Phase::Turn, Action::StartTurn(text)),
                Some(Request::Cancel) => (Phase::Idle, Action::Wait),
                None => (Phase::Closed, Action::Finish(Ok(()))),
            },
        },
        Signal::Answered(stop) => (Phase::Idle, Action::EndTurn(stop)),
        Signal::Failed(error) => (Phase::Closed, Action::Finish(Err(error))),
    }
}

/// Whether each of the signals is one that the connection waits for when it comes.
pub open spec fn follows(phase: Phase, signals: Seq<SignalView>) -> bool
    decreases signals.len(),
{
    signals.len() > 0 ==> {
        &&& follows(phase, signals.drop_last())
        &&& expects(phase_after(phase, signals.drop_last()), signals.last())
    }
}

/// Where a connection is after the signals.
pub open spec fn phase_after(phase: Phase, signals: Seq<SignalView>) -> Phase
    decreases signals.len(),
{
    if signals.len() == 0 {
        phase
    } else {
        next(phase_after(phase, signals.drop_last()), signals.last()).0
    }
}

/// What a connection does on the signals.
pub open spec fn actions(phase: Phase, signals: Seq<SignalView>) -> Seq<ActionView>
    decreases signals.len(),
{
    if signals.len() == 0 {
        Seq::empty()
    } else {
        actions(phase, signals.drop_last()).push(
            next(phase_after(phase, signals.drop_last()), signals.last()).1,
        )
    }
}

/// How many of the actions start a turn.
pub open spec fn turns_started(actions: Seq<ActionView>) -> nat
    decreases actions.len(),
{
    if actions.len() == 0 {
        0
    } else {
        turns_started(actions.drop_last()) + if actions.last() is StartTurn {
            1nat
        } else {
            0nat
        }
    }
}

/// How many of the actions end a turn.
pub open spec fn turns_ended(actions: Seq<ActionView>) -> nat
    decreases actions.len(),
{
    if actions.len() == 0 {
        0
    } else {
        turns_ended(actions.drop_last()) + if actions.last() is EndTurn {
            1nat
        } else {
            0nat
        }
    }
}

/// Turns never overlap: as long as a connection lives, every turn that it started it also
/// ended, but for the one in flight.
pub proof fn law_turns_never_overlap(signals: Seq<SignalView>)
    requires
        follows(Phase::Initializing, signals),
        phase_after(Phase::Initializing, signals) != Phase::Closed,
    ensures
        ({
            let done = actions(Phase::Initializing, signals);
            turns_started(done) == turns_ended(done) + if phase_after(
                Phase::Initializing,
                signals,
            ) == Phase::Turn {
                1nat
            } else {
                0nat
            }
        }),
    decreases signals.len(),
{
    if signals.len() > 0 {
        let front = signals.drop_last();
        let done = actions(Phase::Initializing, signals);
        assert(done.drop_last() == actions(Phase::Initializing, front));
        law_turns_never_overlap(front);
    }
}

/// A cancel is told to the agent exactly when a turn is in flight, and never ends the wait
/// for that turn; with no turn in flight it does nothing.
pub proof fn law_cancel_reaches_a_turn_only(phase: Phase)
    requires
        expects(phase, SignalView::Queue(Some(RequestView::Cancel))),
    ensures
        next(phase, SignalView::Queue(Some(RequestView::Cancel))) == if phase == Phase::Turn {
            (Phase::Turn, ActionView::NotifyCancel)
        } else {
            (phase, ActionView::Wait)
        },
{
}

/// A turn ends only with the agent's answer or with the connection.
pub proof fn law_a_turn_waits_for_its_answer(signal: SignalView)
    requires
        expects(Phase::Turn, signal),
        next(Phase::Turn, signal).0 != Phase::Turn,
    ensures
        signal is Answered || signal is Failed,
{
}

/// A connection that is over waits for nothing more, and it ends with a result.
pub proof fn law_a_closed_connection_is_final(phase: Phase, signal: SignalView)
    ensures
        !expects(Phase::Closed, signal),
        expects(phase, signal) ==> (next(phase, signal).0 == Phase::Closed <==> next(
            phase,
            signal,
        ).1 is Finish),
{
}

/// Between turns a message starts the next turn, with exactly its text; during a turn no message
/// does, and the wait goes on.
pub proof fn law_a_message_starts_a_turn_between_turns(text: Seq<char>)
    ensures
        next(Phase::Idle, SignalView::Queue(Some(RequestView::Prompt(text)))) == (
            Phase::Turn,
            ActionView::StartTurn(text),
        ),
        next(Phase::Turn, SignalView::Queue(Some(RequestView::Prompt(text)))) == (
            Phase::Turn,
            ActionView::Wait,
        ),
{
}

/// A cancel during a turn is told to the agent and the turn goes on; between turns it does
/// nothing.
pub proof fn law_a_cancel_is_told_during_a_turn()
    ensures
        next(Phase::Turn, SignalView::Queue(Some(RequestView::Cancel))) == (
            Phase::Turn,
            ActionView::NotifyCancel,
        ),
        next(Phase::Idle, SignalView::Queue(Some(RequestView::Cancel))) == (
            Phase::Idle,
            ActionView::Wait,
        ),
{
}

/// The agent's answer ends the turn with the reason that it gave, and the connection waits for the
/// next message.
pub proof fn law_an_answer_ends_its_turn(stop: Seq<char>)
    ensures
        next(Phase::Turn, SignalView::Answered(stop)) == (Phase::Idle, ActionView::EndTurn(stop)),
{
}

/// A connection opens a session once the agent is initialized, and then waits. It ends well when
/// its session is gone between turns; during a turn it waits for the answer all the same. A failure
/// ends it at any time, with exactly that failure.
pub proof fn law_a_connection_opens_and_ends(phase: Phase, error: Seq<char>)
    ensures
        next(Phase::Initializing, SignalView::Initialized) == (
            Phase::Opening,
            ActionView::OpenSession,
        ),
        next(Phase::Opening, SignalView::Opened) == (Phase::Idle, ActionView::Wait),
        next(Phase::Idle, SignalView::Queue(None)) == (
            Phase::Closed,
            ActionView::Finish(Ok(())),
        ),
        next(Phase::Turn, SignalView::Queue(None)) == (Phase::Turn, ActionView::Wait),
        next(phase, SignalView::Failed(error)) == (
            Phase::Closed,
            ActionView::Finish(Err(error)),
        ),
{
}

/// What a connection waits for: an answer only while it is outstanding, a request only once there
/// is a session, a failure until the end.
pub proof fn law_a_connection_waits_for_what_is_outstanding(
    phase: Phase,
    stop: Seq<char>,
    request: Option<RequestView>,
)
    ensures
        expects(phase, SignalView::Initialized) <==> phase == Phase::Initializing,
        expects(phase, SignalView::Opened) <==> phase == Phase::Opening,
        expects(phase, SignalView::Queue(request)) <==> phase == Phase::Idle || phase
            == Phase::Turn,
        expects(phase, SignalView::Answered(stop)) <==> phase == Phase::Turn,
        expects(phase, SignalView::Failed(stop)) <==> phase != Phase::Closed,
{
}

/// That a command is no agent is told with the command and the reason, each as it is.
pub proof fn law_a_launch_error_names_command_and_reason(command: Seq<char>, reason: Seq<char>)
    ensures
        launch_error_text(command, reason) == "could not launch agent `"@ + command + "`: "@
            + reason,
{
}

/// A signal and an action read as what they are.
pub proof fn law_a_signal_reads_as_it_is(signal: Signal, action: Action)
    ensures
        signal is Initialized ==> signal@ == SignalView::Initialized,
        signal is Opened ==> signal@ == SignalView::Opened,
        signal matches Signal::Queue(Some(request)) ==> signal@ == SignalView::Queue(
            Some(request@),
        ),
        signal matches Signal::Queue(None) ==> signal@ == SignalView::Queue(None),
        signal matches Signal::Answered(stop) ==> signal@ == SignalView::Answered(stop_name(stop)),
        signal matches Signal::Failed(error) ==> signal@ == SignalView::Failed(error@),
        action matches Action::Initialize(offer) ==> action@ == ActionView::Initialize(offer),
        action is OpenSession ==> action@ == ActionView::OpenSession,
        action is Wait ==> action@ == ActionView::Wait,
        action matches Action::StartTurn(text) ==> action@ == ActionView::StartTurn(text@),
        action is NotifyCancel ==> action@ == ActionView::NotifyCancel,
        action matches Action::EndTurn(stop) ==> action@ == ActionView::EndTurn(stop_name(stop)),
        action matches Action::Finish(Ok(())) ==> action@ == ActionView::Finish(Ok(())),
        action matches Action::Finish(Err(error)) ==> action@ == ActionView::Finish(Err(error@)),
{
}

} // verus!
