//! The assist session: its transcript, its place in a turn, and the queue to its agent.

use crate::permission::option_views;
use crate::permission::PermissionOption;
use crate::permission::PermissionOptionView;
use tokio::sync::mpsc::UnboundedReceiver;
use tokio::sync::mpsc::UnboundedSender;
use vstd::prelude::*;
use vstd::string::*;

verus! {

/// The sending half of a tokio channel. Nothing is known of what is inside one.
#[verifier::external_type_specification]
#[verifier::external_body]
#[verifier::reject_recursive_types(T)]
pub struct ExUnboundedSender<T>(UnboundedSender<T>);

/// The receiving half of a tokio channel. Nothing is known of what is inside one.
#[verifier::external_type_specification]
#[verifier::external_body]
#[verifier::reject_recursive_types(T)]
pub struct ExUnboundedReceiver<T>(UnboundedReceiver<T>);

/// Work sent from the editor to the connection task.
pub enum Request {
    Prompt(String),
    Cancel,
}

/// What a [`Request`] asks for.
pub enum RequestView {
    Prompt(Seq<char>),
    Cancel,
}

impl View for Request {
    type V = RequestView;

    open spec fn view(&self) -> RequestView {
        match *self {
            Request::Prompt(text) => RequestView::Prompt(text@),
            Request::Cancel => RequestView::Cancel,
        }
    }
}

/// What became of a request that a session had to pass on.
pub enum Delivery {
    /// There was nothing to pass on.
    Ignored,
    /// The request is in the queue of the connection task.
    Queued,
    /// The connection task is gone. This is the request it was to get.
    Refused(Request),
}

/// The requests that went into a channel through this handle so far, the oldest first.
pub uninterp spec fn sent(tx: UnboundedSender<Request>) -> Seq<RequestView>;

/// Whether what goes into a channel through `tx` comes out of it at `rx`.
pub uninterp spec fn ends_in(
    tx: UnboundedSender<Request>,
    rx: UnboundedReceiver<Request>,
) -> bool;

/// Whether two handles put requests into one channel.
pub open spec fn same_channel(
    one: UnboundedSender<Request>,
    other: UnboundedSender<Request>,
) -> bool {
    forall|rx: UnboundedReceiver<Request>| #[trigger] ends_in(one, rx) == ends_in(other, rx)
}

/// `tokio::sync::mpsc::unbounded_channel` makes a channel and gives both of its halves: what
/// goes in at the one comes out at the other, and nothing has gone in yet.
#[verifier::external_body]
pub(crate) fn request_queue() -> (halves: (UnboundedSender<Request>, UnboundedReceiver<Request>))
    ensures
        sent(halves.0) == Seq::<RequestView>::empty(),
        ends_in(halves.0, halves.1),
{
    tokio::sync::mpsc::unbounded_channel()
}

/// `UnboundedSender::send` puts a message into the channel, or hands it back, unchanged, in its
/// error when the receiving half is closed. The handle stays one of the same channel. Which of
/// the two happens depends on another task, so that is not stated.
#[verifier::external_body]
fn send(tx: &mut UnboundedSender<Request>, request: Request) -> (result: Result<(), Request>)
    ensures
        match result {
            Ok(()) => sent(*final(tx)) == sent(*old(tx)).push(request@) && same_channel(
                *final(tx),
                *old(tx),
            ),
            Err(back) => back == request && *final(tx) == *old(tx),
        },
{
    tx.send(request).map_err(|error| error.0)
}

/// Whether `send` handed `request` back when it was given to this handle.
pub closed spec fn handed_back(handle: UnboundedSender<Request>, request: Request) -> bool {
    exists|tx: &mut UnboundedSender<Request>|
        *tx == handle && #[trigger] call_ensures(send, (tx, request), Err::<(), Request>(request))
}

/// `UnboundedSender::is_closed` tells whether the receiving half is gone. That depends on
/// another task, so nothing is stated of it.
pub assume_specification<T>[ UnboundedSender::<T>::is_closed ](tx: &UnboundedSender<T>) -> (closed:
    bool)
;

/// One proposed edit, already applied to its buffer.
#[derive(Clone, Copy, Debug, PartialEq, Eq, Structural)]
pub struct AppliedEdit {
    pub doc: u64,
    pub view: u64,
    /// State to restore on reject.
    pub savepoint: u64,
}

/// A proposal awaiting the user's verdict.
///
/// The edits are already in their documents when this exists; the savepoints are how they
/// are taken back out.
pub struct PendingReview {
    /// The request to answer: `None` once answered.
    pub responder: Option<u64>,
    /// Options as the agent supplied them; picked by kind, never by position.
    pub options: Vec<PermissionOption>,
    /// Every edit in this proposal. All of them stand or fall together.
    pub edits: Vec<AppliedEdit>,
    /// True once the user took over to hand-correct the edit.
    pub editing: bool,
}

/// What a [`PendingReview`] holds.
#[verifier::ext_equal]
pub struct ReviewView {
    pub responder: Option<u64>,
    pub options: Seq<PermissionOptionView>,
    pub edits: Seq<AppliedEdit>,
    pub editing: bool,
}

impl View for PendingReview {
    type V = ReviewView;

    open spec fn view(&self) -> ReviewView {
        ReviewView {
            responder: self.responder,
            options: option_views(self.options@),
            edits: self.edits@,
            editing: self.editing,
        }
    }
}

/// A live assist session: one agent and the transcript of the talk with it.
pub struct AssistSession {
    /// Rendered transcript, as markdown.
    pub transcript: String,
    /// Lines scrolled back from the newest output. Zero pins the panel to the bottom.
    pub scroll: u16,
    /// Outbound queue to the connection task.
    pub tx: UnboundedSender<Request>,
    /// Whether a prompt turn is in flight.
    pub busy: bool,
    /// The edit currently awaiting a verdict, if any.
    pub review: Option<PendingReview>,
}

/// What an [`AssistSession`] holds.
#[verifier::ext_equal]
pub struct SessionView {
    pub transcript: Seq<char>,
    pub scroll: u16,
    pub tx: UnboundedSender<Request>,
    pub busy: bool,
    pub review: Option<ReviewView>,
}

impl View for AssistSession {
    type V = SessionView;

    open spec fn view(&self) -> SessionView {
        SessionView {
            transcript: self.transcript@,
            scroll: self.scroll,
            tx: self.tx,
            busy: self.busy,
            review: match self.review {
                Some(review) => Some(review@),
                None => None,
            },
        }
    }
}

impl SessionView {
    /// Whether `later` is this session once `request`, and no other, was passed on: into the
    /// queue of the connection task, or back again because that task is gone.
    pub open spec fn passed_on(
        self,
        request: RequestView,
        delivery: Delivery,
        later: SessionView,
    ) -> bool {
        match delivery {
            Delivery::Ignored => false,
            Delivery::Queued => {
                &&& sent(later.tx) == sent(self.tx).push(request)
                &&& same_channel(later.tx, self.tx)
                &&& later == (SessionView { tx: later.tx, ..self })
            },
            Delivery::Refused(back) => {
                &&& back@ == request
                &&& handed_back(self.tx, back)
                &&& later == self
            },
        }
    }
}

impl AssistSession {
    /// The transcript so far, for yanking.
    pub fn transcript(&self) -> (result: &str)
        ensures
            result@ == self@.transcript,
    {
        self.transcript.as_str()
    }

    pub fn is_busy(&self) -> (result: bool)
        ensures
            result == self@.busy,
    {
        self.busy
    }

    /// Send a user message. Ignored while a turn is already in flight.
    pub fn prompt(&mut self, text: String) -> (delivery: Delivery)
        ensures
            old(self)@.busy ==> delivery is Ignored && final(self)@ == old(self)@,
            !old(self)@.busy ==> (SessionView { busy: true, ..old(self)@ }).passed_on(
                RequestView::Prompt(text@),
                delivery,
                final(self)@,
            ),
            final(self).busy,
            delivery is Ignored <==> old(self).busy,
            delivery matches Delivery::Refused(back) ==> (back matches Request::Prompt(lost)
                && lost@ == text@),
            final(self).transcript@ == old(self).transcript@,
            final(self).scroll == old(self).scroll,
            final(self).review is Some <==> old(self).review is Some,
    {
        if self.busy {
            return Delivery::Ignored;
        }
        self.busy = true;
        match send(&mut self.tx, Request::Prompt(text)) {
            Ok(()) => Delivery::Queued,
            Err(request) => Delivery::Refused(request),
        }
    }

    /// Ask the agent to abandon the current turn.
    pub fn cancel(&mut self) -> (delivery: Delivery)
        ensures
            old(self)@.passed_on(RequestView::Cancel, delivery, final(self)@),
            !(delivery is Ignored),
            delivery matches Delivery::Refused(back) ==> back is Cancel,
            final(self).busy == old(self).busy,
    {
        match send(&mut self.tx, Request::Cancel) {
            Ok(()) => Delivery::Queued,
            Err(request) => Delivery::Refused(request),
        }
    }

    /// Whether the connection task is still alive: the opposite of what `is_closed` answers of
    /// the queue to it. The task may end at any time, so the answer is good for the moment it is
    /// given only.
    pub fn is_connected(&self) -> (result: bool)
        ensures
            call_ensures(UnboundedSender::<Request>::is_closed, (&self@.tx,), !result),
    {
        !self.tx.is_closed()
    }
}

/// Passing a request on puts exactly that request behind those that the session sent before, in
/// the channel that it had, or hands it back; it changes nothing else of the session.
pub proof fn law_passing_on_changes_the_queue_only(
    session: SessionView,
    request: RequestView,
    delivery: Delivery,
    later: SessionView,
)
    requires
        session.passed_on(request, delivery, later),
    ensures
        later.transcript == session.transcript,
        later.scroll == session.scroll,
        later.busy == session.busy,
        later.review == session.review,
        !(delivery is Ignored),
        delivery is Queued ==> sent(later.tx) == sent(session.tx).push(request),
        delivery is Queued ==> forall|rx: UnboundedReceiver<Request>|
            #![trigger ends_in(later.tx, rx)]
            ends_in(session.tx, rx) ==> ends_in(later.tx, rx),
        delivery matches Delivery::Refused(back) ==> back@ == request && later.tx == session.tx
            && handed_back(session.tx, back),
{
}

/// A request, a review and a session read as what they are.
pub proof fn law_a_session_reads_as_it_is(
    session: AssistSession,
    review: PendingReview,
    request: Request,
)
    ensures
        request matches Request::Prompt(text) ==> request@ == RequestView::Prompt(text@),
        request is Cancel ==> request@ == RequestView::Cancel,
        review@.responder == review.responder,
        review@.edits == review.edits@,
        review@.editing == review.editing,
        review@.options.len() == review.options@.len(),
        forall|i: int|
            0 <= i < review.options@.len() ==> #[trigger] review@.options[i]
                == review.options@[i]@,
        session@.transcript == session.transcript@,
        session@.scroll == session.scroll,
        session@.tx == session.tx,
        session@.busy == session.busy,
        session.review is None <==> session@.review is None,
        session.review matches Some(held) ==> session@.review == Some(held@),
{
}

} // verus!
