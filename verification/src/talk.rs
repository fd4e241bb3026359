//! A session and its connection, side by side: as long as the connection lives, no message that
//! went into the queue is lost.
//!
//! The two run apart. The session puts requests into a queue, the connection takes them out
//! in order, and the end of a turn frees the session some time after the connection has gone
//! on. What is stated here holds in whatever order these things happen.

use crate::connection::expects;
use crate::connection::next;
use crate::connection::Phase;
use crate::connection::SignalView;
use crate::panel::PanelView;
use crate::session::sent;
use crate::session::Delivery;
use crate::session::RequestView;
use crate::session::SessionView;
use crate::update::turn_ended;
use vstd::prelude::*;

verus! {

/// A session and its connection at one moment.
#[verifier::ext_equal]
pub struct Talk {
    /// Whether the session takes no message.
    pub busy: bool,
    /// The requests between the two, the oldest first.
    pub queue: Seq<RequestView>,
    /// Where the connection is.
    pub phase: Phase,
    /// Whether a turn is over of which the session has not heard yet.
    pub unheard: bool,
}

/// One thing that happens.
pub enum Move {
    /// The user enters a message.
    Enter(Seq<char>),
    /// The user abandons the turn.
    Abandon,
    /// The connection gets a signal that does not come from the queue.
    Signal(SignalView),
    /// The connection takes the oldest request out of the queue.
    Take,
    /// The session hears that the turn is over.
    Hear,
}

impl Talk {
    /// A session that has just been opened, and its connection.
    pub open spec fn is_initial(self) -> bool {
        &&& !self.busy
        &&& self.queue.len() == 0
        &&& self.phase == Phase::Initializing
        &&& !self.unheard
    }

    /// Whether a move can happen now.
    pub open spec fn can(self, step: Move) -> bool {
        match step {
            Move::Enter(_) => true,
            Move::Abandon => true,
            Move::Signal(signal) => !(signal is Queue) && expects(self.phase, signal),
            Move::Take => self.queue.len() > 0 && expects(
                self.phase,
                SignalView::Queue(Some(self.queue[0])),
            ),
            Move::Hear => self.unheard,
        }
    }

    /// Where a move leads.
    pub open spec fn after(self, step: Move) -> Talk {
        match step {
            Move::Enter(text) => if self.busy {
                self
            } else {
                Talk { busy: true, queue: self.queue.push(RequestView::Prompt(text)), ..self }
            },
            Move::Abandon => Talk { queue: self.queue.push(RequestView::Cancel), ..self },
            Move::Signal(signal) => Talk {
                phase: next(self.phase, signal).0,
                unheard: self.unheard || signal is Answered,
                ..self
            },
            Move::Take => Talk {
                queue: self.queue.drop_first(),
                phase: next(self.phase, SignalView::Queue(Some(self.queue[0]))).0,
                ..self
            },
            Move::Hear => Talk { busy: false, unheard: false, ..self },
        }
    }

    /// The one message that keeps a session busy is in the queue, or its turn is in flight, or
    /// its turn is over and the session has not heard of it. A free session has none.
    pub open spec fn inv(self) -> bool {
        self.phase != Phase::Closed ==> prompts(self.queue) + if self.phase == Phase::Turn {
            1nat
        } else {
            0nat
        } + if self.unheard {
            1nat
        } else {
            0nat
        } == if self.busy {
            1nat
        } else {
            0nat
        }
    }
}

/// How many of the requests are messages.
pub open spec fn prompts(queue: Seq<RequestView>) -> nat
    decreases queue.len(),
{
    if queue.len() == 0 {
        0
    } else {
        prompts(queue.drop_last()) + if queue.last() is Prompt {
            1nat
        } else {
            0nat
        }
    }
}

proof fn lemma_prompts_push(queue: Seq<RequestView>, request: RequestView)
    ensures
        prompts(queue.push(request)) == prompts(queue) + if request is Prompt {
            1nat
        } else {
            0nat
        },
{
    assert(queue.push(request).drop_last() == queue);
}

proof fn lemma_prompts_first(queue: Seq<RequestView>)
    requires
        queue.len() > 0,
    ensures
        prompts(queue) == prompts(queue.drop_first()) + if queue[0] is Prompt {
            1nat
        } else {
            0nat
        },
    decreases queue.len(),
{
    if queue.len() == 1 {
        assert(queue.drop_last() == Seq::<RequestView>::empty());
        assert(queue.drop_first() == Seq::<RequestView>::empty());
    } else {
        lemma_prompts_first(queue.drop_last());
        assert(queue.drop_last().drop_first() == queue.drop_first().drop_last());
    }
}

/// However a session and its connection interleave, a session is busy exactly for the one
/// message that it has taken.
pub proof fn law_a_busy_session_has_one_message(talk: Talk, step: Move)
    ensures
        talk.is_initial() ==> talk.inv(),
        talk.inv() && talk.can(step) ==> talk.after(step).inv(),
{
    match step {
        Move::Enter(text) => {
            lemma_prompts_push(talk.queue, RequestView::Prompt(text));
        },
        Move::Abandon => {
            lemma_prompts_push(talk.queue, RequestView::Cancel);
        },
        Move::Take => {
            if talk.queue.len() > 0 {
                lemma_prompts_first(talk.queue);
            }
        },
        _ => {},
    }
}

/// A connection never drops a message: one that it takes out of the queue starts a turn, for
/// no turn is in flight then.
pub proof fn law_a_message_always_starts_its_turn(talk: Talk)
    requires
        talk.inv(),
        talk.can(Move::Take),
        talk.queue[0] is Prompt,
    ensures
        talk.phase == Phase::Idle,
        next(talk.phase, SignalView::Queue(Some(talk.queue[0]))).1 is StartTurn,
{
    lemma_prompts_first(talk.queue);
}

impl Talk {
    /// Whether this is where `session` and its connection are once the connection has taken
    /// the first `taken` of the requests that the session sent.
    pub open spec fn is_of(self, session: SessionView, taken: nat) -> bool {
        &&& self.busy == session.busy
        &&& taken <= sent(session.tx).len()
        &&& self.queue == sent(session.tx).skip(taken as int)
    }
}

/// A message that is handed to a session moves the talk as entering it does: a busy session
/// stays as it is, and a free one queues the message, unless the connection is gone.
pub proof fn law_a_prompt_enters_the_talk(
    talk: Talk,
    session: SessionView,
    taken: nat,
    text: Seq<char>,
    delivery: Delivery,
    later: SessionView,
)
    requires
        talk.is_of(session, taken),
        session.busy ==> later == session,
        !session.busy ==> delivery is Queued && (SessionView { busy: true, ..session }).passed_on(
            RequestView::Prompt(text),
            delivery,
            later,
        ),
    ensures
        talk.after(Move::Enter(text)).is_of(later, taken),
{
    if !session.busy {
        assert(sent(later.tx).skip(taken as int) == sent(session.tx).skip(taken as int).push(
            RequestView::Prompt(text),
        ));
    }
}

/// A cancel that a session queues moves the talk as abandoning the turn does.
pub proof fn law_a_cancel_enters_the_talk(
    talk: Talk,
    session: SessionView,
    taken: nat,
    delivery: Delivery,
    later: SessionView,
)
    requires
        talk.is_of(session, taken),
        delivery is Queued,
        session.passed_on(RequestView::Cancel, delivery, later),
    ensures
        talk.after(Move::Abandon).is_of(later, taken),
{
    assert(sent(later.tx).skip(taken as int) == sent(session.tx).skip(taken as int).push(
        RequestView::Cancel,
    ));
}

/// A session that has just been opened starts a talk; a request that the connection takes is
/// the oldest that the session sent and the connection had not taken yet; and the end of a turn
/// frees the session as hearing of it does.
pub proof fn law_a_talk_follows_its_session(
    talk: Talk,
    panel: PanelView,
    taken: nat,
    carry_over: Option<Seq<char>>,
    stop: Seq<char>,
)
    requires
        panel.assist is Some,
    ensures
        ({
            let session = panel.assist->0;
            &&& talk.is_initial() && session.is_fresh(carry_over) ==> talk.is_of(session, 0)
            &&& talk.is_of(session, taken) && talk.can(Move::Take) ==> {
                &&& taken < sent(session.tx).len()
                &&& talk.queue[0] == sent(session.tx)[taken as int]
                &&& talk.after(Move::Take).is_of(session, taken + 1)
            }
            &&& talk.is_of(session, taken) ==> talk.after(Move::Hear).is_of(
                turn_ended(panel, stop).assist->0,
                taken,
            )
        }),
{
    let all = sent(panel.assist->0.tx);
    if talk.is_initial() && panel.assist->0.is_fresh(carry_over) {
        assert(talk.queue == all.skip(0));
    }
    if talk.is_of(panel.assist->0, taken) && talk.can(Move::Take) {
        assert(all.skip(taken as int).drop_first() == all.skip(taken as int + 1));
    }
}

} // verus!
