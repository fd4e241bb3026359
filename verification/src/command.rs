//! The commands of the panel: opening it and abandoning a turn.

use crate::editor::Editor;
use crate::editor::EditorView;
use crate::effect::Effect;
use crate::effect::EffectView;
use crate::panel::Panel;
use crate::panel::PanelView;
use crate::panel::prompt;
use crate::permission::OutcomeView;
use crate::review::is_editing;
use crate::review::restores;
use crate::review::resume_review;
use crate::review::resumed;
use crate::review::revert_all;
use crate::session::AssistSession;
use crate::session::Delivery;
use crate::session::PendingReview;
use crate::session::Request;
use crate::session::RequestView;
use crate::session::ReviewView;
use crate::session::SessionView;
use crate::session::ends_in;
use crate::session::request_queue;
use crate::session::sent;
use tokio::sync::mpsc::UnboundedReceiver;
use tokio::sync::mpsc::UnboundedSender;
use vstd::prelude::*;
use vstd::string::*;

verus! {

/// The user's settings for the panel.
pub struct AssistConfig {
    pub enable: bool,
    /// The command that starts the agent.
    pub command: Option<String>,
}

/// Why no agent can be started.
#[derive(Clone, Copy, Debug, PartialEq, Eq, Structural)]
pub enum OpenError {
    Disabled,
    NoCommand,
}

/// How an [`OpenError`] reads.
pub open spec fn open_error_message(error: OpenError) -> Seq<char> {
    match error {
        OpenError::Disabled => "assist is disabled (`editor.assist.enable`)"@,
        OpenError::NoCommand => "no assist agent configured; set `editor.assist.command`"@,
    }
}

impl OpenError {
    /// The error as a sentence for the status line.
    pub fn message(&self) -> (result: String)
        ensures
            result@ == open_error_message(*self),
    {
        match self {
            OpenError::Disabled => "assist is disabled (`editor.assist.enable`)".to_owned(),
            OpenError::NoCommand => {
                "no assist agent configured; set `editor.assist.command`".to_owned()
            },
        }
    }
}

/// A connection for the host to run: the command to start, and the queue of requests that
/// its session fills.
pub struct Connection {
    pub command: String,
    pub requests: UnboundedReceiver<Request>,
}

/// The transcript that a new session starts with: that of the session before it, marked, if
/// there was anything in it.
pub open spec fn opening_transcript(carry_over: Option<Seq<char>>) -> Seq<char> {
    match carry_over {
        Some(transcript) => if transcript.len() > 0 {
            transcript + "\n---\n_restarting agent_\n"@
        } else {
            transcript
        },
        None => Seq::empty(),
    }
}

impl SessionView {
    /// Whether this is a session that has just been opened.
    pub open spec fn is_fresh(self, carry_over: Option<Seq<char>>) -> bool {
        &&& self.transcript == opening_transcript(carry_over)
        &&& self.scroll == 0
        &&& sent(self.tx) == Seq::<RequestView>::empty()
        &&& !self.busy
        &&& self.review is None
    }
}

/// Open a session, for the host to run its connection.
///
/// `carry_over` is the transcript of a session whose agent died, so restarting keeps the
/// history on screen.
pub fn open(config: &AssistConfig, carry_over: Option<String>) -> (result: Result<
    (AssistSession, Connection),
    OpenError,
>)
    ensures
        match result {
            Ok((session, connection)) => {
                &&& config.enable
                &&& config.command matches Some(command)
                &&& connection.command@ == command@
                &&& ends_in(session@.tx, connection.requests)
                &&& session@.is_fresh(
                    match carry_over {
                        Some(transcript) => Some(transcript@),
                        None => None,
                    },
                )
            },
            Err(OpenError::Disabled) => !config.enable,
            Err(OpenError::NoCommand) => config.enable && config.command is None,
        },
        result matches Ok((session, _)) ==> {
            &&& !session.busy && session.scroll == 0 && session.review is None
            &&& sent(session.tx).len() == 0
            &&& carry_over is None ==> session.transcript@.len() == 0
            &&& carry_over matches Some(text) ==> session.transcript@ == if text@.len() == 0 {
                text@
            } else {
                text@ + "\n---\n_restarting agent_\n"@
            }
        },
{
    if !config.enable {
        return Err(OpenError::Disabled);
    }
    let command = match &config.command {
        Some(command) => command.clone(),
        None => return Err(OpenError::NoCommand),
    };
    let mut transcript = match carry_over {
        Some(transcript) => transcript,
        None => String::new(),
    };
    if !transcript.as_str().is_empty() {
        transcript.append("\n---\n_restarting agent_\n");
    }
    let (tx, requests) = request_queue();
    Ok(
        (
            AssistSession { transcript, scroll: 0, tx, busy: false, review: None },
            Connection { command, requests },
        ),
    )
}

/// The effect that shows the prompt.
pub open spec fn show_prompt() -> EffectView {
    EffectView::ShowPrompt { label: "assist: "@, register: 'a' }
}

/// Why no agent can be started, if none can.
pub open spec fn refusal(config: AssistConfig) -> Option<OpenError> {
    if !config.enable {
        Some(OpenError::Disabled)
    } else if config.command is None {
        Some(OpenError::NoCommand)
    } else {
        None
    }
}

/// Whether `after` is `before` with a new session in the place of the one it had, if any: the
/// transcript lives on, a request that the old session held is cancelled, and the prompt is
/// shown.
pub open spec fn is_restarted(before: PanelView, after: PanelView) -> bool {
    let (transcript, review) = match before.assist {
        Some(stale) => (Some(stale.transcript), stale.review),
        None => (None, None),
    };
    &&& after.assist matches Some(session)
    &&& session.is_fresh(transcript)
    &&& after.effects == before.dismiss(review).emit(show_prompt()).effects
}

/// Whether opening the panel leads from `before` to `after`, and hands `connection` to the host,
/// where `running` tells whether the agent of the session, if there is one, is still connected.
///
/// A hand-corrected proposal is taken up again if one is waiting. Otherwise a live agent is kept
/// and a dead one is restarted, unless none can be started, and the prompt is shown.
pub open spec fn is_opened(
    before: PanelView,
    config: AssistConfig,
    running: bool,
    connection: Option<Connection>,
    after: PanelView,
) -> bool {
    if is_editing(before) {
        connection is None && after == resumed(before)
    } else if running && before.assist is Some {
        connection is None && after == before.emit(show_prompt())
    } else {
        match refusal(config) {
            Some(error) => connection is None && after == before.emit(
                EffectView::SetError(open_error_message(error)),
            ),
            None => {
                &&& connection matches Some(connection)
                &&& connection.command@ == config.command->0@
                &&& ends_in(after.assist->0.tx, connection.requests)
                &&& is_restarted(before, after)
            },
        }
    }
}

/// Resume a hand-corrected proposal if one is waiting, otherwise make sure a session is
/// running and ask for a message. `running` tells whether the agent of the session, if there
/// is one, is still connected.
///
/// A connection that comes back belongs to a new session, and is for the host to run.
pub fn open_or_prompt_when(panel: &mut Panel, config: &AssistConfig, running: bool) -> (result:
    Option<Connection>)
    ensures
        is_opened(old(panel)@, *config, running, result, final(panel)@),
{
    if resume_review(panel) {
        return None;
    }
    let stale_transcript: Option<String> = match &panel.assist {
        Some(session) => {
            if running {
                panel.emit(prompt());
                return None;
            }
            Some(session.transcript.clone())
        },
        None => None,
    };
    match open(config, stale_transcript) {
        Ok((session, connection)) => {
            let stale = panel.assist.take();
            panel.assist = Some(session);
            let abandoned: Option<PendingReview> = match stale {
                Some(stale) => stale.review,
                None => None,
            };
            panel.dismiss(abandoned);
            panel.emit(prompt());
            Some(connection)
        },
        Err(error) => {
            panel.emit(Effect::SetError(error.message()));
            None
        },
    }
}

/// Entry point for opening the panel.
///
/// Resumes a hand-corrected proposal if one is waiting, otherwise makes sure a session is
/// running and asks for a message. Whether the agent is still connected is found out here.
pub fn open_or_prompt(panel: &mut Panel, config: &AssistConfig) -> (result: Option<Connection>)
    ensures
        match old(panel)@.assist {
            Some(session) => exists|closed: bool|
                #[trigger] call_ensures(
                    UnboundedSender::<Request>::is_closed,
                    (&session.tx,),
                    closed,
                ) && is_opened(old(panel)@, *config, !closed, result, final(panel)@),
            None => is_opened(old(panel)@, *config, false, result, final(panel)@),
        },
{
    let running = match &panel.assist {
        Some(session) => session.is_connected(),
        None => false,
    };
    open_or_prompt_when(panel, config, running)
}

/// The panel after a turn was abandoned: an edit that nobody reviewed is taken back, its
/// request is cancelled, and the review gate comes down.
pub open spec fn cancelled(panel: PanelView, editor: EditorView) -> PanelView {
    match panel.assist {
        Some(session) => {
            let closed = PanelView {
                assist: Some(SessionView { review: None, ..session }),
                ..panel
            };
            let reverted = match session.review {
                Some(review) => closed.emit_all(restores(review.edits, editor)),
                None => closed,
            };
            reverted.dismiss(session.review).emit(EffectView::RemoveGates).emit(
                EffectView::SetStatus("assist: cancelled"@),
            )
        },
        None => panel.emit(EffectView::SetError("assist: no session"@)),
    }
}

/// Abandon the current turn: tell the agent, and take back any unreviewed edit.
pub fn cancel(panel: &mut Panel, editor: &Editor) -> (delivery: Delivery)
    ensures
        match old(panel)@.assist {
            Some(session) => exists|later: SessionView|
                {
                    &&& #[trigger] session.passed_on(RequestView::Cancel, delivery, later)
                    &&& final(panel)@ == cancelled(
                        (PanelView { assist: Some(later), ..old(panel)@ }),
                        editor@,
                    )
                },
            None => delivery is Ignored && final(panel)@ == cancelled(old(panel)@, editor@),
        },
{
    let (delivery, review): (Delivery, Option<PendingReview>) = match &mut panel.assist {
        Some(session) => {
            let delivery = session.cancel();
            (delivery, session.review.take())
        },
        None => {
            panel.emit(Effect::SetError("assist: no session".to_owned()));
            return Delivery::Ignored;
        },
    };
    match &review {
        Some(review) => revert_all(panel, editor, &review.edits),
        None => {},
    }
    // The protocol requires that a cancelled turn answers its permission request.
    panel.dismiss(review);
    panel.emit(Effect::RemoveGates);
    panel.emit(Effect::SetStatus("assist: cancelled".to_owned()));
    delivery
}

/// A live agent is kept, whatever its session is doing: opening the panel then hands out no
/// connection, leaves the session exactly as it is, and shows the prompt. The one thing that comes
/// before is a proposal that is being corrected by hand.
pub proof fn law_a_live_agent_is_kept(
    before: PanelView,
    session: SessionView,
    config: AssistConfig,
    connection: Option<Connection>,
    after: PanelView,
)
    requires
        is_opened(before, config, true, connection, after),
        before.assist == Some(session),
        !(session.review matches Some(review) && review.editing),
    ensures
        connection is None,
        after.assist == before.assist,
        after.effects == before.effects + seq![
            EffectView::ShowPrompt { label: "assist: "@, register: 'a' },
        ],
{
    assert(after.effects == before.effects + seq![
        EffectView::ShowPrompt { label: "assist: "@, register: 'a' },
    ]);
}

/// A proposal that is being corrected by hand is put up again before anything else, whatever the
/// settings are and whether the agent lives or not.
pub proof fn law_a_correction_is_resumed_first(
    before: PanelView,
    session: SessionView,
    review: ReviewView,
    config: AssistConfig,
    running: bool,
    connection: Option<Connection>,
    after: PanelView,
)
    requires
        is_opened(before, config, running, connection, after),
        before.assist == Some(session),
        session.review == Some(review),
        review.editing,
    ensures
        connection is None,
        after.assist == Some(
            (SessionView {
                review: Some((ReviewView { editing: false, ..review })),
                ..session
            }),
        ),
        after.effects == before.effects.push((EffectView::PushGate { title: "edited proposal"@ })),
{
}

/// Only a missing or dead session is ever replaced, and it is replaced wherever an agent can be
/// started. The new session is idle, nothing was sent through it, what is sent through it reaches
/// the connection, which runs the command of the settings, and the old transcript lives on. The
/// request that the old session held is cancelled, and the prompt is shown.
pub proof fn law_a_dead_agent_is_restarted(
    before: PanelView,
    config: AssistConfig,
    running: bool,
    connection: Option<Connection>,
    after: PanelView,
)
    requires
        is_opened(before, config, running, connection, after),
        !(before.assist matches Some(session) && session.review matches Some(review)
            && review.editing),
    ensures
        connection is Some <==> config.enable && config.command is Some && !(running
            && before.assist is Some),
        connection matches Some(started) ==> {
            let prompt = EffectView::ShowPrompt { label: "assist: "@, register: 'a' };
            &&& config.command matches Some(command) && started.command@ == command@
            &&& after.assist matches Some(fresh)
            &&& ends_in(fresh.tx, started.requests)
            &&& sent(fresh.tx).len() == 0
            &&& fresh.scroll == 0 && !fresh.busy && fresh.review is None
            &&& match before.assist {
                None => {
                    &&& fresh.transcript.len() == 0
                    &&& after.effects == before.effects.push(prompt)
                },
                Some(stale) => {
                    &&& stale.transcript.len() == 0 ==> fresh.transcript.len() == 0
                    &&& stale.transcript.len() > 0 ==> fresh.transcript == stale.transcript
                        + "\n---\n_restarting agent_\n"@
                    &&& match stale.review {
                        Some(review) => match review.responder {
                            Some(request) => after.effects == before.effects.push(
                                (EffectView::Reply { request, outcome: OutcomeView::Cancelled }),
                            ).push(prompt),
                            None => after.effects == before.effects.push(prompt),
                        },
                        None => after.effects == before.effects.push(prompt),
                    }
                },
            }
        },
{
}

/// Where no agent can be started and none is alive, the user is told why, and nothing else
/// happens.
pub proof fn law_the_user_is_told_why_nothing_opened(
    before: PanelView,
    config: AssistConfig,
    running: bool,
    connection: Option<Connection>,
    after: PanelView,
)
    requires
        is_opened(before, config, running, connection, after),
        !(before.assist matches Some(session) && session.review matches Some(review)
            && review.editing),
        !(running && before.assist is Some),
        !(config.enable && config.command is Some),
    ensures
        connection is None,
        after.assist == before.assist,
        after.effects == before.effects.push(
            EffectView::SetError(
                if !config.enable {
                    "assist is disabled (`editor.assist.enable`)"@
                } else {
                    "no assist agent configured; set `editor.assist.command`"@
                },
            ),
        ),
{
}

/// Abandoning a turn takes every edit under review back, cancels the request, takes the bars down
/// and says so, in this order. The review is gone, and nothing else of the session changes.
/// Without a session the user is told that there is none.
pub proof fn law_abandoning_a_turn_ends_the_review(panel: PanelView, editor: EditorView)
    ensures
        ({
            let after = cancelled(panel, editor);
            let end = seq![
                EffectView::RemoveGates,
                EffectView::SetStatus("assist: cancelled"@),
            ];
            match panel.assist {
                None => {
                    &&& after.assist is None
                    &&& after.effects == panel.effects.push(
                        EffectView::SetError("assist: no session"@),
                    )
                },
                Some(session) => {
                    &&& after.assist == Some((SessionView { review: None, ..session }))
                    &&& match session.review {
                        None => after.effects == panel.effects + end,
                        Some(review) => match review.responder {
                            None => after.effects == panel.effects + restores(
                                review.edits,
                                editor,
                            ) + end,
                            Some(request) => after.effects == panel.effects + restores(
                                review.edits,
                                editor,
                            ) + seq![
                                EffectView::Reply { request, outcome: OutcomeView::Cancelled },
                            ] + end,
                        },
                    }
                },
            }
        }),
{
    let after = cancelled(panel, editor);
    let end = seq![EffectView::RemoveGates, EffectView::SetStatus("assist: cancelled"@)];
    if let Some(session) = panel.assist {
        match session.review {
            None => {
                assert(after.effects == panel.effects + end);
            },
            Some(review) => {
                let undone = panel.effects + restores(review.edits, editor);
                match review.responder {
                    None => {
                        assert(after.effects == undone + end);
                    },
                    Some(request) => {
                        let reply = EffectView::Reply { request, outcome: OutcomeView::Cancelled };
                        assert(after.effects == undone + seq![reply] + end);
                    },
                }
            },
        }
    }
}

/// Why no agent can be started reads as it should.
pub proof fn law_a_refusal_says_why()
    ensures
        open_error_message(OpenError::Disabled) == "assist is disabled (`editor.assist.enable`)"@,
        open_error_message(OpenError::NoCommand)
            == "no assist agent configured; set `editor.assist.command`"@,
{
}

} // verus!
