//! The panel: the session it shows, if any, and the effects it owes its host.

use crate::effect::effect_views;
use crate::effect::Effect;
use crate::effect::EffectView;
use crate::permission::Outcome;
use crate::permission::OutcomeView;
use crate::session::AssistSession;
use crate::session::Delivery;
use crate::session::PendingReview;
use crate::session::RequestView;
use crate::session::ReviewView;
use crate::session::SessionView;
use crate::text::blank;
use crate::text::is_blank;
use vstd::prelude::*;
use vstd::string::*;

verus! {

/// The session slot of the editor's view, and the effects given since the host last
/// performed them.
pub struct Panel {
    pub assist: Option<AssistSession>,
    pub effects: Vec<Effect>,
}

/// What a [`Panel`] holds.
#[verifier::ext_equal]
pub struct PanelView {
    pub assist: Option<SessionView>,
    pub effects: Seq<EffectView>,
}

impl View for Panel {
    type V = PanelView;

    open spec fn view(&self) -> PanelView {
        PanelView {
            assist: match self.assist {
                Some(session) => Some(session@),
                None => None,
            },
            effects: effect_views(self.effects@),
        }
    }
}

impl PanelView {
    /// The panel with one more effect to perform.
    pub open spec fn emit(self, effect: EffectView) -> PanelView {
        PanelView { effects: self.effects.push(effect), ..self }
    }

    /// The panel with `text` behind its transcript, at the newest output. Without a session
    /// there is no transcript.
    pub open spec fn say(self, text: Seq<char>) -> PanelView {
        match self.assist {
            Some(session) => PanelView {
                assist: Some(
                    SessionView { transcript: session.transcript + text, scroll: 0, ..session },
                ),
                ..self
            },
            None => self,
        }
    }

    /// The panel after `review` was let go: a request that nobody answered is cancelled.
    pub open spec fn dismiss(self, review: Option<ReviewView>) -> PanelView {
        match review {
            Some(review) => match review.responder {
                Some(request) => self.emit(
                    EffectView::Reply { request, outcome: OutcomeView::Cancelled },
                ),
                None => self,
            },
            None => self,
        }
    }
}

impl Panel {
    /// A panel without a session.
    pub fn new() -> (panel: Panel)
        ensures
            panel@.assist is None,
            panel@.effects == Seq::<EffectView>::empty(),
    {
        let panel = Panel { assist: None, effects: Vec::new() };
        assert(effect_views(panel.effects@) == Seq::<EffectView>::empty());
        panel
    }

    /// Ask the host for one more thing.
    pub(crate) fn emit(&mut self, effect: Effect)
        ensures
            final(self)@ == old(self)@.emit(effect@),
    {
        self.effects.push(effect);
        assert(effect_views(self.effects@) == effect_views(old(self).effects@).push(effect@));
    }

    /// Let a review go. An unanswered request hangs the agent forever with no error
    /// anywhere, so a review that is dropped still gets a verdict.
    pub(crate) fn dismiss(&mut self, review: Option<PendingReview>)
        ensures
            final(self)@ == old(self)@.dismiss(
                match review {
                    Some(review) => Some(review@),
                    None => None,
                },
            ),
    {
        match review {
            Some(review) => match review.responder {
                Some(request) => {
                    self.emit(Effect::Reply { request, outcome: Outcome::Cancelled });
                },
                None => {},
            },
            None => {},
        }
    }
}

/// The panel without its session. A request that the session held is cancelled.
pub open spec fn after_close(panel: PanelView) -> PanelView {
    match panel.assist {
        Some(session) => PanelView { assist: None, ..panel }.dismiss(session.review),
        None => panel,
    }
}

/// Close the panel: its session goes, and an edit that nobody reviewed stays in its buffer, but
/// the agent is answered.
pub fn close(panel: &mut Panel)
    ensures
        final(panel)@ == after_close(old(panel)@),
{
    match panel.assist.take() {
        Some(session) => panel.dismiss(session.review),
        None => {},
    }
}

/// Append to the transcript, snapping the panel back to the newest output.
pub fn append(panel: &mut Panel, text: &str)
    ensures
        final(panel)@ == old(panel)@.say(text@),
{
    match &mut panel.assist {
        Some(session) => {
            session.transcript.append(text);
            session.scroll = 0;
        },
        None => {},
    }
}

/// The prompt used to type a message to the agent, for the host to show once the work that
/// is already queued is done.
pub fn prompt() -> (result: Effect)
    ensures
        result@ == (EffectView::ShowPrompt { label: "assist: "@, register: 'a' }),
{
    Effect::ShowPrompt { label: "assist: ".to_owned(), register: 'a' }
}

/// What happened in the prompt.
#[derive(Clone, Copy, Debug, PartialEq, Eq, Structural)]
pub enum PromptEvent {
    Update,
    Validate,
    Abort,
}

/// The message that the prompt hands on: what was typed, once it is confirmed, unless that
/// is blank.
pub fn prompt_message(input: &str, event: PromptEvent) -> (result: Option<String>)
    ensures
        match result {
            Some(text) => event == PromptEvent::Validate && !blank(input@) && text@ == input@,
            None => event != PromptEvent::Validate || blank(input@),
        },
{
    if event != PromptEvent::Validate || is_blank(input) {
        return None;
    }
    Some(input.to_owned())
}

/// Hand a user message to the running session.
pub fn submit_prompt(panel: &mut Panel, text: String) -> (delivery: Delivery)
    ensures
        match old(panel)@.assist {
            Some(session) => if session.busy {
                delivery is Ignored && final(panel)@ == old(panel)@
            } else {
                &&& final(panel)@.assist matches Some(later)
                &&& (SessionView { busy: true, ..session }).passed_on(
                    RequestView::Prompt(text@),
                    delivery,
                    later,
                )
                &&& final(panel)@.effects == old(panel)@.effects
            },
            None => delivery is Ignored && final(panel)@ == old(panel)@.emit(
                EffectView::SetError("assist: no session"@),
            ),
        },
{
    match &mut panel.assist {
        Some(session) => {
            return session.prompt(text);
        },
        None => {},
    }
    panel.emit(Effect::SetError("assist: no session".to_owned()));
    Delivery::Ignored
}

/// Copy the transcript into an ordinary scratch buffer, where search and yank work.
pub fn yank_transcript(panel: &mut Panel)
    ensures
        final(panel)@ == old(panel)@.emit(
            match old(panel)@.assist {
                Some(session) => EffectView::OpenScratch { text: session.transcript },
                None => EffectView::SetError("assist: no session"@),
            },
        ),
{
    let effect = match &panel.assist {
        Some(session) => Effect::OpenScratch { text: session.transcript.clone() },
        None => Effect::SetError("assist: no session".to_owned()),
    };
    panel.emit(effect);
}

/// Saying something puts exactly that behind the transcript and goes to the newest output,
/// whatever the session is doing; nothing else of the panel changes, and without a session
/// nothing does. Saying two things is saying them as one.
pub proof fn law_saying_puts_text_behind_the_transcript(
    panel: PanelView,
    text: Seq<char>,
    more: Seq<char>,
)
    ensures
        panel.say(text).effects == panel.effects,
        panel.assist is None ==> panel.say(text).assist is None,
        panel.assist matches Some(session) ==> {
            &&& panel.say(text).assist matches Some(later)
            &&& later.transcript == session.transcript + text
            &&& later.scroll == 0
            &&& later.busy == session.busy
            &&& later.tx == session.tx
            &&& later.review == session.review
        },
        panel.say(text).say(more) == panel.say(text + more),
{
    if panel.assist is Some {
        let transcript = panel.assist->0.transcript;
        assert(transcript + text + more == transcript + (text + more));
    }
}

/// What the host is asked for comes behind what it was asked for before, and the session stays
/// as it is.
pub proof fn law_effects_are_asked_for_in_order(panel: PanelView, effect: EffectView)
    ensures
        panel.emit(effect).effects == panel.effects + seq![effect],
        panel.emit(effect).assist == panel.assist,
{
    assert(panel.effects.push(effect) == panel.effects + seq![effect]);
}

/// A review that is let go, whatever else it holds, has its request cancelled, if that was not
/// answered before; the session stays as it is.
pub proof fn law_a_review_let_go_is_cancelled(panel: PanelView, review: ReviewView)
    ensures
        panel.dismiss(None) == panel,
        panel.dismiss(Some(review)).assist == panel.assist,
        review.responder is None ==> panel.dismiss(Some(review)).effects == panel.effects,
        review.responder matches Some(request) ==> panel.dismiss(Some(review)).effects
            == panel.effects.push(
            (EffectView::Reply { request, outcome: OutcomeView::Cancelled }),
        ),
{
}

/// Closing a panel leaves it without a session and cancels the request under review, if there is
/// one.
pub proof fn law_closing_leaves_no_session(panel: PanelView)
    ensures
        after_close(panel).assist is None,
        after_close(panel).effects == match panel.assist {
            Some(session) => match session.review {
                Some(review) => match review.responder {
                    Some(request) => panel.effects.push(
                        (EffectView::Reply { request, outcome: OutcomeView::Cancelled }),
                    ),
                    None => panel.effects,
                },
                None => panel.effects,
            },
            None => panel.effects,
        },
{
}

/// A panel reads as what it is.
pub proof fn law_a_panel_reads_as_it_is(panel: Panel)
    ensures
        panel.assist is None <==> panel@.assist is None,
        panel.assist matches Some(session) ==> panel@.assist == Some(session@),
        panel@.effects == effect_views(panel.effects@),
{
}

} // verus!
