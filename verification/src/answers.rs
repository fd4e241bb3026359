//! Every permission request is answered, and none twice.
//!
//! An unanswered request hangs the agent forever with no error anywhere. What is counted
//! here is how often a request was answered so far, and whether it is still being held for an
//! answer: by a draft, or by the review of the session. No step changes the sum of the two
//! but the one that takes the request in, which adds one.

use crate::command::cancelled;
use crate::command::is_restarted;
use crate::command::show_prompt;
use crate::editor::EditorView;
use crate::effect::EffectView;
use crate::panel::after_close;
use crate::panel::PanelView;
use crate::permission::outcome_for;
use crate::permission::OutcomeView;
use crate::review::after_edit;
use crate::review::answer;
use crate::review::begun;
use crate::review::commits;
use crate::review::resolved;
use crate::review::restores;
use crate::review::resumed;
use crate::review::DraftView;
use crate::review::PermissionRequestView;
use crate::review::Verdict;
use crate::session::AppliedEdit;
use crate::session::ReviewView;
use crate::session::SessionView;
use crate::update::turn_ended;
use crate::update::turn_started;
use crate::update::updated;
use crate::update::SessionUpdateView;
use vstd::prelude::*;

verus! {

/// How often the effects answer `request`.
pub open spec fn replies(effects: Seq<EffectView>, request: u64) -> nat
    decreases effects.len(),
{
    if effects.len() == 0 {
        0
    } else {
        replies(effects.drop_last(), request) + match effects.last() {
            EffectView::Reply { request: answered, .. } => if answered == request {
                1nat
            } else {
                0nat
            },
            _ => 0nat,
        }
    }
}

/// How often a review holds `request` for an answer.
pub open spec fn held_by_review(review: Option<ReviewView>, request: u64) -> nat {
    match review {
        Some(review) => if review.responder == Some(request) {
            1
        } else {
            0
        },
        None => 0,
    }
}

/// How often a panel holds `request` for an answer.
pub open spec fn held(panel: PanelView, request: u64) -> nat {
    match panel.assist {
        Some(session) => held_by_review(session.review, request),
        None => 0,
    }
}

/// How often a draft holds `request` for an answer.
pub open spec fn drafted(draft: Option<DraftView>, request: u64) -> nat {
    match draft {
        Some(draft) => if draft.request == request {
            1
        } else {
            0
        },
        None => 0,
    }
}

/// How often a panel has answered `request`, or holds it for an answer.
pub open spec fn accounted(panel: PanelView, request: u64) -> nat {
    replies(panel.effects, request) + held(panel, request)
}

proof fn lemma_replies_push(effects: Seq<EffectView>, effect: EffectView, request: u64)
    ensures
        replies(effects.push(effect), request) == replies(effects, request) + match effect {
            EffectView::Reply { request: answered, .. } => if answered == request {
                1nat
            } else {
                0nat
            },
            _ => 0nat,
        },
{
    assert(effects.push(effect).drop_last() == effects);
}

proof fn lemma_replies_concat(first: Seq<EffectView>, second: Seq<EffectView>, request: u64)
    ensures
        replies(first + second, request) == replies(first, request) + replies(second, request),
    decreases second.len(),
{
    if second.len() == 0 {
        assert(first + second == first);
    } else {
        assert((first + second).drop_last() == first + second.drop_last());
        lemma_replies_concat(first, second.drop_last(), request);
    }
}

proof fn lemma_restores_reply_nothing(edits: Seq<AppliedEdit>, editor: EditorView, request: u64)
    ensures
        replies(restores(edits, editor), request) == 0,
    decreases edits.len(),
{
    if edits.len() > 0 {
        let edit = edits.last();
        let rest = restores(edits.drop_last(), editor);
        lemma_restores_reply_nothing(edits.drop_last(), editor, request);
        if editor.is_live(edit) {
            let restore = EffectView::Restore {
                doc: edit.doc,
                view: edit.view,
                savepoint: edit.savepoint,
            };
            assert(seq![restore] == Seq::<EffectView>::empty().push(restore));
            lemma_replies_push(Seq::empty(), restore, request);
            lemma_replies_concat(seq![restore], rest, request);
        }
    }
}

proof fn lemma_commits_reply_nothing(edits: Seq<AppliedEdit>, editor: EditorView, request: u64)
    ensures
        replies(commits(edits, editor), request) == 0,
    decreases edits.len(),
{
    if edits.len() > 0 {
        let edit = edits.last();
        let rest = commits(edits.drop_last(), editor);
        lemma_commits_reply_nothing(edits.drop_last(), editor, request);
        if editor.is_live(edit) {
            lemma_replies_push(
                rest,
                EffectView::Commit { doc: edit.doc, view: edit.view },
                request,
            );
        }
    }
}

proof fn lemma_answer_replies(review: ReviewView, allow: bool, request: u64)
    ensures
        replies(answer(review, allow), request) == held_by_review(Some(review), request),
{
    match review.responder {
        Some(id) => {
            let reply = EffectView::Reply {
                request: id,
                outcome: outcome_for(review.options, allow),
            };
            assert(answer(review, allow) == Seq::<EffectView>::empty().push(reply));
            lemma_replies_push(Seq::empty(), reply, request);
        },
        None => {},
    }
}

proof fn lemma_dismiss_replies(panel: PanelView, review: Option<ReviewView>, request: u64)
    ensures
        replies(panel.dismiss(review).effects, request) == replies(panel.effects, request)
            + held_by_review(review, request),
{
    match review {
        Some(review) => match review.responder {
            Some(id) => {
                lemma_replies_push(
                    panel.effects,
                    EffectView::Reply { request: id, outcome: OutcomeView::Cancelled },
                    request,
                );
            },
            None => {},
        },
        None => {},
    }
}

/// A request that comes in is answered at once, or held by the draft that it starts, and no
/// other request is touched.
pub proof fn law_a_new_request_is_answered_or_held(
    panel: PanelView,
    incoming: PermissionRequestView,
    request: u64,
)
    ensures
        ({
            let (after, draft) = begun(panel, incoming);
            accounted(after, request) + drafted(draft, request) == accounted(panel, request)
                + if incoming.id == request {
                1nat
            } else {
                0nat
            }
        }),
{
    lemma_replies_push(
        panel.effects,
        EffectView::Reply { request: incoming.id, outcome: OutcomeView::Cancelled },
        request,
    );
}

/// Going on with a draft answers its request, passes it to the review, or goes on holding it;
/// a review that gives way to the new one is answered.
pub proof fn law_a_drafted_request_is_answered_or_held(
    panel: PanelView,
    editor: EditorView,
    draft: DraftView,
    applied: Result<AppliedEdit, Seq<char>>,
    request: u64,
)
    ensures
        ({
            let (after, next) = after_edit(panel, editor, draft, applied);
            accounted(after, request) + drafted(next, request) == accounted(panel, request)
                + drafted(Some(draft), request)
        }),
{
    match applied {
        Ok(edit) => {
            let next = DraftView { edits: draft.edits.push(edit), ..draft };
            match panel.assist {
                Some(session) => {
                    lemma_dismiss_replies(panel, session.review, request);
                    lemma_replies_push(
                        panel.dismiss(session.review).effects,
                        EffectView::PushGate { title: next.title + next.scope() },
                        request,
                    );
                },
                None => {
                    lemma_dismiss_replies(panel, Some(next.review()), request);
                },
            }
        },
        Err(error) => {
            let undo = restores(draft.edits, editor);
            lemma_restores_reply_nothing(draft.edits, editor, request);
            lemma_replies_concat(panel.effects, undo, request);
            lemma_replies_push(
                panel.effects + undo,
                EffectView::Reply { request: draft.request, outcome: OutcomeView::Cancelled },
                request,
            );
        },
    }
}

/// A verdict answers the request under review, once, unless it leaves the proposal to be
/// edited by hand: then the request is still held.
pub proof fn law_a_verdict_answers_the_request(
    panel: PanelView,
    editor: EditorView,
    verdict: Verdict,
    request: u64,
)
    ensures
        accounted(resolved(panel, editor, verdict), request) == accounted(panel, request),
        verdict != Verdict::Edit ==> held(resolved(panel, editor, verdict), request) == 0,
        verdict == Verdict::Edit ==> held(resolved(panel, editor, verdict), request) == held(
            panel,
            request,
        ),
{
    match panel.assist {
        Some(session) => match session.review {
            Some(review) => match verdict {
                Verdict::Edit => {
                    lemma_replies_push(
                        panel.effects,
                        resolved(panel, editor, verdict).effects.last(),
                        request,
                    );
                },
                Verdict::Accept => {
                    let keep = commits(review.edits, editor);
                    lemma_commits_reply_nothing(review.edits, editor, request);
                    lemma_answer_replies(review, true, request);
                    lemma_replies_concat(panel.effects, keep, request);
                    lemma_replies_concat(panel.effects + keep, answer(review, true), request);
                },
                Verdict::Reject => {
                    let undo = restores(review.edits, editor);
                    lemma_restores_reply_nothing(review.edits, editor, request);
                    lemma_answer_replies(review, false, request);
                    lemma_replies_concat(panel.effects, undo, request);
                    lemma_replies_concat(panel.effects + undo, answer(review, false), request);
                },
            },
            None => {},
        },
        None => {},
    }
}

/// Abandoning a turn answers the request under review, once.
pub proof fn law_cancelling_answers_the_request(
    panel: PanelView,
    editor: EditorView,
    request: u64,
)
    ensures
        accounted(cancelled(panel, editor), request) == accounted(panel, request),
        held(cancelled(panel, editor), request) == 0,
{
    match panel.assist {
        Some(session) => {
            let closed = PanelView {
                assist: Some(SessionView { review: None, ..session }),
                ..panel
            };
            let reverted = match session.review {
                Some(review) => {
                    lemma_restores_reply_nothing(review.edits, editor, request);
                    lemma_replies_concat(
                        panel.effects,
                        restores(review.edits, editor),
                        request,
                    );
                    closed.emit_all(restores(review.edits, editor))
                },
                None => closed,
            };
            let answered = reverted.dismiss(session.review);
            lemma_dismiss_replies(reverted, session.review, request);
            lemma_replies_push(answered.effects, EffectView::RemoveGates, request);
            lemma_replies_push(
                answered.effects.push(EffectView::RemoveGates),
                cancelled(panel, editor).effects.last(),
                request,
            );
        },
        None => {
            lemma_replies_push(
                panel.effects,
                cancelled(panel, editor).effects.last(),
                request,
            );
        },
    }
}

/// A session that gives way to a new one has its request answered, once.
pub proof fn law_replacing_a_session_answers_its_request(
    panel: PanelView,
    after: PanelView,
    request: u64,
)
    requires
        is_restarted(panel, after),
    ensures
        accounted(after, request) == accounted(panel, request),
        held(after, request) == 0,
{
    let stale = match panel.assist {
        Some(stale) => stale.review,
        None => None,
    };
    lemma_dismiss_replies(panel, stale, request);
    lemma_replies_push(panel.dismiss(stale).effects, show_prompt(), request);
}

/// Closing the panel answers the request of its session, once.
pub proof fn law_closing_answers_the_request(panel: PanelView, request: u64)
    ensures
        accounted(after_close(panel), request) == accounted(panel, request),
        held(after_close(panel), request) == 0,
{
    match panel.assist {
        Some(session) => {
            lemma_dismiss_replies(PanelView { assist: None, ..panel }, session.review, request);
        },
        None => {},
    }
}

/// Nothing else answers a request or lets go of one: not resuming a review, nor rendering an
/// update, nor the start or the end of a turn.
pub proof fn law_nothing_else_answers_a_request(
    panel: PanelView,
    update: SessionUpdateView,
    text: Seq<char>,
    request: u64,
)
    ensures
        accounted(resumed(panel), request) == accounted(panel, request),
        accounted(updated(panel, update), request) == accounted(panel, request),
        accounted(turn_started(panel, text), request) == accounted(panel, request),
        accounted(turn_ended(panel, text), request) == accounted(panel, request),
{
    lemma_replies_push(panel.effects, resumed(panel).effects.last(), request);
}

/// A panel at one moment, with all the effects that it ever gave, and the draft that is on its
/// way into the buffers, if one is.
#[verifier::ext_equal]
pub struct Desk {
    pub panel: PanelView,
    pub draft: Option<DraftView>,
}

/// One thing that happens to a panel.
pub enum Occurrence {
    /// A permission request comes in.
    Request(PermissionRequestView),
    /// The host has applied the next diff of the draft, or could not.
    Applied(EditorView, Result<AppliedEdit, Seq<char>>),
    /// The user gives a verdict.
    Decided(EditorView, Verdict),
    /// The user abandons the turn.
    Abandoned(EditorView),
    /// This session takes the place of the one before it, if any.
    Restarted(SessionView),
    /// The panel is closed.
    Closed,
    /// The user is done correcting a proposal.
    Resumed,
    /// The agent reports something.
    Updated(SessionUpdateView),
    /// A turn starts with a message.
    Started(Seq<char>),
    /// A turn ends for a reason.
    Ended(Seq<char>),
    /// The user enters a message, which leaves the session like this.
    Entered(SessionView),
    /// The host is asked for something that answers no request.
    Emitted(EffectView),
}

impl Desk {
    /// Whether this can happen now. A draft goes into the buffers in one go, so nothing else
    /// happens as long as there is one.
    pub open spec fn can(self, occurrence: Occurrence) -> bool {
        &&& occurrence is Applied <==> self.draft is Some
        &&& match occurrence {
            Occurrence::Restarted(session) => session.review is None,
            Occurrence::Entered(session) => self.panel.assist matches Some(before)
                && session.review == before.review,
            Occurrence::Emitted(effect) => !(effect is Reply),
            _ => true,
        }
    }

    /// What comes of it.
    pub open spec fn after(self, occurrence: Occurrence) -> Desk {
        let panel = self.panel;
        match occurrence {
            Occurrence::Request(request) => {
                let (after, draft) = begun(panel, request);
                Desk { panel: after, draft }
            },
            Occurrence::Applied(editor, applied) => {
                let (after, draft) = after_edit(panel, editor, self.draft->0, applied);
                Desk { panel: after, draft }
            },
            Occurrence::Decided(editor, verdict) => Desk {
                panel: resolved(panel.emit(EffectView::RemoveGates), editor, verdict),
                ..self
            },
            Occurrence::Abandoned(editor) => Desk { panel: cancelled(panel, editor), ..self },
            Occurrence::Restarted(session) => {
                let review = match panel.assist {
                    Some(stale) => stale.review,
                    None => None,
                };
                Desk {
                    panel: PanelView {
                        assist: Some(session),
                        ..panel.dismiss(review).emit(show_prompt())
                    },
                    ..self
                }
            },
            Occurrence::Closed => Desk { panel: after_close(panel), ..self },
            Occurrence::Resumed => Desk { panel: resumed(panel), ..self },
            Occurrence::Updated(update) => Desk { panel: updated(panel, update), ..self },
            Occurrence::Started(text) => Desk { panel: turn_started(panel, text), ..self },
            Occurrence::Ended(stop) => Desk { panel: turn_ended(panel, stop), ..self },
            Occurrence::Entered(session) => Desk {
                panel: PanelView { assist: Some(session), ..panel },
                ..self
            },
            Occurrence::Emitted(effect) => Desk { panel: panel.emit(effect), ..self },
        }
    }

    /// What comes of all of it, one after the other.
    pub open spec fn after_all(self, occurrences: Seq<Occurrence>) -> Desk
        decreases occurrences.len(),
    {
        if occurrences.len() == 0 {
            self
        } else {
            self.after_all(occurrences.drop_last()).after(occurrences.last())
        }
    }

    /// Whether all of it can happen, one after the other.
    pub open spec fn can_all(self, occurrences: Seq<Occurrence>) -> bool
        decreases occurrences.len(),
    {
        occurrences.len() > 0 ==> {
            &&& self.can_all(occurrences.drop_last())
            &&& self.after_all(occurrences.drop_last()).can(occurrences.last())
        }
    }

    /// How often `request` was answered, or is held for an answer.
    pub open spec fn accounts_for(self, request: u64) -> nat {
        accounted(self.panel, request) + drafted(self.draft, request)
    }
}

/// How often `request` comes in.
pub open spec fn taken_in(occurrences: Seq<Occurrence>, request: u64) -> nat
    decreases occurrences.len(),
{
    if occurrences.len() == 0 {
        0
    } else {
        taken_in(occurrences.drop_last(), request) + match occurrences.last() {
            Occurrence::Request(incoming) => if incoming.id == request {
                1nat
            } else {
                0nat
            },
            _ => 0nat,
        }
    }
}

proof fn lemma_accounts_kept(desk: Desk, occurrence: Occurrence, request: u64)
    requires
        desk.can(occurrence),
        !(occurrence is Request),
    ensures
        desk.after(occurrence).accounts_for(request) == desk.accounts_for(request),
{
    let panel = desk.panel;
    match occurrence {
        Occurrence::Applied(editor, applied) => {
            law_a_drafted_request_is_answered_or_held(
                panel,
                editor,
                desk.draft->0,
                applied,
                request,
            );
        },
        Occurrence::Decided(editor, verdict) => {
            lemma_replies_push(panel.effects, EffectView::RemoveGates, request);
            law_a_verdict_answers_the_request(
                panel.emit(EffectView::RemoveGates),
                editor,
                verdict,
                request,
            );
        },
        Occurrence::Abandoned(editor) => {
            law_cancelling_answers_the_request(panel, editor, request);
        },
        Occurrence::Restarted(session) => {
            let stale = match panel.assist {
                Some(stale) => stale.review,
                None => None,
            };
            lemma_dismiss_replies(panel, stale, request);
            lemma_replies_push(panel.dismiss(stale).effects, show_prompt(), request);
        },
        Occurrence::Closed => {
            law_closing_answers_the_request(panel, request);
        },
        Occurrence::Resumed => {
            lemma_replies_push(panel.effects, resumed(panel).effects.last(), request);
        },
        Occurrence::Emitted(effect) => {
            lemma_replies_push(panel.effects, effect, request);
        },
        _ => {},
    }
}

/// Whatever happens to a panel, in whatever order, every request that comes in is accounted for
/// once: it was answered, or it is held for an answer.
pub proof fn law_every_request_is_accounted_for(
    desk: Desk,
    occurrences: Seq<Occurrence>,
    request: u64,
)
    requires
        desk.can_all(occurrences),
    ensures
        desk.after_all(occurrences).accounts_for(request) == desk.accounts_for(request) + taken_in(
            occurrences,
            request,
        ),
    decreases occurrences.len(),
{
    if occurrences.len() > 0 {
        let front = occurrences.drop_last();
        let before = desk.after_all(front);
        law_every_request_is_accounted_for(desk, front, request);
        match occurrences.last() {
            Occurrence::Request(incoming) => {
                law_a_new_request_is_answered_or_held(before.panel, incoming, request);
            },
            _ => {
                lemma_accounts_kept(before, occurrences.last(), request);
            },
        }
    }
}

/// A request that comes in once is never answered twice, and it has been answered as soon as
/// nothing is under review and nothing is on its way there.
pub proof fn law_a_request_is_answered_exactly_once(
    desk: Desk,
    occurrences: Seq<Occurrence>,
    request: u64,
)
    requires
        desk.can_all(occurrences),
        desk.accounts_for(request) == 0,
        taken_in(occurrences, request) == 1,
    ensures
        ({
            let after = desk.after_all(occurrences);
            &&& replies(after.panel.effects, request) <= 1
            &&& after.draft is None && !(after.panel.assist matches Some(session)
                && session.review is Some) ==> replies(after.panel.effects, request) == 1
        }),
{
    law_every_request_is_accounted_for(desk, occurrences, request);
}

} // verus!
