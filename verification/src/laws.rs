//! What holds of a review as a whole, and of files that are written and read.

use crate::changes::applied;
use crate::changes::ordered;
use crate::changes::selected;
use crate::changes::span;
use crate::changes::ChangeView;
use crate::command::cancelled;
use crate::command::is_restarted;
use crate::editor::EditorView;
use crate::effect::EffectView;
use crate::files::source_of;
use crate::files::write_plan;
use crate::files::ReadSource;
use crate::lines::window;
use crate::model::edits_of;
use crate::model::keeps_savepoints;
use crate::model::lemma_perform_concat;
use crate::model::lemma_perform_one;
use crate::model::lemma_propose_elsewhere;
use crate::model::savepoints_differ;
use crate::model::touches;
use crate::model::Buffer;
use crate::model::Step;
use crate::model::World;
use crate::panel::PanelView;
use crate::permission::OutcomeView;
use crate::proposal::TransactionView;
use crate::review::after_edit;
use crate::review::answer;
use crate::review::commits;
use crate::review::declined;
use crate::review::resolved;
use crate::review::restores;
use crate::review::resumed;
use crate::review::DraftView;
use crate::review::Verdict;
use crate::session::AppliedEdit;
use crate::session::ReviewView;
use crate::update::turn_ended;
use crate::update::turn_started;
use crate::update::updated;
use crate::update::SessionUpdateView;
use vstd::prelude::*;

verus! {

/// Whether step `i` is the first one that changes `doc`.
pub open spec fn touches_first(steps: Seq<Step>, doc: u64, i: int) -> bool {
    &&& 0 <= i < steps.len()
    &&& steps[i].edit.doc == doc
    &&& forall|j: int| 0 <= j < i ==> (#[trigger] steps[j]).edit.doc != doc
}

/// Whether `doc` can be taken back to where it was: the view and the document of the first
/// step that changed it are still there.
pub open spec fn can_take_back(steps: Seq<Step>, editor: EditorView, doc: u64) -> bool {
    exists|i: int| #[trigger] touches_first(steps, doc, i) && editor.is_live(steps[i].edit)
}

/// Whether the changes of `doc` can be committed: the view and the document of a step that
/// changed it are still there.
pub open spec fn can_commit(steps: Seq<Step>, editor: EditorView, doc: u64) -> bool {
    exists|i: int|
        0 <= i < steps.len() && (#[trigger] steps[i]).edit.doc == doc && editor.is_live(
            steps[i].edit,
        )
}

/// Whether `after` has `doc`, if the steps touch it, back at the text it has in `before`, with
/// the history it has in `during`, and leaves it alone otherwise.
pub open spec fn is_taken_back(
    before: World,
    during: World,
    after: World,
    steps: Seq<Step>,
    doc: u64,
) -> bool {
    if touches(steps, doc) {
        &&& after.buffers[doc].text == before.buffers[doc].text
        &&& after.buffers[doc].revisions == during.buffers[doc].revisions
    } else {
        after.buffers[doc] == during.buffers[doc]
    }
}

proof fn lemma_front_touches(steps: Seq<Step>, doc: u64)
    requires
        steps.len() > 0,
    ensures
        touches(steps, doc) <==> touches(steps.drop_last(), doc) || steps.last().edit.doc == doc,
{
    let front = steps.drop_last();
    if touches(steps, doc) {
        let i = choose|i: int| 0 <= i < steps.len() && (#[trigger] steps[i]).edit.doc == doc;
        if i < front.len() {
            assert(front[i].edit.doc == doc);
        }
    }
    if touches(front, doc) {
        let i = choose|i: int| 0 <= i < front.len() && (#[trigger] front[i]).edit.doc == doc;
        assert(steps[i].edit.doc == doc);
    }
    assert(steps[steps.len() - 1] == steps.last());
}

/// Restoring in reverse takes a touched document back to where it was before.
proof fn lemma_restores_take_back(
    world: World,
    steps: Seq<Step>,
    during: World,
    editor: EditorView,
    doc: u64,
)
    requires
        savepoints_differ(steps),
        touches(steps, doc) ==> can_take_back(steps, editor, doc),
        keeps_savepoints(world.propose_all(steps), during, steps),
    ensures
        is_taken_back(
            world,
            during,
            during.perform_all(restores(edits_of(steps), editor)),
            steps,
            doc,
        ),
    decreases steps.len(),
{
    let edits = edits_of(steps);
    if steps.len() == 0 {
        assert(restores(edits, editor) == Seq::<EffectView>::empty());
    } else {
        let front = steps.drop_last();
        let last = steps.last();
        let edit = last.edit;
        assert(steps[steps.len() - 1] == last);
        assert(edits.last() == edit);
        assert(edits.drop_last() == edits_of(front));
        let restore = EffectView::Restore {
            doc: edit.doc,
            view: edit.view,
            savepoint: edit.savepoint,
        };
        let rest = restores(edits_of(front), editor);
        let next = if editor.is_live(edit) {
            during.perform(restore)
        } else {
            during
        };
        if editor.is_live(edit) {
            assert(restores(edits, editor) == seq![restore] + rest);
            lemma_perform_concat(during, seq![restore], rest);
            lemma_perform_one(during, restore);
        }
        let partial = world.propose_all(front);
        let full = world.propose_all(steps);
        assert(savepoints_differ(front)) by {
            assert forall|i: int, j: int| 0 <= i < j < front.len() implies (
            #[trigger] front[i]).edit.savepoint != (#[trigger] front[j]).edit.savepoint by {
                assert(steps[i].edit.savepoint != steps[j].edit.savepoint);
            }
        }
        assert(keeps_savepoints(partial, next, front)) by {
            assert forall|i: int| 0 <= i < front.len() implies ({
                let kept = (#[trigger] front[i]).edit;
                next.buffers[kept.doc].savepoints[kept.savepoint]
                    == partial.buffers[kept.doc].savepoints[kept.savepoint]
            }) by {
                let kept = steps[i].edit;
                assert(steps[i].edit.savepoint != steps[steps.len() - 1].edit.savepoint);
                assert(during.buffers[kept.doc].savepoints[kept.savepoint]
                    == full.buffers[kept.doc].savepoints[kept.savepoint]);
            }
        }
        lemma_front_touches(steps, doc);
        if touches(steps, doc) {
            let first = choose|i: int| #[trigger]
                touches_first(steps, doc, i) && editor.is_live(steps[i].edit);
            if touches(front, doc) {
                let i = choose|i: int|
                    0 <= i < front.len() && (#[trigger] front[i]).edit.doc == doc;
                assert(steps[i].edit.doc == doc);
                assert(first < front.len());
                assert(touches_first(front, doc, first)) by {
                    assert forall|j: int| 0 <= j < first implies (
                    #[trigger] front[j]).edit.doc != doc by {
                        assert(steps[j].edit.doc != doc);
                    }
                }
            } else {
                if first < front.len() {
                    assert(front[first].edit.doc == doc);
                }
                lemma_propose_elsewhere(world, front, doc);
                assert(full.buffers[doc].savepoints[edit.savepoint] == world.buffers[doc].text);
            }
        }
        lemma_restores_take_back(world, front, next, editor, doc);
    }
}

/// Answering a request changes no buffer.
proof fn lemma_answer_leaves_buffers(
    world: World,
    review: ReviewView,
    allow: bool,
)
    ensures
        world.perform_all(answer(review, allow)) == world,
{
    match review.responder {
        Some(request) => {
            let reply = answer(review, allow)[0];
            lemma_perform_one(world, reply);
            assert(answer(review, allow) == seq![reply]);
        },
        None => {},
    }
}

/// The effects that `after` gives on top of those of `before`.
pub open spec fn given(before: PanelView, after: PanelView) -> Seq<EffectView> {
    after.effects.skip(before.effects.len() as int)
}

/// Rejecting a proposal restores the buffers exactly. Every document that it touched, and that
/// is still there, holds the text that it held before the agent touched it, whatever the user
/// did to it during the review, and rejecting leaves no trace in any history; no other document
/// changes.
pub proof fn law_rejecting_restores_the_buffers(
    world: World,
    steps: Seq<Step>,
    during: World,
    panel: PanelView,
    editor: EditorView,
    doc: u64,
)
    requires
        panel.assist matches Some(session) && session.review matches Some(review)
            && review.edits == edits_of(steps),
        savepoints_differ(steps),
        touches(steps, doc) ==> can_take_back(steps, editor, doc),
        keeps_savepoints(world.propose_all(steps), during, steps),
    ensures
        is_taken_back(
            world,
            during,
            during.perform_all(given(panel, resolved(panel, editor, Verdict::Reject))),
            steps,
            doc,
        ),
{
    let review = panel.assist->0.review->0;
    let undo = restores(review.edits, editor);
    let effects = given(panel, resolved(panel, editor, Verdict::Reject));
    assert(effects == undo + answer(review, false));
    lemma_perform_concat(during, undo, answer(review, false));
    lemma_answer_leaves_buffers(during.perform_all(undo), review, false);
    lemma_restores_take_back(world, steps, during, editor, doc);
}

/// Abandoning a turn takes an unreviewed proposal back just as rejecting it does.
pub proof fn law_cancelling_restores_the_buffers(
    world: World,
    steps: Seq<Step>,
    during: World,
    panel: PanelView,
    editor: EditorView,
    doc: u64,
)
    requires
        panel.assist matches Some(session) && session.review matches Some(review)
            && review.edits == edits_of(steps),
        savepoints_differ(steps),
        touches(steps, doc) ==> can_take_back(steps, editor, doc),
        keeps_savepoints(world.propose_all(steps), during, steps),
    ensures
        is_taken_back(
            world,
            during,
            during.perform_all(given(panel, cancelled(panel, editor))),
            steps,
            doc,
        ),
{
    let review = panel.assist->0.review->0;
    let undo = restores(review.edits, editor);
    let effects = given(panel, cancelled(panel, editor));
    let rest = effects.skip(undo.len() as int);
    assert(effects == undo + rest);
    lemma_perform_concat(during, undo, rest);
    let undone = during.perform_all(undo);
    assert(undone.perform_all(rest) == undone) by {
        reveal_with_fuel(World::perform_all, 4);
    }
    lemma_restores_take_back(world, steps, during, editor, doc);
}

/// A proposal applies as a whole or not at all: when one of its diffs does not apply, the
/// documents that the earlier ones touched hold what they held before.
pub proof fn law_a_proposal_applies_whole_or_not_at_all(
    world: World,
    steps: Seq<Step>,
    panel: PanelView,
    editor: EditorView,
    draft: DraftView,
    error: Seq<char>,
    doc: u64,
)
    requires
        draft.edits == edits_of(steps),
        savepoints_differ(steps),
        touches(steps, doc) ==> can_take_back(steps, editor, doc),
    ensures
        ({
            let (after, next) = after_edit(panel, editor, draft, Err(error));
            let applied = world.propose_all(steps);
            &&& next is None
            &&& is_taken_back(
                world,
                applied,
                applied.perform_all(given(panel, after)),
                steps,
                doc,
            )
        }),
{
    let applied = world.propose_all(steps);
    let after = after_edit(panel, editor, draft, Err(error)).0;
    let undo = restores(draft.edits, editor);
    let effects = given(panel, after);
    let rest = effects.skip(undo.len() as int);
    assert(effects == undo + rest);
    lemma_perform_concat(applied, undo, rest);
    let undone = applied.perform_all(undo);
    assert(undone.perform_all(rest) == undone) by {
        reveal_with_fuel(World::perform_all, 3);
    }
    lemma_restores_take_back(world, steps, applied, editor, doc);
}

/// What goes up for review is the whole proposal: one edit for each of its diffs, in order, and
/// the request and the options that it came with.
pub proof fn law_a_proposal_is_reviewed_whole(
    panel: PanelView,
    editor: EditorView,
    draft: DraftView,
    edit: AppliedEdit,
)
    requires
        draft.wf(),
        panel.assist is Some,
    ensures
        ({
            let (after, next) = after_edit(panel, editor, draft, Ok(edit));
            match next {
                Some(next) => after == panel && next.wf() && next == (DraftView {
                    edits: draft.edits.push(edit),
                    ..draft
                }),
                None => {
                    &&& after.assist matches Some(session)
                    &&& session.review matches Some(review)
                    &&& review.edits == draft.edits.push(edit)
                    &&& review.edits.len() == draft.diffs.len()
                    &&& review.responder == Some(draft.request)
                    &&& review.options == draft.options
                    &&& !review.editing
                },
            }
        }),
{
}

/// Whether `during` is what became of `before` without a commit: its history is the same, and
/// where nothing is pending nothing changed.
pub open spec fn is_ahead(before: Buffer, during: Buffer) -> bool {
    &&& during.revisions == before.revisions
    &&& during.pending || during.text == before.text
}

/// A proposal commits nothing.
proof fn lemma_proposed_is_ahead(world: World, steps: Seq<Step>, doc: u64)
    ensures
        is_ahead(world.buffers[doc], world.propose_all(steps).buffers[doc]),
    decreases steps.len(),
{
    if steps.len() > 0 {
        lemma_proposed_is_ahead(world, steps.drop_last(), doc);
    }
}

/// Committing turns the pending changes of every touched document into one revision.
proof fn lemma_commits_once(world: World, steps: Seq<Step>, editor: EditorView, doc: u64)
    ensures
        world.perform_all(commits(edits_of(steps), editor)).buffers[doc] == if can_commit(
            steps,
            editor,
            doc,
        ) {
            world.buffers[doc].committed()
        } else {
            world.buffers[doc]
        },
    decreases steps.len(),
{
    let edits = edits_of(steps);
    if steps.len() == 0 {
        assert(commits(edits, editor) == Seq::<EffectView>::empty());
    } else {
        let front = steps.drop_last();
        let edit = steps.last().edit;
        assert(steps[steps.len() - 1] == steps.last());
        assert(edits.last() == edit);
        assert(edits.drop_last() == edits_of(front));
        lemma_commits_once(world, front, editor, doc);
        assert(can_commit(steps, editor, doc) <==> can_commit(front, editor, doc) || (edit.doc
            == doc && editor.is_live(edit))) by {
            if can_commit(front, editor, doc) {
                let i = choose|i: int|
                    0 <= i < front.len() && (#[trigger] front[i]).edit.doc == doc
                        && editor.is_live(front[i].edit);
                assert(steps[i].edit.doc == doc);
            }
            if can_commit(steps, editor, doc) {
                let i = choose|i: int|
                    0 <= i < steps.len() && (#[trigger] steps[i]).edit.doc == doc
                        && editor.is_live(steps[i].edit);
                if i < front.len() {
                    assert(front[i].edit.doc == doc);
                }
            }
        }
        if editor.is_live(edit) {
            let effects = commits(edits, editor);
            assert(effects.drop_last() == commits(edits_of(front), editor));
        }
    }
}

/// Accepting keeps the proposed edits, and what the user did on top of them, each document that
/// they changed as exactly one undo revision, so that a single undo returns it to what it was
/// before the agent touched it; no other document changes. Nothing is committed before that by
/// the proposal itself.
pub proof fn law_accepting_commits_one_undo_revision(
    world: World,
    steps: Seq<Step>,
    during: World,
    panel: PanelView,
    editor: EditorView,
    doc: u64,
)
    requires
        panel.assist matches Some(session) && session.review matches Some(review)
            && review.edits == edits_of(steps),
        touches(steps, doc) ==> can_commit(steps, editor, doc) && world.buffers[doc].is_settled()
            && is_ahead(world.buffers[doc], during.buffers[doc]),
    ensures
        ({
            let before = world.buffers[doc];
            let after = during.perform_all(
                given(panel, resolved(panel, editor, Verdict::Accept)),
            ).buffers[doc];
            if touches(steps, doc) {
                &&& after.text == during.buffers[doc].text
                &&& after.is_committed()
                &&& if during.buffers[doc].pending {
                    &&& after.revisions == before.revisions.push(after.text)
                    &&& after.undone() == before.text
                } else {
                    after.revisions == before.revisions && after.text == before.text
                }
            } else {
                after == during.buffers[doc]
            }
        }),
        is_ahead(world.buffers[doc], world.propose_all(steps).buffers[doc]),
        !touches(steps, doc) ==> world.propose_all(steps).buffers[doc] == world.buffers[doc],
{
    let review = panel.assist->0.review->0;
    let keep = commits(review.edits, editor);
    let effects = given(panel, resolved(panel, editor, Verdict::Accept));
    assert(effects == keep + answer(review, true));
    lemma_perform_concat(during, keep, answer(review, true));
    lemma_answer_leaves_buffers(during.perform_all(keep), review, true);
    lemma_commits_once(during, steps, editor, doc);
    lemma_proposed_is_ahead(world, steps, doc);
    assert(can_commit(steps, editor, doc) ==> touches(steps, doc));
    if !touches(steps, doc) {
        lemma_propose_elsewhere(world, steps, doc);
    }
}

/// Declining a request touches no buffer.
pub proof fn law_declining_touches_no_buffer(
    world: World,
    panel: PanelView,
    request: u64,
    reason: Seq<char>,
)
    ensures
        world.perform_all(given(panel, declined(panel, request, reason))) == world,
{
    let reply = EffectView::Reply { request, outcome: OutcomeView::Cancelled };
    assert(given(panel, declined(panel, request, reason)) == seq![reply]);
    lemma_perform_one(world, reply);
}

/// Until there is a verdict nothing is committed and nothing is taken back: putting a proposal
/// up for review, handing it to the user to correct and taking it up again change no buffer.
pub proof fn law_reviewing_touches_no_buffer(
    world: World,
    panel: PanelView,
    editor: EditorView,
    draft: DraftView,
    edit: AppliedEdit,
)
    ensures
        world.perform_all(given(panel, after_edit(panel, editor, draft, Ok(edit)).0)) == world,
        world.perform_all(given(panel, resolved(panel, editor, Verdict::Edit))) == world,
        world.perform_all(given(panel, resumed(panel))) == world,
{
    reveal_with_fuel(World::perform_all, 3);
}

/// A hunk makes one change to its buffer, and the span to select is exactly its new text.
pub proof fn law_a_hunk_is_one_change(text: Seq<char>, from: int, to: int, insert: Seq<char>)
    requires
        0 <= from <= to <= text.len(),
        from < to || insert.len() > 0,
    ensures
        ({
            let changes = seq![ChangeView { from, to, insert }];
            let new_text = TransactionView::Replace { from, to, text: insert }.apply(text);
            &&& ordered(changes, text.len() as int)
            &&& applied(text, changes) == new_text
            &&& span(changes) == Some((from, from + insert.len()))
            &&& new_text.len() <= usize::MAX ==> selected(
                changes,
                text.len() as int,
                new_text.len() as int,
            ) == span(changes)
            &&& new_text.subrange(from, from + insert.len()) == insert
        }),
{
    let changes = seq![ChangeView { from, to, insert }];
    assert(changes.drop_last() == Seq::<ChangeView>::empty());
    assert(changes.take(0) == Seq::<ChangeView>::empty());
    assert(applied(text.take(from), changes.drop_last()) == text.take(from));
}

/// What a read of the file at `path` shows in a world: a window of the buffer when one is
/// open, and of the disk otherwise.
pub open spec fn shown(
    world: World,
    editor: EditorView,
    path: Seq<u8>,
    line: Option<u32>,
    limit: Option<u32>,
) -> Seq<char> {
    match source_of(editor, path) {
        ReadSource::Buffer(doc) => window(world.buffers[doc].text, line, limit),
        ReadSource::Disk => window(world.disk[path], line, limit),
    }
}

/// A read gives back what a write wrote: all of it, and any window of it, whether the file is
/// open in a buffer or not.
pub proof fn law_a_read_gives_back_what_a_write_wrote(
    world: World,
    editor: EditorView,
    path: Seq<u8>,
    content: Seq<char>,
    has_parent: bool,
    line: Option<u32>,
    limit: Option<u32>,
)
    ensures
        ({
            let after = world.write(path, write_plan(editor, path, content, has_parent));
            &&& shown(after, editor, path, None, None) == content
            &&& shown(after, editor, path, line, limit) == window(content, line, limit)
        }),
{
}

/// A file that is open is read from its buffer and written to it: neither what is on disk nor
/// any other buffer matters, or changes.
pub proof fn law_an_open_file_never_touches_the_disk(
    world: World,
    other: World,
    editor: EditorView,
    path: Seq<u8>,
    content: Seq<char>,
    has_parent: bool,
    line: Option<u32>,
    limit: Option<u32>,
    doc: u64,
)
    requires
        editor.document_at(path) == Some(doc),
        other.buffers[doc] == world.buffers[doc],
    ensures
        shown(other, editor, path, line, limit) == shown(world, editor, path, line, limit),
        ({
            let after = world.write(path, write_plan(editor, path, content, has_parent));
            &&& after.disk == world.disk
            &&& forall|elsewhere: u64|
                elsewhere != doc ==> #[trigger] after.buffers[elsewhere]
                    == world.buffers[elsewhere]
        }),
{
}

/// A write to an open file can be undone: the change is pending, on top of the history that the
/// document had. Writing what the document holds already changes nothing.
pub proof fn law_a_write_to_a_buffer_can_be_undone(
    world: World,
    editor: EditorView,
    path: Seq<u8>,
    content: Seq<char>,
    has_parent: bool,
    doc: u64,
)
    requires
        editor.document_at(path) == Some(doc),
        world.buffers[doc].is_settled(),
    ensures
        ({
            let before = world.buffers[doc];
            let after = world.write(
                path,
                write_plan(editor, path, content, has_parent),
            ).buffers[doc];
            if content == before.text {
                after == before
            } else {
                &&& after.pending
                &&& after.committed().text == content
                &&& after.committed().undone() == before.text
            }
        }),
{
}

/// A document is found at a path exactly when one is open there, and it is open there.
pub proof fn law_a_document_is_found_where_it_is_open(editor: EditorView, path: Seq<u8>)
    ensures
        match editor.document_at(path) {
            Some(doc) => exists|i: int|
                #![trigger editor.documents[i]]
                0 <= i < editor.documents.len() && editor.documents[i].id == doc
                    && editor.documents[i].path == Some(path),
            None => editor.opens_nowhere(path),
        },
{
    if !editor.opens_nowhere(path) {
        let j = choose|j: int|
            0 <= j < editor.documents.len() && (#[trigger] editor.documents[j]).path == Some(
                path,
            );
        let first = lemma_first_open(editor, path, j);
        let i = choose|i: int| editor.opens_first(path, i);
        assert(editor.opens_first(path, i));
        assert(editor.documents[i].path == Some(path));
    }
}

proof fn lemma_first_open(editor: EditorView, path: Seq<u8>, j: int) -> (first: int)
    requires
        0 <= j < editor.documents.len(),
        editor.documents[j].path == Some(path),
    ensures
        editor.opens_first(path, first),
    decreases j,
{
    if exists|k: int| 0 <= k < j && (#[trigger] editor.documents[k]).path == Some(path) {
        let k = choose|k: int| 0 <= k < j && (#[trigger] editor.documents[k]).path == Some(path);
        lemma_first_open(editor, path, k)
    } else {
        j
    }
}

/// Whether the transcript of `after` is that of `before` with something behind it.
pub open spec fn continues(before: PanelView, after: PanelView) -> bool {
    match before.assist {
        Some(session) => after.assist matches Some(later)
            && session.transcript.is_prefix_of(later.transcript),
        None => after.assist is None,
    }
}

/// The transcript only ever grows: no update, turn, verdict, review or cancel takes anything
/// out of it.
pub proof fn law_the_transcript_only_grows(
    panel: PanelView,
    editor: EditorView,
    update: SessionUpdateView,
    text: Seq<char>,
    verdict: Verdict,
    draft: DraftView,
    applied: Result<AppliedEdit, Seq<char>>,
)
    ensures
        continues(panel, panel.say(text)),
        continues(panel, updated(panel, update)),
        continues(panel, turn_started(panel, text)),
        continues(panel, turn_ended(panel, text)),
        continues(panel, resolved(panel, editor, verdict)),
        continues(panel, resumed(panel)),
        continues(panel, cancelled(panel, editor)),
        continues(panel, after_edit(panel, editor, draft, applied).0),
{
}

/// Restarting a dead agent keeps the history on screen.
pub proof fn law_a_restart_keeps_the_transcript(before: PanelView, after: PanelView)
    requires
        before.assist is Some,
        is_restarted(before, after),
    ensures
        continues(before, after),
{
}

/// The panel is not a buffer: opening it, and thereby starting or restarting its agent, opens no
/// document, changes none, and reports no error.
pub proof fn law_the_panel_is_not_a_buffer(world: World, before: PanelView, after: PanelView)
    requires
        is_restarted(before, after),
    ensures
        world.perform_all(given(before, after)) == world,
        forall|i: int|
            0 <= i < given(before, after).len() ==> !((#[trigger] given(before, after)[i])
                is OpenScratch) && !(given(before, after)[i] is SetError),
{
    reveal_with_fuel(World::perform_all, 3);
}

/// New output snaps the panel back to the newest line, wherever the user had scrolled.
pub proof fn law_new_output_pins_the_panel(panel: PanelView, text: Seq<char>)
    ensures
        panel.say(text).assist matches Some(session) ==> session.scroll == 0,
{
}

/// The end of a turn frees the session, and nothing but that does: no update, review, verdict
/// or cancel makes a busy session free.
pub proof fn law_only_the_end_of_a_turn_frees_the_session(
    panel: PanelView,
    editor: EditorView,
    update: SessionUpdateView,
    text: Seq<char>,
    verdict: Verdict,
    draft: DraftView,
    applied: Result<AppliedEdit, Seq<char>>,
)
    requires
        panel.assist matches Some(session) && session.busy,
    ensures
        turn_ended(panel, text).assist matches Some(session) && !session.busy,
        updated(panel, update).assist matches Some(session) && session.busy,
        turn_started(panel, text).assist matches Some(session) && session.busy,
        resolved(panel, editor, verdict).assist matches Some(session) && session.busy,
        resumed(panel).assist matches Some(session) && session.busy,
        cancelled(panel, editor).assist matches Some(session) && session.busy,
        after_edit(panel, editor, draft, applied).0.assist matches Some(session) && session.busy,
{
}

/// Handing a proposal to the user to correct and taking it up again changes nothing of what
/// is under review.
pub proof fn law_resuming_undoes_editing(panel: PanelView, editor: EditorView)
    requires
        panel.assist matches Some(session) && session.review matches Some(review)
            && !review.editing,
    ensures
        resumed(resolved(panel, editor, Verdict::Edit)).assist == panel.assist,
{
}

} // verus!
