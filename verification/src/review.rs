//! Reviewing a proposal: from the agent's request, over its edits, to the user's verdict.

use crate::editor::Editor;
use crate::editor::EditorView;
use crate::effect::Effect;
use crate::effect::EffectView;
use crate::layout::Rect;
use crate::panel::Panel;
use crate::panel::PanelView;
use crate::panel::append;
use crate::permission::Outcome;
use crate::permission::OutcomeView;
use crate::permission::PermissionOption;
use crate::permission::PermissionOptionKind;
use crate::permission::PermissionOptionView;
use crate::permission::law_once_is_picked_before_always;
use crate::permission::option_views;
use crate::permission::outcome;
use crate::permission::outcome_for;
use crate::proposal::Diff;
use crate::proposal::DiffView;
use crate::session::AppliedEdit;
use crate::session::PendingReview;
use crate::session::ReviewView;
use crate::session::SessionView;
use crate::text::decimal;
use crate::text::enclose;
use crate::text::to_decimal;
use vstd::prelude::*;
use vstd::string::*;

verus! {

/// One item of a tool call's content.
pub enum ToolCallContent {
    Diff(Diff),
    /// Content that no buffer can show.
    Other,
}

/// What an item of a tool call's content says.
pub enum ToolCallContentView {
    Diff(DiffView),
    Other,
}

impl View for ToolCallContent {
    type V = ToolCallContentView;

    open spec fn view(&self) -> ToolCallContentView {
        match *self {
            ToolCallContent::Diff(diff) => ToolCallContentView::Diff(diff@),
            ToolCallContent::Other => ToolCallContentView::Other,
        }
    }
}

/// A request for permission to make a tool call.
pub struct PermissionRequest {
    /// By which the host finds the request again when it is answered.
    pub id: u64,
    pub title: Option<String>,
    pub content: Option<Vec<ToolCallContent>>,
    pub options: Vec<PermissionOption>,
}

/// What a [`PermissionRequest`] says.
pub struct PermissionRequestView {
    pub id: u64,
    pub title: Option<Seq<char>>,
    pub content: Option<Seq<ToolCallContentView>>,
    pub options: Seq<PermissionOptionView>,
}

/// What each item of a content list says.
pub open spec fn content_views(content: Seq<ToolCallContent>) -> Seq<ToolCallContentView> {
    content.map_values(|item: ToolCallContent| item@)
}

impl View for PermissionRequest {
    type V = PermissionRequestView;

    open spec fn view(&self) -> PermissionRequestView {
        PermissionRequestView {
            id: self.id,
            title: match self.title {
                Some(title) => Some(title@),
                None => None,
            },
            content: match self.content {
                Some(content) => Some(content_views(content@)),
                None => None,
            },
            options: option_views(self.options@),
        }
    }
}

/// The diffs among the items, in order.
pub open spec fn diffs_in(content: Seq<ToolCallContentView>) -> Seq<DiffView>
    decreases content.len(),
{
    if content.len() == 0 {
        Seq::empty()
    } else {
        match content.last() {
            ToolCallContentView::Diff(diff) => diffs_in(content.drop_last()).push(diff),
            ToolCallContentView::Other => diffs_in(content.drop_last()),
        }
    }
}

/// What each of the diffs says.
pub open spec fn diff_views(diffs: Seq<Diff>) -> Seq<DiffView> {
    diffs.map_values(|diff: Diff| diff@)
}

impl PermissionRequestView {
    /// How the request is called.
    pub open spec fn heading(self) -> Seq<char> {
        match self.title {
            Some(title) => title,
            None => "proposed edit"@,
        }
    }

    /// The diffs that the request asks permission for.
    pub open spec fn diffs(self) -> Seq<DiffView> {
        match self.content {
            Some(content) => diffs_in(content),
            None => Seq::empty(),
        }
    }
}

/// A proposal on its way into the buffers: the host applies the diffs one by one, and each
/// that is applied joins the edits.
pub struct ReviewDraft {
    pub request: u64,
    pub title: String,
    pub options: Vec<PermissionOption>,
    pub diffs: Vec<Diff>,
    pub edits: Vec<AppliedEdit>,
}

/// What a [`ReviewDraft`] holds.
#[verifier::ext_equal]
pub struct DraftView {
    pub request: u64,
    pub title: Seq<char>,
    pub options: Seq<PermissionOptionView>,
    pub diffs: Seq<DiffView>,
    pub edits: Seq<AppliedEdit>,
}

impl View for ReviewDraft {
    type V = DraftView;

    open spec fn view(&self) -> DraftView {
        DraftView {
            request: self.request,
            title: self.title@,
            options: option_views(self.options@),
            diffs: diff_views(self.diffs@),
            edits: self.edits@,
        }
    }
}

impl DraftView {
    /// Whether a diff is left to apply.
    pub open spec fn wf(self) -> bool {
        self.edits.len() < self.diffs.len()
    }

    /// What the title is followed by: the number of files, if there are several.
    pub open spec fn scope(self) -> Seq<char> {
        if self.diffs.len() == 1 {
            Seq::empty()
        } else {
            " ("@ + decimal(self.diffs.len()) + " files)"@
        }
    }

    /// The review that a complete draft becomes.
    pub open spec fn review(self) -> ReviewView {
        ReviewView {
            responder: Some(self.request),
            options: self.options,
            edits: self.edits,
            editing: false,
        }
    }
}

impl ReviewDraft {
    /// The diff to apply next.
    pub fn next_diff(&self) -> (diff: &Diff)
        requires
            self@.wf(),
        ensures
            diff@ == self@.diffs[self@.edits.len() as int],
    {
        &self.diffs[self.edits.len()]
    }
}

/// The panel after a request was answered without touching any buffer.
pub open spec fn declined(panel: PanelView, request: u64, reason: Seq<char>) -> PanelView {
    panel.say("\n_(declined: "@ + reason + ")_\n"@).emit(
        EffectView::Reply { request, outcome: OutcomeView::Cancelled },
    )
}

/// Answer the agent without touching any buffer.
pub fn decline(panel: &mut Panel, request: u64, reason: &str)
    ensures
        final(panel)@ == declined(old(panel)@, request, reason@),
{
    let note = enclose("\n_(declined: ", reason, ")_\n");
    append(panel, note.as_str());
    panel.emit(Effect::Reply { request, outcome: Outcome::Cancelled });
}

/// The effects that take the edits back out of their buffers, the last one first.
pub open spec fn restores(edits: Seq<AppliedEdit>, editor: EditorView) -> Seq<EffectView>
    decreases edits.len(),
{
    if edits.len() == 0 {
        Seq::empty()
    } else {
        let edit = edits.last();
        let rest = restores(edits.drop_last(), editor);
        if editor.is_live(edit) {
            seq![
                EffectView::Restore { doc: edit.doc, view: edit.view, savepoint: edit.savepoint },
            ] + rest
        } else {
            rest
        }
    }
}

/// The effects that commit the edits to the history of their documents, in order.
pub open spec fn commits(edits: Seq<AppliedEdit>, editor: EditorView) -> Seq<EffectView>
    decreases edits.len(),
{
    if edits.len() == 0 {
        Seq::empty()
    } else {
        let edit = edits.last();
        let rest = commits(edits.drop_last(), editor);
        if editor.is_live(edit) {
            rest.push(EffectView::Commit { doc: edit.doc, view: edit.view })
        } else {
            rest
        }
    }
}

impl PanelView {
    /// The panel with more effects to perform.
    pub open spec fn emit_all(self, effects: Seq<EffectView>) -> PanelView {
        PanelView { effects: self.effects + effects, ..self }
    }
}

/// Take a whole proposal back out of its buffers.
///
/// Each restore reverts everything since its savepoint, which during a review is exactly
/// that file's edit plus any hand-corrections made to it. Reverse order, so that two edits
/// to the same file unwind correctly.
pub fn revert_all(panel: &mut Panel, editor: &Editor, edits: &Vec<AppliedEdit>)
    ensures
        final(panel)@ == old(panel)@.emit_all(restores(edits@, editor@)),
{
    let mut i: usize = edits.len();
    let ghost all = restores(edits@, editor@);
    assert(edits@.take(edits@.len() as int) == edits@);
    assert(panel@.emit_all(all) == old(panel)@.emit_all(all));
    while i > 0
        invariant
            i <= edits@.len(),
            panel@.emit_all(restores(edits@.take(i as int), editor@)) == old(panel)@.emit_all(all),
        decreases i,
    {
        i -= 1;
        let edit = &edits[i];
        let ghost before = panel@;
        let ghost rest = restores(edits@.take(i as int), editor@);
        assert(edits@.take(i + 1).drop_last() == edits@.take(i as int));
        if editor.is_live(edit) {
            panel.emit(
                Effect::Restore { doc: edit.doc, view: edit.view, savepoint: edit.savepoint },
            );
            assert(panel@.emit_all(rest) == before.emit_all(
                restores(edits@.take(i + 1), editor@),
            ));
        }
    }
    assert(panel@.emit_all(Seq::empty()) == panel@);
}

/// Commit exactly one undo revision per touched file.
fn commit_all(panel: &mut Panel, editor: &Editor, edits: &Vec<AppliedEdit>)
    ensures
        final(panel)@ == old(panel)@.emit_all(commits(edits@, editor@)),
{
    let mut i: usize = 0;
    assert(edits@.take(0) == Seq::<AppliedEdit>::empty());
    assert(panel@.emit_all(Seq::empty()) == panel@);
    while i < edits.len()
        invariant
            i <= edits@.len(),
            panel@ == old(panel)@.emit_all(commits(edits@.take(i as int), editor@)),
        decreases edits@.len() - i,
    {
        let edit = &edits[i];
        let ghost before = panel@;
        assert(edits@.take(i + 1).drop_last() == edits@.take(i as int));
        if editor.is_live(edit) {
            panel.emit(Effect::Commit { doc: edit.doc, view: edit.view });
        }
        assert(panel@ == old(panel)@.emit_all(commits(edits@.take(i + 1), editor@)));
        i += 1;
    }
    assert(edits@.take(edits@.len() as int) == edits@);
}

/// The diffs among the items, in order.
fn collect_diffs(content: Vec<ToolCallContent>) -> (diffs: Vec<Diff>)
    ensures
        diff_views(diffs@) == diffs_in(content_views(content@)),
{
    let ghost all = content_views(content@);
    let mut diffs: Vec<Diff> = Vec::new();
    assert(all.take(0) == Seq::<ToolCallContentView>::empty());
    assert(diff_views(diffs@) == diffs_in(all.take(0)));
    for item in it: content
        invariant
            all == content_views(content@),
            it.seq() == content@,
            diff_views(diffs@) == diffs_in(all.take(it.index())),
    {
        let ghost before = diffs@;
        proof {
            assert(all.take(it.index() + 1).drop_last() == all.take(it.index()));
            assert(all.take(it.index() + 1).last() == item@);
        }
        match item {
            ToolCallContent::Diff(diff) => {
                diffs.push(diff);
                assert(diff_views(diffs@) == diff_views(before).push(diff@));
            },
            ToolCallContent::Other => {},
        }
    }
    assert(all.take(all.len() as int) == all);
    diffs
}

/// The draft that a request starts.
pub open spec fn new_draft(request: PermissionRequestView) -> DraftView {
    DraftView {
        request: request.id,
        title: request.heading(),
        options: request.options,
        diffs: request.diffs(),
        edits: Seq::empty(),
    }
}

/// The panel, and the draft if there is anything to review, once a request came in.
pub open spec fn begun(panel: PanelView, request: PermissionRequestView) -> (
    PanelView,
    Option<DraftView>,
) {
    if request.diffs().len() == 0 {
        (declined(panel, request.id, request.heading() + ": nothing to review"@), None)
    } else {
        (panel, Some(new_draft(request)))
    }
}

/// Start on a permission request. Anything that cannot be shown as an in-buffer edit is
/// declined rather than guessed at; otherwise the host applies the diffs of the draft, one
/// after the other, and hands each result to [`review_edit`].
pub fn begin_review(panel: &mut Panel, request: PermissionRequest) -> (result: Option<ReviewDraft>)
    ensures
        (final(panel)@, match result {
            Some(draft) => Some(draft@),
            None => None,
        }) == begun(old(panel)@, request@),
        result matches Some(draft) ==> draft@.wf(),
{
    let title = match request.title {
        Some(title) => title,
        None => "proposed edit".to_owned(),
    };
    let diffs = match request.content {
        Some(content) => collect_diffs(content),
        None => {
            let none: Vec<Diff> = Vec::new();
            assert(diff_views(none@) == Seq::<DiffView>::empty());
            none
        },
    };
    if diffs.len() == 0 {
        let mut reason = title;
        reason.append(": nothing to review");
        decline(panel, request.id, reason.as_str());
        return None;
    }
    Some(
        ReviewDraft {
            request: request.id,
            title,
            options: request.options,
            diffs,
            edits: Vec::new(),
        },
    )
}

/// The panel after a complete proposal was put up for review. Without a session the request
/// is cancelled; a review that was already up gives way, and its request is cancelled.
pub open spec fn installed(panel: PanelView, draft: DraftView) -> PanelView {
    match panel.assist {
        None => panel.dismiss(Some(draft.review())),
        Some(session) => {
            let replaced = panel.dismiss(session.review);
            PanelView {
                assist: Some(SessionView { review: Some(draft.review()), ..session }),
                ..replaced
            }.say("\n_reviewing_ `"@ + draft.title + "`"@ + draft.scope() + "\n"@).emit(
                EffectView::PushGate { title: draft.title + draft.scope() },
            )
        },
    }
}

/// Put a complete proposal up for review.
fn install(panel: &mut Panel, draft: ReviewDraft)
    ensures
        final(panel)@ == installed(old(panel)@, draft@),
{
    let scope = if draft.diffs.len() == 1 {
        String::new()
    } else {
        enclose(" (", to_decimal(draft.diffs.len()).as_str(), " files)")
    };
    assert(scope@ == draft@.scope());
    let mut note = enclose("\n_reviewing_ `", draft.title.as_str(), "`");
    note.append(scope.as_str());
    note.append("\n");
    let mut title = draft.title;
    title.append(scope.as_str());
    let review = PendingReview {
        responder: Some(draft.request),
        options: draft.options,
        edits: draft.edits,
        editing: false,
    };
    assert(review@ == draft@.review());
    let replaced: Option<PendingReview> = match &mut panel.assist {
        Some(session) => {
            let replaced = session.review.take();
            session.review = Some(review);
            replaced
        },
        None => {
            panel.dismiss(Some(review));
            return ;
        },
    };
    panel.dismiss(replaced);
    append(panel, note.as_str());
    panel.emit(Effect::PushGate { title });
}

/// The panel, and the draft if there is more to apply, after the next diff of `draft` was
/// applied, or was not.
///
/// All or nothing: where a diff does not apply, those that already did are backed out.
pub open spec fn after_edit(
    panel: PanelView,
    editor: EditorView,
    draft: DraftView,
    applied: Result<AppliedEdit, Seq<char>>,
) -> (PanelView, Option<DraftView>) {
    match applied {
        Ok(edit) => {
            let next = DraftView { edits: draft.edits.push(edit), ..draft };
            if next.wf() {
                (panel, Some(next))
            } else {
                (installed(panel, next), None)
            }
        },
        Err(error) => (
            declined(
                panel.emit_all(restores(draft.edits, editor)),
                draft.request,
                draft.title + ": "@ + error,
            ),
            None,
        ),
    }
}

/// What a result says of an edit.
pub open spec fn applied_view(applied: Result<AppliedEdit, String>) -> Result<
    AppliedEdit,
    Seq<char>,
> {
    match applied {
        Ok(edit) => Ok(edit),
        Err(error) => Err(error@),
    }
}

/// Go on with a draft once the host has applied its next diff, or could not. The draft comes
/// back while there is more to apply; a complete one goes up for review.
pub fn review_edit(
    panel: &mut Panel,
    editor: &Editor,
    draft: ReviewDraft,
    applied: Result<AppliedEdit, String>,
) -> (result: Option<ReviewDraft>)
    requires
        draft@.wf(),
    ensures
        (final(panel)@, match result {
            Some(next) => Some(next@),
            None => None,
        }) == after_edit(old(panel)@, editor@, draft@, applied_view(applied)),
        result matches Some(next) ==> next@.wf(),
{
    let mut draft = draft;
    match applied {
        Ok(edit) => {
            draft.edits.push(edit);
            if draft.edits.len() < draft.diffs.len() {
                return Some(draft);
            }
            install(panel, draft);
        },
        Err(error) => {
            revert_all(panel, editor, &draft.edits);
            let reason = enclose(draft.title.as_str(), ": ", error.as_str());
            decline(panel, draft.request, reason.as_str());
        },
    }
    None
}

/// What the user decided about a proposed edit.
#[derive(Clone, Copy, Debug, PartialEq, Eq, Structural)]
pub enum Verdict {
    Accept,
    Reject,
    /// Dismiss the review gate and let the user fix the edit by hand.
    Edit,
}

/// The answer to the request of a review, if it still waits for one.
pub open spec fn answer(review: ReviewView, allow: bool) -> Seq<EffectView> {
    match review.responder {
        Some(request) => seq![
            EffectView::Reply { request, outcome: outcome_for(review.options, allow) },
        ],
        None => Seq::empty(),
    }
}

/// The panel after a verdict on the proposal under review.
///
/// Accepting commits every edit and answers with an option that allows; rejecting takes
/// every edit back and answers with one that rejects. A proposal to be edited by hand stays,
/// unanswered. Without a review there is nothing to decide.
pub open spec fn resolved(panel: PanelView, editor: EditorView, verdict: Verdict) -> PanelView {
    match panel.assist {
        Some(session) => match session.review {
            Some(review) => {
                let closed = PanelView {
                    assist: Some(SessionView { review: None, ..session }),
                    ..panel
                };
                match verdict {
                    Verdict::Edit => PanelView {
                        assist: Some(
                            SessionView {
                                review: Some(ReviewView { editing: true, ..review }),
                                ..session
                            },
                        ),
                        ..panel
                    }.emit(
                        EffectView::SetStatus(
                            "assist: editing proposal \u{2014} space+A to resume review"@,
                        ),
                    ),
                    Verdict::Accept => closed.emit_all(commits(review.edits, editor)).emit_all(
                        answer(review, true),
                    ).say("\n_(accepted)_\n"@),
                    Verdict::Reject => closed.emit_all(restores(review.edits, editor)).emit_all(
                        answer(review, false),
                    ).say("\n_(rejected)_\n"@),
                }
            },
            None => panel,
        },
        None => panel,
    }
}

/// Act on the user's verdict and answer the agent.
pub fn resolve(panel: &mut Panel, editor: &Editor, verdict: Verdict)
    ensures
        final(panel)@ == resolved(old(panel)@, editor@, verdict),
{
    let taken: Option<PendingReview> = match &mut panel.assist {
        Some(session) => match verdict {
            Verdict::Edit => {
                // Leave the edit in place, unanswered, and hand the buffer back to the user.
                match &mut session.review {
                    Some(review) => {
                        review.editing = true;
                    },
                    None => {
                        return ;
                    },
                }
                None
            },
            _ => session.review.take(),
        },
        None => {
            return ;
        },
    };
    let review = match taken {
        Some(review) => review,
        None => {
            match verdict {
                Verdict::Edit => {
                    panel.emit(
                        Effect::SetStatus(
                            "assist: editing proposal \u{2014} space+A to resume review".to_owned(),
                        ),
                    );
                },
                _ => {},
            }
            return ;
        },
    };
    let allow = matches!(verdict, Verdict::Accept);
    if allow {
        commit_all(panel, editor, &review.edits);
    } else {
        revert_all(panel, editor, &review.edits);
    }
    let ghost before = panel@;
    match review.responder {
        Some(request) => {
            panel.emit(Effect::Reply { request, outcome: outcome(&review.options, allow) });
        },
        None => {},
    }
    assert(panel@ == before.emit_all(answer(review@, allow)));
    if allow {
        append(panel, "\n_(accepted)_\n");
    } else {
        append(panel, "\n_(rejected)_\n");
    }
}

/// Whether a proposal waits for the user to finish correcting it by hand.
pub open spec fn is_editing(panel: PanelView) -> bool {
    &&& panel.assist matches Some(session)
    &&& session.review matches Some(review)
    &&& review.editing
}

/// The panel after the review gate was put up again for a proposal that was corrected by hand.
pub open spec fn resumed(panel: PanelView) -> PanelView {
    if is_editing(panel) {
        let session = panel.assist->0;
        PanelView {
            assist: Some(
                SessionView {
                    review: Some(ReviewView { editing: false, ..session.review->0 }),
                    ..session
                },
            ),
            ..panel
        }.emit(EffectView::PushGate { title: "edited proposal"@ })
    } else {
        panel
    }
}

/// Re-open the review gate after the user hand-corrected a proposal. Returns whether it did.
pub fn resume_review(panel: &mut Panel) -> (result: bool)
    ensures
        result == is_editing(old(panel)@),
        final(panel)@ == resumed(old(panel)@),
{
    let resumed = match &mut panel.assist {
        Some(session) => match &mut session.review {
            Some(review) => if review.editing {
                review.editing = false;
                true
            } else {
                false
            },
            None => false,
        },
        None => false,
    };
    if resumed {
        panel.emit(Effect::PushGate { title: "edited proposal".to_owned() });
    }
    resumed
}

/// A key, as far as the review gate tells keys apart.
#[derive(Clone, Copy, Debug, PartialEq, Eq, Structural)]
pub enum KeyCode {
    Char(char),
    Esc,
    Other,
}

/// Something that happened while the review gate was up.
#[derive(Clone, Copy, Debug, PartialEq, Eq, Structural)]
pub enum Event {
    Key(KeyCode),
    Other,
}

/// What the review gate made of an event.
#[derive(Clone, Copy, Debug, PartialEq, Eq, Structural)]
pub enum EventResult {
    /// The event goes on to whatever is below the review gate.
    Ignored,
    /// The event ends here, with the verdict that it gave, if any.
    Consumed(Option<Verdict>),
}

/// One-line bar asking for a verdict on the proposal sitting in the buffer.
pub struct ReviewGate {
    pub title: String,
}

/// What the review gate makes of an event. It swallows every key: a stray one must not edit a
/// buffer that is holding an unreviewed proposal.
pub open spec fn gate_result(event: Event) -> EventResult {
    match event {
        Event::Key(KeyCode::Char('a')) => EventResult::Consumed(Some(Verdict::Accept)),
        Event::Key(KeyCode::Char('r')) => EventResult::Consumed(Some(Verdict::Reject)),
        Event::Key(KeyCode::Char('e')) | Event::Key(KeyCode::Esc) => EventResult::Consumed(
            Some(Verdict::Edit),
        ),
        Event::Key(_) => EventResult::Consumed(None),
        Event::Other => EventResult::Ignored,
    }
}

/// While the review gate is up no key gets past it, and only four of them decide anything.
pub proof fn law_the_gate_swallows_every_key(key: KeyCode)
    ensures
        gate_result(Event::Key(key)) matches EventResult::Consumed(verdict) && (verdict is Some <==>
            key == KeyCode::Char('a') || key == KeyCode::Char('r') || key == KeyCode::Char('e')
            || key == KeyCode::Esc),
{
}

impl ReviewGate {
    /// What the bar reads.
    pub open spec fn hint_text(&self) -> Seq<char> {
        " "@ + self.title@ + "   [a]ccept  [r]eject  [e]dit "@
    }

    /// What the review gate makes of an event.
    pub fn handle_event(&self, event: &Event) -> (result: EventResult)
        ensures
            result == gate_result(*event),
    {
        let key = match event {
            Event::Key(key) => key,
            Event::Other => return EventResult::Ignored,
        };
        let verdict = match key {
            KeyCode::Char('a') => Verdict::Accept,
            KeyCode::Char('r') => Verdict::Reject,
            KeyCode::Char('e') | KeyCode::Esc => Verdict::Edit,
            // Swallow anything else: a stray key must not edit a buffer that is holding an
            // unreviewed proposal.
            _ => return EventResult::Consumed(None),
        };
        EventResult::Consumed(Some(verdict))
    }

    /// What the bar reads, and where it stands: on the last row of `area`.
    pub fn render(&self, area: Rect) -> (result: (Rect, String))
        requires
            area.height > 0 ==> area.y + area.height - 1 <= u16::MAX,
        ensures
            result.0 == (Rect {
                x: area.x,
                y: (area.y + if area.height > 0 {
                    area.height - 1
                } else {
                    0
                }) as u16,
                width: area.width,
                height: 1,
            }),
            result.1@ == self.hint_text(),
            result.1@ == " "@ + self.title@ + "   [a]ccept  [r]eject  [e]dit "@,
    {
        let below: u16 = if area.height > 0 {
            area.height - 1
        } else {
            0
        };
        let bar = Rect { x: area.x, y: area.y + below, width: area.width, height: 1 };
        (bar, enclose(" ", self.title.as_str(), "   [a]ccept  [r]eject  [e]dit "))
    }
}

/// Take the review gate down and act on the verdict that it got.
pub fn decide(panel: &mut Panel, editor: &Editor, verdict: Verdict)
    ensures
        final(panel)@ == resolved(old(panel)@.emit(EffectView::RemoveGates), editor@, verdict),
{
    panel.emit(Effect::RemoveGates);
    resolve(panel, editor, verdict);
}

/// Every diff in the content of a tool call is taken, in order, and nothing else is, whatever
/// stands before it, between or behind.
pub proof fn law_every_diff_is_taken(
    front: Seq<ToolCallContentView>,
    back: Seq<ToolCallContentView>,
    diff: DiffView,
)
    ensures
        diffs_in(front + back) == diffs_in(front) + diffs_in(back),
        diffs_in(seq![ToolCallContentView::Diff(diff)]) == seq![diff],
        diffs_in(seq![ToolCallContentView::Other]) == Seq::<DiffView>::empty(),
        diffs_in(Seq::<ToolCallContentView>::empty()) == Seq::<DiffView>::empty(),
    decreases back.len(),
{
    let one = seq![ToolCallContentView::Diff(diff)];
    assert(one.drop_last() == Seq::<ToolCallContentView>::empty());
    assert(one.last() == ToolCallContentView::Diff(diff));
    assert(diffs_in(one.drop_last()) == Seq::<DiffView>::empty());
    assert(diffs_in(one) == Seq::<DiffView>::empty().push(diff));
    let other = seq![ToolCallContentView::Other];
    assert(other.drop_last() == Seq::<ToolCallContentView>::empty());
    if back.len() == 0 {
        assert(front + back == front);
    } else {
        law_every_diff_is_taken(front, back.drop_last(), diff);
        assert((front + back).drop_last() == front + back.drop_last());
        assert((front + back).last() == back.last());
    }
}

/// Content has a diff exactly where one of its items is one.
proof fn lemma_some_diff(content: Seq<ToolCallContentView>)
    ensures
        diffs_in(content).len() == 0 <==> forall|i: int|
            0 <= i < content.len() ==> !(#[trigger] content[i] is Diff),
    decreases content.len(),
{
    if content.len() > 0 {
        let front = content.drop_last();
        lemma_some_diff(front);
        assert(content[content.len() - 1] == content.last());
        if diffs_in(content).len() == 0 {
            assert forall|i: int| 0 <= i < content.len() implies !(
            #[trigger] content[i] is Diff) by {
                if i < front.len() {
                    assert(front[i] == content[i]);
                }
            }
        }
        if forall|i: int| 0 <= i < content.len() ==> !(#[trigger] content[i] is Diff) {
            assert forall|i: int| 0 <= i < front.len() implies !(#[trigger] front[i] is Diff) by {
                assert(front[i] == content[i]);
            }
        }
    }
}

/// A request is declined as nothing to review exactly when no item of its content is a diff, and
/// is then answered at once. Any other request becomes a draft of all its diffs, with none of them
/// applied yet, under its own number and title and with its own options, and leaves the panel
/// alone.
pub proof fn law_a_request_with_a_diff_is_drafted(panel: PanelView, request: PermissionRequestView)
    ensures
        ({
            let (after, draft) = begun(panel, request);
            let title = match request.title {
                Some(title) => title,
                None => "proposed edit"@,
            };
            match draft {
                Some(draft) => {
                    &&& after == panel
                    &&& request.content matches Some(content)
                    &&& exists|i: int| 0 <= i < content.len() && (#[trigger] content[i]) is Diff
                    &&& draft.diffs == diffs_in(content)
                    &&& draft.diffs.len() > 0
                    &&& draft.edits.len() == 0
                    &&& draft.request == request.id
                    &&& draft.title == title
                    &&& draft.options == request.options
                },
                None => {
                    &&& request.content matches Some(content) ==> forall|i: int|
                        0 <= i < content.len() ==> !(#[trigger] content[i] is Diff)
                    &&& after == declined(panel, request.id, title + ": nothing to review"@)
                },
            }
        }),
{
    if let Some(content) = request.content {
        lemma_some_diff(content);
    }
}

/// Declining notes the reason in the transcript and cancels the request, and does nothing else.
pub proof fn law_declining_notes_the_reason(panel: PanelView, request: u64, reason: Seq<char>)
    ensures
        ({
            let after = declined(panel, request, reason);
            &&& after.effects == panel.effects.push(
                (EffectView::Reply { request, outcome: OutcomeView::Cancelled }),
            )
            &&& panel.assist is None ==> after.assist is None
            &&& panel.assist matches Some(session) ==> after.assist == Some(
                (SessionView {
                    transcript: session.transcript + ("\n_(declined: "@ + reason + ")_\n"@),
                    scroll: 0,
                    ..session
                }),
            )
        }),
{
}

/// Each edit that is still there is taken back, the last one first, and each is committed, the
/// first one first: one effect for one edit, whatever the other edits are.
pub proof fn law_edits_are_unwound_one_by_one(
    edits: Seq<AppliedEdit>,
    edit: AppliedEdit,
    editor: EditorView,
)
    ensures
        restores(Seq::<AppliedEdit>::empty(), editor) == Seq::<EffectView>::empty(),
        commits(Seq::<AppliedEdit>::empty(), editor) == Seq::<EffectView>::empty(),
        restores(edits.push(edit), editor) == if editor.is_live(edit) {
            seq![
                EffectView::Restore { doc: edit.doc, view: edit.view, savepoint: edit.savepoint },
            ] + restores(edits, editor)
        } else {
            restores(edits, editor)
        },
        commits(edits.push(edit), editor) == if editor.is_live(edit) {
            commits(edits, editor) + seq![EffectView::Commit { doc: edit.doc, view: edit.view }]
        } else {
            commits(edits, editor)
        },
{
    assert(edits.push(edit).drop_last() == edits);
    let commit = EffectView::Commit { doc: edit.doc, view: edit.view };
    assert(commits(edits, editor).push(commit) == commits(edits, editor) + seq![commit]);
}

/// Taking edits back and committing them answers nothing.
proof fn lemma_no_reply(edits: Seq<AppliedEdit>, editor: EditorView)
    ensures
        forall|i: int|
            0 <= i < restores(edits, editor).len() ==> !(#[trigger] restores(edits, editor)[i]
                is Reply),
        forall|i: int|
            0 <= i < commits(edits, editor).len() ==> !(#[trigger] commits(edits, editor)[i]
                is Reply),
    decreases edits.len(),
{
    if edits.len() > 0 {
        lemma_no_reply(edits.drop_last(), editor);
    }
}

/// A verdict on a proposal is told to the agent, once, behind everything else, whatever the
/// session is doing. What it is told is an option that the agent offered and that says the
/// verdict, the first of those that decide once, or else the first that decides for good; it is
/// told that the request is cancelled only where it offered neither. The index is that of the
/// option that is told.
pub proof fn law_a_verdict_is_told_to_the_agent(
    panel: PanelView,
    session: SessionView,
    review: ReviewView,
    request: u64,
    editor: EditorView,
    verdict: Verdict,
) -> (i: int)
    requires
        verdict != Verdict::Edit,
        panel.assist == Some(session),
        session.review == Some(review),
        review.responder == Some(request),
    ensures
        ({
            let accept = verdict == Verdict::Accept;
            let once = if accept {
                PermissionOptionKind::AllowOnce
            } else {
                PermissionOptionKind::RejectOnce
            };
            let always = if accept {
                PermissionOptionKind::AllowAlways
            } else {
                PermissionOptionKind::RejectAlways
            };
            let options = review.options;
            let before = panel.effects;
            let after = resolved(panel, editor, verdict).effects;
            &&& after.len() > before.len()
            &&& after.take(before.len() as int) == before
            &&& forall|k: int|
                before.len() <= k < after.len() - 1 ==> !(#[trigger] after[k] is Reply)
            &&& after.last() matches EffectView::Reply { request: answered, outcome }
            &&& answered == request
            &&& match outcome {
                OutcomeView::Selected(id) => {
                    &&& 0 <= i < options.len()
                    &&& options[i].option_id == id
                    &&& options[i].kind == once || options[i].kind == always
                    &&& forall|j: int|
                        0 <= j < i ==> (#[trigger] options[j]).kind != options[i].kind
                    &&& options[i].kind == always ==> forall|j: int|
                        0 <= j < options.len() ==> (#[trigger] options[j]).kind != once
                },
                OutcomeView::Cancelled => forall|j: int|
                    0 <= j < options.len() ==> (#[trigger] options[j]).kind != once
                        && options[j].kind != always,
            }
        }),
{
    let accept = verdict == Verdict::Accept;
    let work = if accept {
        commits(review.edits, editor)
    } else {
        restores(review.edits, editor)
    };
    let after = resolved(panel, editor, verdict).effects;
    assert(after == panel.effects + work + answer(review, accept));
    lemma_no_reply(review.edits, editor);
    assert forall|k: int| panel.effects.len() <= k < after.len() - 1 implies !(
    #[trigger] after[k] is Reply) by {
        assert(after[k] == work[k - panel.effects.len()]);
    }
    law_once_is_picked_before_always(review.options, accept)
}

/// A verdict does to the buffers what it says: accepting commits every edit that is still there,
/// in order, and rejecting takes every one back, in reverse; only then is the agent answered. A
/// proposal to be edited by hand is left alone.
pub proof fn law_a_verdict_is_carried_out(
    panel: PanelView,
    session: SessionView,
    review: ReviewView,
    editor: EditorView,
)
    requires
        panel.assist == Some(session),
        session.review == Some(review),
    ensures
        ({
            let kept = resolved(panel, editor, Verdict::Accept).effects;
            let undone = resolved(panel, editor, Verdict::Reject).effects;
            let handed = resolved(panel, editor, Verdict::Edit).effects;
            let before = panel.effects.len() as int;
            let answers: int = if review.responder is Some {
                1
            } else {
                0
            };
            &&& kept.take(before) == panel.effects
            &&& kept.subrange(before, kept.len() - answers) == commits(review.edits, editor)
            &&& undone.take(before) == panel.effects
            &&& undone.subrange(before, undone.len() - answers) == restores(review.edits, editor)
            &&& handed == panel.effects.push(
                EffectView::SetStatus(
                    "assist: editing proposal \u{2014} space+A to resume review"@,
                ),
            )
        }),
{
    let kept = resolved(panel, editor, Verdict::Accept).effects;
    let undone = resolved(panel, editor, Verdict::Reject).effects;
    assert(kept == panel.effects + commits(review.edits, editor) + answer(review, true));
    assert(undone == panel.effects + restores(review.edits, editor) + answer(review, false));
}

/// A verdict ends the review and is noted in the transcript, unless the proposal is to be edited
/// by hand: then the review stays, marked so. Nothing else of the session changes, and where
/// there is no review nothing does.
pub proof fn law_a_verdict_ends_the_review(panel: PanelView, editor: EditorView)
    ensures
        match panel.assist {
            Some(session) => match session.review {
                Some(review) => {
                    &&& resolved(panel, editor, Verdict::Accept).assist == Some(
                        (SessionView {
                            transcript: session.transcript + "\n_(accepted)_\n"@,
                            scroll: 0,
                            review: None,
                            ..session
                        }),
                    )
                    &&& resolved(panel, editor, Verdict::Reject).assist == Some(
                        (SessionView {
                            transcript: session.transcript + "\n_(rejected)_\n"@,
                            scroll: 0,
                            review: None,
                            ..session
                        }),
                    )
                    &&& resolved(panel, editor, Verdict::Edit).assist == Some(
                        (SessionView {
                            review: Some((ReviewView { editing: true, ..review })),
                            ..session
                        }),
                    )
                },
                None => forall|verdict: Verdict| #[trigger]
                    resolved(panel, editor, verdict) == panel,
            },
            None => forall|verdict: Verdict| #[trigger] resolved(panel, editor, verdict) == panel,
        },
{
}

/// A proposal that was being corrected by hand is put up again as it was, under a title of its
/// own; a panel where none was stays as it is.
pub proof fn law_a_corrected_proposal_is_put_up_again(panel: PanelView)
    ensures
        match panel.assist {
            Some(session) => match session.review {
                Some(review) => {
                    &&& is_editing(panel) == review.editing
                    &&& review.editing ==> {
                        &&& resumed(panel).effects == panel.effects.push(
                            (EffectView::PushGate { title: "edited proposal"@ }),
                        )
                        &&& resumed(panel).assist == Some(
                            (SessionView {
                                review: Some((ReviewView { editing: false, ..review })),
                                ..session
                            }),
                        )
                    }
                    &&& !review.editing ==> resumed(panel) == panel
                },
                None => !is_editing(panel) && resumed(panel) == panel,
            },
            None => !is_editing(panel) && resumed(panel) == panel,
        },
{
}

/// An edit that was applied joins the draft. As long as diffs are left the panel does not change;
/// with the last one the whole proposal goes up for review, in place of the one that was up, whose
/// request is cancelled. Without a session the request is cancelled instead.
pub proof fn law_a_draft_goes_up_when_it_is_whole(
    panel: PanelView,
    editor: EditorView,
    draft: DraftView,
    edit: AppliedEdit,
)
    ensures
        ({
            let (after, next) = after_edit(panel, editor, draft, Ok(edit));
            let scope = if draft.diffs.len() == 1 {
                Seq::<char>::empty()
            } else {
                " ("@ + decimal(draft.diffs.len()) + " files)"@
            };
            if draft.edits.len() + 1 < draft.diffs.len() {
                after == panel && next == Some(
                    (DraftView { edits: draft.edits.push(edit), ..draft }),
                )
            } else {
                &&& next is None
                &&& match panel.assist {
                    None => {
                        &&& after.assist is None
                        &&& after.effects == panel.effects.push(
                            (EffectView::Reply {
                                request: draft.request,
                                outcome: OutcomeView::Cancelled,
                            }),
                        )
                    },
                    Some(session) => {
                        let replaced = match session.review {
                            Some(review) => match review.responder {
                                Some(request) => panel.effects.push(
                                    (EffectView::Reply {
                                        request,
                                        outcome: OutcomeView::Cancelled,
                                    }),
                                ),
                                None => panel.effects,
                            },
                            None => panel.effects,
                        };
                        &&& after.effects == replaced.push(
                            (EffectView::PushGate { title: draft.title + scope }),
                        )
                        &&& after.assist == Some(
                            (SessionView {
                                transcript: session.transcript + ("\n_reviewing_ `"@ + draft.title
                                    + "`"@ + scope + "\n"@),
                                scroll: 0,
                                review: Some(
                                    (ReviewView {
                                        responder: Some(draft.request),
                                        options: draft.options,
                                        edits: draft.edits.push(edit),
                                        editing: false,
                                    }),
                                ),
                                ..session
                            }),
                        )
                    },
                }
            }
        }),
{
}

/// A diff that does not apply ends its draft: what was applied of it is taken back, and only then
/// is the request cancelled and the reason noted.
pub proof fn law_a_draft_that_fails_is_backed_out(
    panel: PanelView,
    editor: EditorView,
    draft: DraftView,
    error: Seq<char>,
)
    ensures
        ({
            let (after, next) = after_edit(panel, editor, draft, Err(error));
            &&& next is None
            &&& after.effects == panel.effects + restores(draft.edits, editor) + seq![
                EffectView::Reply { request: draft.request, outcome: OutcomeView::Cancelled },
            ]
            &&& panel.assist is None ==> after.assist is None
            &&& panel.assist matches Some(session) ==> after.assist == Some(
                (SessionView {
                    transcript: session.transcript + ("\n_(declined: "@ + (draft.title + ": "@
                        + error) + ")_\n"@),
                    scroll: 0,
                    ..session
                }),
            )
        }),
{
    let after = after_edit(panel, editor, draft, Err(error)).0;
    assert(after.effects == panel.effects + restores(draft.edits, editor) + seq![
        EffectView::Reply { request: draft.request, outcome: OutcomeView::Cancelled },
    ]);
}

/// Three letters and the escape key give the verdicts that they stand for; every other key is
/// swallowed without one, and what is no key goes on.
pub proof fn law_keys_give_their_verdicts(key: KeyCode)
    ensures
        gate_result(Event::Other) == EventResult::Ignored,
        gate_result(Event::Key(key)) == if key == KeyCode::Char('a') {
            EventResult::Consumed(Some(Verdict::Accept))
        } else if key == KeyCode::Char('r') {
            EventResult::Consumed(Some(Verdict::Reject))
        } else if key == KeyCode::Char('e') || key == KeyCode::Esc {
            EventResult::Consumed(Some(Verdict::Edit))
        } else {
            EventResult::Consumed(None)
        },
{
}

/// A request and a draft read as what they are.
pub proof fn law_a_request_reads_as_it_is(
    request: PermissionRequest,
    draft: ReviewDraft,
    item: ToolCallContent,
)
    ensures
        item matches ToolCallContent::Diff(diff) ==> item@ == ToolCallContentView::Diff(diff@),
        item is Other ==> item@ == ToolCallContentView::Other,
        request@.id == request.id,
        request.title is None <==> request@.title is None,
        request.title matches Some(title) ==> request@.title == Some(title@),
        request.content is None <==> request@.content is None,
        request.content matches Some(content) ==> {
            &&& request@.content matches Some(items)
            &&& items.len() == content@.len()
            &&& forall|i: int| 0 <= i < items.len() ==> #[trigger] items[i] == content@[i]@
        },
        request@.options.len() == request.options@.len(),
        forall|i: int|
            0 <= i < request.options@.len() ==> #[trigger] request@.options[i]
                == request.options@[i]@,
        draft@.request == draft.request,
        draft@.title == draft.title@,
        draft@.edits == draft.edits@,
        draft@.wf() <==> draft.edits@.len() < draft.diffs@.len(),
        draft@.diffs.len() == draft.diffs@.len(),
        forall|i: int|
            0 <= i < draft.diffs@.len() ==> #[trigger] draft@.diffs[i] == draft.diffs@[i]@,
        draft@.options.len() == draft.options@.len(),
        forall|i: int|
            0 <= i < draft.options@.len() ==> #[trigger] draft@.options[i] == draft.options@[i]@,
{
}

/// Asking for several things is asking for them one after the other; the session stays as it is.
/// An edit that was applied, or why it was not, is passed on as it is.
pub proof fn law_several_effects_are_asked_for_in_order(
    panel: PanelView,
    effects: Seq<EffectView>,
    effect: EffectView,
    edit: AppliedEdit,
    error: String,
)
    ensures
        panel.emit_all(Seq::<EffectView>::empty()) == panel,
        panel.emit_all(effects.push(effect)) == panel.emit_all(effects).emit(effect),
        panel.emit_all(effects).assist == panel.assist,
        applied_view(Ok(edit)) == Ok::<AppliedEdit, Seq<char>>(edit),
        applied_view(Err(error)) == Err::<AppliedEdit, Seq<char>>(error@),
{
    assert(panel.effects + Seq::<EffectView>::empty() == panel.effects);
    assert(panel.effects + effects.push(effect) == (panel.effects + effects).push(effect));
}

} // verus!
