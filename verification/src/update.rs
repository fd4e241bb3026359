//! Rendering what the agent reports into the transcript.

use crate::panel::append;
use crate::panel::Panel;
use crate::panel::PanelView;
use crate::session::SessionView;
use crate::text::enclose;
use vstd::prelude::*;
use vstd::string::*;

verus! {

/// A block of content.
pub enum ContentBlock {
    Text(String),
    /// Content that is not text.
    Other,
}

/// What a block of content says.
pub enum ContentBlockView {
    Text(Seq<char>),
    Other,
}

impl View for ContentBlock {
    type V = ContentBlockView;

    open spec fn view(&self) -> ContentBlockView {
        match *self {
            ContentBlock::Text(text) => ContentBlockView::Text(text@),
            ContentBlock::Other => ContentBlockView::Other,
        }
    }
}

/// How far an entry of a plan has come.
pub enum PlanEntryStatus {
    Pending,
    InProgress,
    Completed,
    /// A status that the protocol gained later, by its name.
    Other(String),
}

/// The name of a status.
pub open spec fn status_name(status: PlanEntryStatus) -> Seq<char> {
    match status {
        PlanEntryStatus::Pending => "Pending"@,
        PlanEntryStatus::InProgress => "InProgress"@,
        PlanEntryStatus::Completed => "Completed"@,
        PlanEntryStatus::Other(name) => name@,
    }
}

impl PlanEntryStatus {
    fn name(&self) -> (name: &str)
        ensures
            name@ == status_name(*self),
    {
        match self {
            PlanEntryStatus::Pending => "Pending",
            PlanEntryStatus::InProgress => "InProgress",
            PlanEntryStatus::Completed => "Completed",
            PlanEntryStatus::Other(name) => name.as_str(),
        }
    }
}

/// One step of a plan.
pub struct PlanEntry {
    pub status: PlanEntryStatus,
    pub content: String,
}

/// How a step of a plan reads.
pub struct PlanEntryView {
    pub status: Seq<char>,
    pub content: Seq<char>,
}

impl View for PlanEntry {
    type V = PlanEntryView;

    open spec fn view(&self) -> PlanEntryView {
        PlanEntryView { status: status_name(self.status), content: self.content@ }
    }
}

/// Something that the agent reports while it works.
pub enum SessionUpdate {
    AgentMessageChunk(ContentBlock),
    AgentThoughtChunk(ContentBlock),
    Plan(Vec<PlanEntry>),
    ToolCall { title: String },
    /// Tool-call updates, mode changes, usage and everything added to the protocol later.
    Other,
}

/// What a [`SessionUpdate`] says.
pub enum SessionUpdateView {
    AgentMessageChunk(ContentBlockView),
    AgentThoughtChunk(ContentBlockView),
    Plan(Seq<PlanEntryView>),
    ToolCall { title: Seq<char> },
    Other,
}

/// How each step of a plan reads.
pub open spec fn entry_views(entries: Seq<PlanEntry>) -> Seq<PlanEntryView> {
    entries.map_values(|entry: PlanEntry| entry@)
}

impl View for SessionUpdate {
    type V = SessionUpdateView;

    open spec fn view(&self) -> SessionUpdateView {
        match *self {
            SessionUpdate::AgentMessageChunk(content) => SessionUpdateView::AgentMessageChunk(
                content@,
            ),
            SessionUpdate::AgentThoughtChunk(content) => SessionUpdateView::AgentThoughtChunk(
                content@,
            ),
            SessionUpdate::Plan(entries) => SessionUpdateView::Plan(entry_views(entries@)),
            SessionUpdate::ToolCall { title } => SessionUpdateView::ToolCall { title: title@ },
            SessionUpdate::Other => SessionUpdateView::Other,
        }
    }
}

/// The steps of a plan as the items of a list.
pub open spec fn plan_items(entries: Seq<PlanEntryView>) -> Seq<char>
    decreases entries.len(),
{
    if entries.len() == 0 {
        Seq::empty()
    } else {
        let entry = entries.last();
        plan_items(entries.drop_last()) + ("- ["@ + entry.status + "] "@ + entry.content + "\n"@)
    }
}

/// What an update adds to the transcript, if it is shown at all.
pub open spec fn rendered(update: SessionUpdateView) -> Option<Seq<char>> {
    match update {
        SessionUpdateView::AgentMessageChunk(ContentBlockView::Text(text)) => Some(text),
        SessionUpdateView::AgentThoughtChunk(ContentBlockView::Text(text)) => Some(
            "\n> "@ + text + "\n"@,
        ),
        SessionUpdateView::Plan(entries) => Some("\n### plan\n\n"@ + plan_items(entries)),
        SessionUpdateView::ToolCall { title } => Some("\n`"@ + title + "`\n"@),
        _ => None,
    }
}

/// The panel after an update was rendered into its transcript.
pub open spec fn updated(panel: PanelView, update: SessionUpdateView) -> PanelView {
    match rendered(update) {
        Some(text) => panel.say(text),
        None => panel,
    }
}

/// The text of a block of content, if it is text.
pub fn content_text(content: &ContentBlock) -> (result: Option<String>)
    ensures
        match content@ {
            ContentBlockView::Text(text) => result matches Some(shown) && shown@ == text,
            ContentBlockView::Other => result is None,
        },
{
    match content {
        ContentBlock::Text(text) => Some(text.clone()),
        ContentBlock::Other => None,
    }
}

/// The steps of a plan, under a heading.
fn plan_text(entries: &Vec<PlanEntry>) -> (result: String)
    ensures
        result@ == "\n### plan\n\n"@ + plan_items(entry_views(entries@)),
{
    let ghost all = entry_views(entries@);
    let mut result = "\n### plan\n\n".to_owned();
    let mut i: usize = 0;
    assert(all.take(0) == Seq::<PlanEntryView>::empty());
    assert(result@ == "\n### plan\n\n"@ + plan_items(all.take(0)));
    while i < entries.len()
        invariant
            i <= entries@.len() == all.len(),
            all == entry_views(entries@),
            result@ == "\n### plan\n\n"@ + plan_items(all.take(i as int)),
        decreases entries@.len() - i,
    {
        let ghost before = result@;
        let mut item = enclose("- [", entries[i].status.name(), "] ");
        item.append(entries[i].content.as_str());
        item.append("\n");
        result.append(item.as_str());
        proof {
            assert(all.take(i + 1).drop_last() == all.take(i as int));
            assert(all.take(i + 1).last() == entries@[i as int]@);
            assert(result@ == "\n### plan\n\n"@ + (plan_items(all.take(i as int)) + item@));
        }
        i += 1;
    }
    assert(all.take(all.len() as int) == all);
    result
}

/// Render one `session/update` into the transcript.
pub fn apply_update(panel: &mut Panel, update: SessionUpdate)
    ensures
        final(panel)@ == updated(old(panel)@, update@),
{
    match update {
        SessionUpdate::AgentMessageChunk(content) => {
            match content_text(&content) {
                Some(text) => append(panel, text.as_str()),
                None => {},
            }
        },
        SessionUpdate::AgentThoughtChunk(content) => {
            match content_text(&content) {
                Some(text) => {
                    let quoted = enclose("\n> ", text.as_str(), "\n");
                    append(panel, quoted.as_str());
                },
                None => {},
            }
        },
        SessionUpdate::Plan(entries) => {
            let plan = plan_text(&entries);
            append(panel, plan.as_str());
        },
        SessionUpdate::ToolCall { title } => {
            let call = enclose("\n`", title.as_str(), "`\n");
            append(panel, call.as_str());
        },
        SessionUpdate::Other => {},
    }
}

/// Why a turn ended.
pub enum StopReason {
    EndTurn,
    MaxTokens,
    MaxTurnRequests,
    Refusal,
    Cancelled,
    /// A reason that the protocol gained later, by its name.
    Other(String),
}

/// The name of a stop reason.
pub open spec fn stop_name(stop: StopReason) -> Seq<char> {
    match stop {
        StopReason::EndTurn => "EndTurn"@,
        StopReason::MaxTokens => "MaxTokens"@,
        StopReason::MaxTurnRequests => "MaxTurnRequests"@,
        StopReason::Refusal => "Refusal"@,
        StopReason::Cancelled => "Cancelled"@,
        StopReason::Other(name) => name@,
    }
}

impl StopReason {
    fn name(&self) -> (name: &str)
        ensures
            name@ == stop_name(*self),
    {
        match self {
            StopReason::EndTurn => "EndTurn",
            StopReason::MaxTokens => "MaxTokens",
            StopReason::MaxTurnRequests => "MaxTurnRequests",
            StopReason::Refusal => "Refusal",
            StopReason::Cancelled => "Cancelled",
            StopReason::Other(name) => name.as_str(),
        }
    }
}

/// The panel at the start of a turn: the message is echoed.
pub open spec fn turn_started(panel: PanelView, text: Seq<char>) -> PanelView {
    panel.say("\n### you\n\n"@ + text + "\n"@)
}

/// The panel at the end of a turn: the session is free again, and the reason is noted.
pub open spec fn turn_ended(panel: PanelView, stop: Seq<char>) -> PanelView {
    let free = match panel.assist {
        Some(session) => PanelView {
            assist: Some(SessionView { busy: false, ..session }),
            ..panel
        },
        None => panel,
    };
    free.say("\n_("@ + stop + ")_\n"@)
}

/// Echo the message that starts a turn.
pub fn start_turn(panel: &mut Panel, text: &str)
    ensures
        final(panel)@ == turn_started(old(panel)@, text@),
{
    let echo = enclose("\n### you\n\n", text, "\n");
    append(panel, echo.as_str());
}

/// Free the session for its next message, and note why the turn ended.
pub fn end_turn(panel: &mut Panel, stop: &StopReason)
    ensures
        final(panel)@ == turn_ended(old(panel)@, stop_name(*stop)),
{
    match &mut panel.assist {
        Some(session) => {
            session.busy = false;
        },
        None => {},
    }
    let note = enclose("\n_(", stop.name(), ")_\n");
    append(panel, note.as_str());
}

/// What an update puts behind the transcript depends on the update alone, whatever the session is
/// doing: text as it is, a thought as a quotation, a tool call as its title in code, a plan under
/// a heading. Nothing else is shown. Nothing else of the panel changes but that it goes to the
/// newest output.
pub proof fn law_an_update_is_shown_whatever_the_session_does(
    panel: PanelView,
    session: SessionView,
    text: Seq<char>,
    entries: Seq<PlanEntryView>,
)
    requires
        panel.assist == Some(session),
    ensures
        ({
            let with = |shown: Seq<char>|
                PanelView {
                    assist: Some(
                        SessionView {
                            transcript: session.transcript + shown,
                            scroll: 0,
                            ..session
                        },
                    ),
                    ..panel
                };
            let block = ContentBlockView::Text(text);
            &&& updated(panel, SessionUpdateView::AgentMessageChunk(block)) == with(text)
            &&& updated(panel, SessionUpdateView::AgentThoughtChunk(block)) == with(
                "\n> "@ + text + "\n"@,
            )
            &&& updated(panel, (SessionUpdateView::ToolCall { title: text })) == with(
                "\n`"@ + text + "`\n"@,
            )
            &&& updated(panel, SessionUpdateView::Plan(entries)) == with(
                "\n### plan\n\n"@ + plan_items(entries),
            )
            &&& updated(panel, SessionUpdateView::AgentMessageChunk(ContentBlockView::Other))
                == panel
            &&& updated(panel, SessionUpdateView::AgentThoughtChunk(ContentBlockView::Other))
                == panel
            &&& updated(panel, SessionUpdateView::Other) == panel
        }),
{
}

/// Without a session no update is shown.
pub proof fn law_an_update_needs_a_session(panel: PanelView, update: SessionUpdateView)
    requires
        panel.assist is None,
    ensures
        updated(panel, update) == panel,
{
}

/// A reply that comes in pieces reads as one that comes whole.
pub proof fn law_a_reply_may_come_in_pieces(panel: PanelView, first: Seq<char>, second: Seq<char>)
    ensures
        updated(
            updated(panel, SessionUpdateView::AgentMessageChunk(ContentBlockView::Text(first))),
            SessionUpdateView::AgentMessageChunk(ContentBlockView::Text(second)),
        ) == updated(
            panel,
            SessionUpdateView::AgentMessageChunk(ContentBlockView::Text(first + second)),
        ),
{
    if panel.assist is Some {
        let transcript = panel.assist->0.transcript;
        assert(transcript + first + second == transcript + (first + second));
    }
}

/// A plan lists every one of its steps, in order, each on a line of its own.
pub proof fn law_a_plan_lists_every_step(entries: Seq<PlanEntryView>, entry: PlanEntryView)
    ensures
        plan_items(Seq::<PlanEntryView>::empty()) == Seq::<char>::empty(),
        plan_items(entries.push(entry)) == plan_items(entries) + ("- ["@ + entry.status + "] "@
            + entry.content + "\n"@),
{
    assert(entries.push(entry).drop_last() == entries);
}

/// A turn starts with its message echoed, and ends with its reason noted and the session free,
/// whatever else the session is doing.
pub proof fn law_a_turn_is_echoed_and_ended(panel: PanelView, text: Seq<char>)
    ensures
        panel.assist is None ==> turn_started(panel, text) == panel && turn_ended(panel, text)
            == panel,
        panel.assist matches Some(session) ==> {
            &&& turn_started(panel, text).effects == panel.effects
            &&& turn_started(panel, text).assist == Some(
                (SessionView {
                    transcript: session.transcript + ("\n### you\n\n"@ + text + "\n"@),
                    scroll: 0,
                    ..session
                }),
            )
            &&& turn_ended(panel, text).effects == panel.effects
            &&& turn_ended(panel, text).assist == Some(
                (SessionView {
                    transcript: session.transcript + ("\n_("@ + text + ")_\n"@),
                    scroll: 0,
                    busy: false,
                    ..session
                }),
            )
        },
{
}

/// A status and a reason go by their names, and an update reads as what it says.
pub proof fn law_an_update_reads_as_it_is(
    update: SessionUpdate,
    entry: PlanEntry,
    content: ContentBlock,
    name: String,
)
    ensures
        status_name(PlanEntryStatus::Pending) == "Pending"@,
        status_name(PlanEntryStatus::InProgress) == "InProgress"@,
        status_name(PlanEntryStatus::Completed) == "Completed"@,
        status_name(PlanEntryStatus::Other(name)) == name@,
        stop_name(StopReason::EndTurn) == "EndTurn"@,
        stop_name(StopReason::MaxTokens) == "MaxTokens"@,
        stop_name(StopReason::MaxTurnRequests) == "MaxTurnRequests"@,
        stop_name(StopReason::Refusal) == "Refusal"@,
        stop_name(StopReason::Cancelled) == "Cancelled"@,
        stop_name(StopReason::Other(name)) == name@,
        entry@.status == status_name(entry.status),
        entry@.content == entry.content@,
        content matches ContentBlock::Text(text) ==> content@ == ContentBlockView::Text(text@),
        content is Other ==> content@ == ContentBlockView::Other,
        update matches SessionUpdate::AgentMessageChunk(block) ==> update@
            == SessionUpdateView::AgentMessageChunk(block@),
        update matches SessionUpdate::AgentThoughtChunk(block) ==> update@
            == SessionUpdateView::AgentThoughtChunk(block@),
        update matches SessionUpdate::ToolCall { title } ==> update@ == (
        SessionUpdateView::ToolCall { title: title@ }),
        update matches SessionUpdate::Plan(entries) ==> {
            &&& update@ matches SessionUpdateView::Plan(steps)
            &&& steps.len() == entries@.len()
            &&& forall|i: int| 0 <= i < steps.len() ==> #[trigger] steps[i] == entries@[i]@
        },
        update is Other ==> update@ == SessionUpdateView::Other,
{
}

} // verus!
