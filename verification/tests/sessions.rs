use assist::command::{
    cancel, open, open_or_prompt, open_or_prompt_when, AssistConfig, Connection, OpenError,
};
use assist::connection::{step, Action, Phase, Signal};
use assist::editor::Editor;
use assist::effect::Effect;
use assist::layout::{panel_area, Rect};
use assist::panel::{
    append, prompt, prompt_message, submit_prompt, yank_transcript, Panel, PromptEvent,
};
use assist::session::{AssistSession, Delivery, PendingReview, Request};
use assist::update::{
    apply_update, content_text, end_turn, start_turn, ContentBlock, PlanEntry, PlanEntryStatus,
    SessionUpdate, StopReason,
};

fn config(enable: bool, command: Option<&str>) -> AssistConfig {
    AssistConfig { enable, command: command.map(str::to_string) }
}

fn session() -> (AssistSession, Connection) {
    open(&config(true, Some("agent")), None).ok().unwrap()
}

fn panel() -> (Panel, Connection) {
    let (session, connection) = session();
    (Panel { assist: Some(session), effects: vec![] }, connection)
}

fn nothing_open() -> Editor {
    Editor { documents: vec![], views: vec![], focus: 1 }
}

fn transcript(panel: &Panel) -> &str {
    panel.assist.as_ref().unwrap().transcript()
}

fn area(x: u16, y: u16, width: u16, height: u16) -> Rect {
    Rect { x, y, width, height }
}

#[test]
fn opening_needs_the_feature_and_a_command() {
    let error = open(&config(false, Some("agent")), None).err().unwrap();
    assert_eq!(error, OpenError::Disabled);
    assert_eq!(error.message(), "assist is disabled (`editor.assist.enable`)");
    let error = open(&config(true, None), None).err().unwrap();
    assert_eq!(error, OpenError::NoCommand);
    assert_eq!(error.message(), "no assist agent configured; set `editor.assist.command`");
}

#[test]
fn a_new_session_is_idle_and_carries_the_transcript_over() {
    let (session, connection) = session();
    assert_eq!(connection.command, "agent");
    assert_eq!(session.transcript(), "");
    assert!(!session.is_busy());
    assert!(session.is_connected());
    let carried = |text: &str| {
        let config = config(true, Some("agent"));
        open(&config, Some(text.to_string())).ok().unwrap().0.transcript().to_string()
    };
    assert_eq!(carried(""), "");
    assert_eq!(carried("old"), "old\n---\n_restarting agent_\n");
}

#[test]
fn a_prompt_is_queued_once_per_turn() {
    let (mut session, mut connection) = session();
    assert!(matches!(session.prompt("one".to_string()), Delivery::Queued));
    assert!(session.is_busy());
    assert!(matches!(session.prompt("two".to_string()), Delivery::Ignored));
    assert!(matches!(session.cancel(), Delivery::Queued));
    assert!(matches!(connection.requests.try_recv(), Ok(Request::Prompt(text)) if text == "one"));
    assert!(matches!(connection.requests.try_recv(), Ok(Request::Cancel)));
    assert!(connection.requests.try_recv().is_err());
}

#[test]
fn a_dead_connection_hands_the_request_back() {
    let (mut session, connection) = session();
    drop(connection);
    assert!(!session.is_connected());
    let delivery = session.prompt("lost".to_string());
    assert!(matches!(delivery, Delivery::Refused(Request::Prompt(text)) if text == "lost"));
    assert!(session.is_busy());
    assert!(matches!(session.cancel(), Delivery::Refused(Request::Cancel)));
}

#[test]
fn opening_without_a_session_starts_one_and_prompts() {
    let mut panel = Panel::new();
    let connection = open_or_prompt(&mut panel, &config(true, Some("agent"))).unwrap();
    assert_eq!(connection.command, "agent");
    assert!(panel.assist.is_some());
    assert_eq!(panel.effects.len(), 1);
    assert!(matches!(&panel.effects[0],
        Effect::ShowPrompt { label, register: 'a' } if label == "assist: "));
}

/// The user is told why nothing happened, and no panel opens.
#[test]
fn opening_without_an_agent_reports_why() {
    let mut panel = Panel::new();
    assert!(open_or_prompt(&mut panel, &config(true, None)).is_none());
    assert!(panel.assist.is_none());
    assert_eq!(panel.effects.len(), 1);
    assert!(matches!(&panel.effects[0], Effect::SetError(message)
        if message == "no assist agent configured; set `editor.assist.command`"));
}

#[test]
fn opening_with_a_live_session_only_prompts() {
    let (mut panel, connection) = panel();
    assert!(open_or_prompt(&mut panel, &config(true, Some("agent"))).is_none());
    assert_eq!(panel.effects.len(), 1);
    assert!(matches!(panel.effects[0], Effect::ShowPrompt { .. }));
    drop(connection);
    assert!(open_or_prompt(&mut panel, &config(true, Some("agent"))).is_some());
}

#[test]
fn a_restart_keeps_the_transcript_and_answers_what_was_left() {
    let (mut panel, _connection) = panel();
    append(&mut panel, "talk");
    panel.assist.as_mut().unwrap().review = Some(PendingReview {
        responder: Some(5),
        options: vec![],
        edits: vec![],
        editing: false,
    });
    let config = config(true, Some("other"));
    let connection = open_or_prompt_when(&mut panel, &config, false).unwrap();
    assert_eq!(connection.command, "other");
    assert_eq!(transcript(&panel), "talk\n---\n_restarting agent_\n");
    assert!(panel.assist.as_ref().unwrap().review.is_none());
    assert_eq!(panel.effects.len(), 2);
    assert!(matches!(panel.effects[0],
        Effect::Reply { request: 5, outcome: assist::permission::Outcome::Cancelled }));
    assert!(matches!(panel.effects[1], Effect::ShowPrompt { .. }));
}

#[test]
fn cancelling_without_a_session_is_an_error() {
    let mut panel = Panel::new();
    assert!(matches!(cancel(&mut panel, &nothing_open()), Delivery::Ignored));
    assert!(matches!(&panel.effects[..], [Effect::SetError(message)]
        if message == "assist: no session"));
}

#[test]
fn cancelling_tells_the_agent_and_takes_the_gate_down() {
    let (mut panel, mut connection) = panel();
    assert!(matches!(cancel(&mut panel, &nothing_open()), Delivery::Queued));
    assert!(matches!(connection.requests.try_recv(), Ok(Request::Cancel)));
    assert!(matches!(&panel.effects[..], [Effect::RemoveGates, Effect::SetStatus(message)]
        if message == "assist: cancelled"));
}

#[test]
fn the_prompt_hands_on_what_is_confirmed_and_not_blank() {
    assert!(matches!(prompt(), Effect::ShowPrompt { register: 'a', .. }));
    assert_eq!(prompt_message(" hi ", PromptEvent::Validate), Some(" hi ".to_string()));
    assert_eq!(prompt_message("hi", PromptEvent::Update), None);
    assert_eq!(prompt_message("hi", PromptEvent::Abort), None);
    assert_eq!(prompt_message(" \t", PromptEvent::Validate), None);
}

#[test]
fn a_submitted_prompt_reaches_the_session() {
    let (mut panel, mut connection) = panel();
    assert!(matches!(submit_prompt(&mut panel, "hi".to_string()), Delivery::Queued));
    assert!(matches!(connection.requests.try_recv(), Ok(Request::Prompt(text)) if text == "hi"));
    assert!(matches!(submit_prompt(&mut panel, "more".to_string()), Delivery::Ignored));
    let mut empty = Panel::new();
    assert!(matches!(submit_prompt(&mut empty, "hi".to_string()), Delivery::Ignored));
    assert!(matches!(&empty.effects[..], [Effect::SetError(message)]
        if message == "assist: no session"));
}

#[test]
fn yanking_copies_the_transcript() {
    let (mut panel, _connection) = panel();
    append(&mut panel, "all of it");
    yank_transcript(&mut panel);
    assert!(matches!(&panel.effects[..], [Effect::OpenScratch { text }] if text == "all of it"));
    let mut empty = Panel::new();
    yank_transcript(&mut empty);
    assert!(matches!(&empty.effects[..], [Effect::SetError(message)]
        if message == "assist: no session"));
}

#[test]
fn scrolling_stops_at_either_end() {
    let (mut session, _connection) = session();
    session.scroll(-3);
    assert_eq!(session.scroll, 0);
    session.scroll(5);
    session.scroll(-2);
    assert_eq!(session.scroll, 3);
    session.scroll = u16::MAX - 1;
    session.scroll(i16::MAX);
    assert_eq!(session.scroll, u16::MAX);
    session.scroll(i16::MIN);
    assert_eq!(session.scroll, u16::MAX.saturating_add_signed(i16::MIN));
}

#[test]
fn appending_snaps_to_the_newest_output() {
    let (mut panel, _connection) = panel();
    panel.assist.as_mut().unwrap().scroll(7);
    append(&mut panel, "new");
    assert_eq!(panel.assist.as_ref().unwrap().scroll, 0);
    assert_eq!(transcript(&panel), "new");
    let mut empty = Panel::new();
    append(&mut empty, "nowhere");
    assert!(empty.assist.is_none());
}

#[test]
fn updates_render_as_markdown() {
    let (mut panel, _connection) = panel();
    let text = |text: &str| ContentBlock::Text(text.to_string());
    apply_update(&mut panel, SessionUpdate::AgentThoughtChunk(text("Hm.")));
    apply_update(&mut panel, SessionUpdate::Plan(vec![
        PlanEntry { status: PlanEntryStatus::Completed, content: "Read the file".to_string() },
        PlanEntry { status: PlanEntryStatus::InProgress, content: "Think".to_string() },
        PlanEntry { status: PlanEntryStatus::Pending, content: "Propose".to_string() },
        PlanEntry { status: PlanEntryStatus::Other("Later".to_string()), content: "?".to_string() },
    ]));
    apply_update(&mut panel, SessionUpdate::AgentMessageChunk(text("Here is ")));
    apply_update(&mut panel, SessionUpdate::AgentMessageChunk(ContentBlock::Other));
    apply_update(&mut panel, SessionUpdate::AgentMessageChunk(text("a reply.\n")));
    apply_update(&mut panel, SessionUpdate::ToolCall { title: "grep".to_string() });
    apply_update(&mut panel, SessionUpdate::Other);
    assert_eq!(
        transcript(&panel),
        "\n> Hm.\n\n### plan\n\n- [Completed] Read the file\n- [InProgress] Think\n\
         - [Pending] Propose\n- [Later] ?\nHere is a reply.\n\n`grep`\n"
    );
    assert_eq!(content_text(&text("x")), Some("x".to_string()));
    assert_eq!(content_text(&ContentBlock::Other), None);
}

#[test]
fn a_turn_echoes_its_message_and_frees_the_session() {
    let (mut panel, _connection) = panel();
    submit_prompt(&mut panel, "hi".to_string());
    start_turn(&mut panel, "hi");
    assert!(panel.assist.as_ref().unwrap().is_busy());
    end_turn(&mut panel, &StopReason::MaxTurnRequests);
    assert!(!panel.assist.as_ref().unwrap().is_busy());
    assert_eq!(transcript(&panel), "\n### you\n\nhi\n\n_(MaxTurnRequests)_\n");
    let reasons = [
        (StopReason::EndTurn, "EndTurn"),
        (StopReason::MaxTokens, "MaxTokens"),
        (StopReason::Refusal, "Refusal"),
        (StopReason::Cancelled, "Cancelled"),
        (StopReason::Other("Bored".to_string()), "Bored"),
    ];
    for (reason, name) in reasons {
        end_turn(&mut panel, &reason);
        assert!(transcript(&panel).ends_with(&format!("\n_({name})_\n")));
    }
}

#[test]
fn the_panel_takes_at_most_half_of_a_window_that_can_spare_it() {
    assert_eq!(panel_area(area(0, 1, 200, 50), 60), Some(area(140, 1, 60, 50)));
    assert_eq!(panel_area(area(10, 0, 100, 50), 60), Some(area(60, 0, 50, 50)));
    assert_eq!(panel_area(area(0, 0, 60, 50), 60), Some(area(30, 0, 30, 50)));
    assert_eq!(panel_area(area(0, 0, 59, 50), 60), Some(area(30, 0, 29, 50)));
    assert_eq!(panel_area(area(0, 0, 54, 50), 24), Some(area(30, 0, 24, 50)));
    assert_eq!(panel_area(area(0, 0, 53, 50), 24), None);
    assert_eq!(panel_area(area(0, 0, 58, 50), 60), None);
    assert_eq!(panel_area(area(0, 0, 200, 50), 23), None);
    assert_eq!(panel_area(area(u16::MAX, 0, 100, 50), 40), Some(area(u16::MAX - 40, 0, 40, 50)));
}

#[test]
fn the_frame_leaves_room_for_rule_and_header() {
    let (mut session, _connection) = session();
    let frame = session.render_panel(area(60, 2, 40, 20));
    assert_eq!((frame.rule_column, frame.rule_top, frame.rule_bottom), (60, 2, 22));
    let (line, text) = frame.header.unwrap();
    assert_eq!(line, area(62, 2, 37, 1));
    assert_eq!(text, " assist · idle");
    assert_eq!(frame.body, Some(area(62, 4, 37, 18)));
    session.busy = true;
    let frame = session.render_panel(area(60, 2, 40, 2));
    assert_eq!(frame.header.unwrap().1, " assist · working");
    assert_eq!(frame.body, None);
    session.review = Some(PendingReview {
        responder: None,
        options: vec![],
        edits: vec![],
        editing: false,
    });
    let frame = session.render_panel(area(60, 2, 4, 20));
    assert_eq!(frame.header.unwrap().1, " assist · review");
    for narrow in [area(0, 0, 3, 20), area(0, 0, 40, 0)] {
        let frame = session.render_panel(narrow);
        assert!(frame.header.is_none());
        assert!(frame.body.is_none());
    }
}

#[test]
fn the_body_follows_the_newest_line_until_scrolled() {
    let (mut session, _connection) = session();
    assert_eq!(session.body_offset(100, 18), 82);
    assert_eq!(session.body_offset(10, 18), 0);
    session.scroll(30);
    assert_eq!(session.body_offset(100, 18), 52);
    session.scroll(1000);
    assert_eq!(session.body_offset(100, 18), 0);
    assert_eq!(session.scroll, 82);
    assert_eq!(session.body_offset(10, 18), 0);
    assert_eq!(session.scroll, 0);
}

/// A message that a session takes starts a turn, whatever lies in the queue before it.
#[test]
fn a_message_always_starts_its_turn() {
    let (mut panel, mut connection) = panel();
    let mut phase = Phase::Idle;
    for text in ["one", "two"] {
        cancel(&mut panel, &nothing_open());
        assert!(matches!(submit_prompt(&mut panel, text.to_string()), Delivery::Queued));
        assert!(matches!(submit_prompt(&mut panel, "lost".to_string()), Delivery::Ignored));
        let mut started = vec![];
        while let Ok(request) = connection.requests.try_recv() {
            let (next, action) = step(phase, Signal::Queue(Some(request)));
            phase = next;
            if let Action::StartTurn(message) = action {
                started.push(message);
            }
        }
        assert_eq!(started, [text]);
        let (next, action) = step(phase, Signal::Answered(StopReason::EndTurn));
        phase = next;
        assert!(matches!(action, Action::EndTurn(StopReason::EndTurn)));
        end_turn(&mut panel, &StopReason::EndTurn);
    }
}

#[test]
fn the_transcript_only_grows() {
    let (mut panel, _connection) = panel();
    let mut before = String::new();
    for turn in 0..3 {
        submit_prompt(&mut panel, "hi".to_string());
        start_turn(&mut panel, "hi");
        apply_update(&mut panel, SessionUpdate::ToolCall { title: format!("call {turn}") });
        cancel(&mut panel, &nothing_open());
        assert!(panel.assist.as_ref().unwrap().is_busy(), "a cancelled turn still has to end");
        end_turn(&mut panel, &StopReason::Cancelled);
        let after = transcript(&panel).to_string();
        assert!(after.len() > before.len() && after.starts_with(&before));
        before = after;
    }
}

#[test]
fn a_restarted_session_reaches_its_own_connection() {
    let (mut panel, mut stale) = panel();
    let mut fresh = open_or_prompt_when(&mut panel, &config(true, Some("agent")), false).unwrap();
    submit_prompt(&mut panel, "hi".to_string());
    assert!(matches!(fresh.requests.try_recv(), Ok(Request::Prompt(text)) if text == "hi"));
    assert!(stale.requests.try_recv().is_err());
}
