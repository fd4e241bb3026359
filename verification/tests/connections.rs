use assist::connection::{
    capabilities, farewell, is_expected, launch, launch_error, start, step, Action, Phase, Signal,
};
use assist::session::Request;
use assist::update::StopReason;

#[test]
fn a_command_line_launches() {
    let agent = launch("RUST_LOG=debug my-agent --acp").unwrap();
    let shown = format!("{agent:?}");
    assert!(shown.contains("my-agent"), "{shown}");
    assert!(shown.contains("--acp"), "{shown}");
}

#[test]
fn a_command_that_is_no_agent_is_reported_with_the_reason() {
    let error = launch("agent 'unclosed").err().unwrap();
    assert!(error.starts_with("could not launch agent `agent 'unclosed`: "), "{error}");
    assert!(error.len() > "could not launch agent `agent 'unclosed`: ".len(), "{error}");
    assert!(launch("").is_err());
    assert!(launch("ONLY=env").is_err());
    assert_eq!(launch_error("x", "why"), "could not launch agent `x`: why");
}

#[test]
fn the_end_of_a_connection_is_told() {
    assert_eq!(farewell(&Ok(())), "assist: agent disconnected");
    assert_eq!(farewell(&Err("broken pipe".to_string())), "assist: broken pipe");
}

#[test]
fn files_are_offered_and_terminals_are_not() {
    let offer = capabilities();
    assert!(offer.read_text_file);
    assert!(offer.write_text_file);
    assert!(!offer.terminal);
}

fn prompt(text: &str) -> Signal {
    Signal::Queue(Some(Request::Prompt(text.to_string())))
}

fn cancel() -> Signal {
    Signal::Queue(Some(Request::Cancel))
}

#[test]
fn a_connection_runs_turn_after_turn() {
    let (phase, action) = start();
    assert!(matches!(action, Action::Initialize(offer) if offer == capabilities()));
    let (phase, action) = step(phase, Signal::Initialized);
    assert!(matches!(action, Action::OpenSession));
    let (mut phase, action) = step(phase, Signal::Opened);
    assert!(matches!(action, Action::Wait));
    for text in ["one", "two"] {
        let (turn, action) = step(phase, prompt(text));
        assert_eq!(turn, Phase::Turn);
        assert!(matches!(action, Action::StartTurn(sent) if sent == text));
        let (idle, action) = step(turn, Signal::Answered(StopReason::EndTurn));
        assert_eq!(idle, Phase::Idle);
        assert!(matches!(action, Action::EndTurn(StopReason::EndTurn)));
        phase = idle;
    }
    let (phase, action) = step(phase, Signal::Queue(None));
    assert_eq!(phase, Phase::Closed);
    assert!(matches!(action, Action::Finish(Ok(()))));
}

#[test]
fn a_cancel_reaches_the_agent_during_a_turn_only() {
    let (phase, action) = step(Phase::Idle, cancel());
    assert_eq!(phase, Phase::Idle);
    assert!(matches!(action, Action::Wait));
    let (phase, action) = step(Phase::Turn, cancel());
    assert_eq!(phase, Phase::Turn, "the turn is awaited to its end");
    assert!(matches!(action, Action::NotifyCancel));
    let (phase, _) = step(phase, Signal::Answered(StopReason::Cancelled));
    assert_eq!(phase, Phase::Idle);
}

#[test]
fn a_turn_outlives_other_messages_and_the_queue() {
    let (phase, action) = step(Phase::Turn, prompt("again"));
    assert_eq!(phase, Phase::Turn);
    assert!(matches!(action, Action::Wait));
    let (phase, action) = step(Phase::Turn, Signal::Queue(None));
    assert_eq!(phase, Phase::Turn);
    assert!(matches!(action, Action::Wait));
}

#[test]
fn a_failure_ends_the_connection() {
    for phase in [Phase::Initializing, Phase::Opening, Phase::Idle, Phase::Turn] {
        let (after, action) = step(phase, Signal::Failed("gone".to_string()));
        assert_eq!(after, Phase::Closed);
        assert!(matches!(action, Action::Finish(Err(error)) if error == "gone"));
    }
}

#[test]
fn a_phase_expects_its_own_signals() {
    let phases =
        [Phase::Initializing, Phase::Opening, Phase::Idle, Phase::Turn, Phase::Closed];
    let expecting = |signal: Signal| -> Vec<Phase> {
        phases.iter().copied().filter(|phase| is_expected(*phase, &signal)).collect()
    };
    assert_eq!(expecting(Signal::Initialized), [Phase::Initializing]);
    assert_eq!(expecting(Signal::Opened), [Phase::Opening]);
    assert_eq!(expecting(cancel()), [Phase::Idle, Phase::Turn]);
    assert_eq!(expecting(Signal::Queue(None)), [Phase::Idle, Phase::Turn]);
    assert_eq!(expecting(Signal::Answered(StopReason::Refusal)), [Phase::Turn]);
    assert_eq!(expecting(Signal::Failed("gone".to_string())), phases[..4]);
}
