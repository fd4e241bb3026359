use std::collections::HashMap;

use assist::command::{cancel, open, open_or_prompt_when, AssistConfig, Connection};
use assist::editor::{Document, Editor, OpenView};
use assist::effect::Effect;
use assist::layout::Rect;
use assist::panel::{close, Panel};
use assist::permission::{Outcome, PermissionOption, PermissionOptionKind};
use assist::proposal::{apply_proposal, Diff, FilePath, Opened};
use assist::review::{
    begin_review, decide, resolve, resume_review, review_edit, Event, EventResult, KeyCode,
    PermissionRequest, ReviewGate, ToolCallContent, Verdict,
};
use assist::session::AppliedEdit;

const ORIGINAL: &str = "fn main() {\n    println!(\"hi\");\n}\n";

const REFACTORED: &str = "fn main() {\n    greet();\n}\n\nfn greet() {}\n";

/// A document of the host.
struct Buffer {
    path: &'static str,
    text: String,
    revisions: Vec<String>,
    pending: bool,
}

/// An editor that keeps its documents in memory and performs what a panel asks for.
struct Host {
    panel: Panel,
    _connection: Connection,
    buffers: HashMap<u64, Buffer>,
    savepoints: Vec<String>,
    replies: Vec<(u64, Option<String>)>,
    gates: Vec<String>,
    status: Vec<String>,
}

impl Host {
    fn new(files: &[(&'static str, &str)]) -> Host {
        let config = AssistConfig { enable: true, command: Some("agent".to_string()) };
        let (session, connection) = open(&config, None).ok().unwrap();
        let buffers = files.iter().enumerate().map(|(i, (path, text))| {
            let text = text.to_string();
            let revisions = vec![text.clone()];
            (i as u64 + 1, Buffer { path, text, revisions, pending: false })
        });
        Host {
            panel: Panel { assist: Some(session), effects: vec![] },
            _connection: connection,
            buffers: buffers.collect(),
            savepoints: vec![],
            replies: vec![],
            gates: vec![],
            status: vec![],
        }
    }

    fn editor(&self) -> Editor {
        let mut ids: Vec<u64> = self.buffers.keys().copied().collect();
        ids.sort();
        let document = |id: &u64| Document {
            id: *id,
            path: Some(self.buffers[id].path.as_bytes().to_vec()),
        };
        Editor {
            documents: ids.iter().map(document).collect(),
            views: vec![OpenView { id: 1, doc: 1 }],
            focus: 1,
        }
    }

    fn apply(&mut self, diff: &Diff) -> Result<AppliedEdit, String> {
        let found = self.buffers.iter().find(|(_, buffer)| diff.path.display == buffer.path);
        let opened = match found {
            Some((id, buffer)) => Ok(Opened { doc: *id, view: 1, text: buffer.text.clone() }),
            None => Err("no such file".to_string()),
        };
        let placement = apply_proposal(opened, diff)?;
        let buffer = self.buffers.get_mut(&placement.doc).unwrap();
        self.savepoints.push(buffer.text.clone());
        let after = placement.transaction.apply(&buffer.text);
        buffer.pending = buffer.pending || after != buffer.text;
        buffer.text = after;
        Ok(AppliedEdit {
            doc: placement.doc,
            view: placement.view,
            savepoint: self.savepoints.len() as u64 - 1,
        })
    }

    fn request(&mut self, request: PermissionRequest) {
        let mut draft = begin_review(&mut self.panel, request);
        while let Some(current) = draft {
            let applied = self.apply(current.next_diff());
            let editor = self.editor();
            draft = review_edit(&mut self.panel, &editor, current, applied);
        }
        self.perform();
    }

    fn perform(&mut self) {
        for effect in std::mem::take(&mut self.panel.effects) {
            match effect {
                Effect::Restore { doc, savepoint, .. } => {
                    let buffer = self.buffers.get_mut(&doc).unwrap();
                    buffer.text = self.savepoints[savepoint as usize].clone();
                }
                Effect::Commit { doc, .. } => {
                    let buffer = self.buffers.get_mut(&doc).unwrap();
                    if buffer.pending {
                        buffer.revisions.push(buffer.text.clone());
                        buffer.pending = false;
                    }
                }
                Effect::Reply { request, outcome } => {
                    let selected = match outcome {
                        Outcome::Selected(id) => Some(id),
                        Outcome::Cancelled => None,
                    };
                    self.replies.push((request, selected));
                }
                Effect::PushGate { title } => self.gates.push(title),
                Effect::RemoveGates => self.gates.clear(),
                Effect::SetStatus(message) => self.status.push(message),
                Effect::SetError(message) => self.status.push(message),
                Effect::ShowPrompt { .. } => {}
                Effect::OpenScratch { .. } => {}
            }
        }
    }

    fn decide(&mut self, verdict: Verdict) {
        let editor = self.editor();
        decide(&mut self.panel, &editor, verdict);
        self.perform();
    }

    fn text(&self, doc: u64) -> &str {
        &self.buffers[&doc].text
    }

    fn transcript(&self) -> &str {
        self.panel.assist.as_ref().unwrap().transcript()
    }

    fn reviewing(&self) -> bool {
        self.panel.assist.as_ref().unwrap().review.is_some()
    }
}

fn diff(path: &str, old: Option<&str>, new: &str) -> ToolCallContent {
    ToolCallContent::Diff(Diff {
        path: FilePath { key: path.as_bytes().to_vec(), display: path.to_string() },
        old_text: old.map(str::to_string),
        new_text: new.to_string(),
    })
}

fn request(id: u64, content: Vec<ToolCallContent>) -> PermissionRequest {
    PermissionRequest {
        id,
        title: Some("Extract a greet function".to_string()),
        content: Some(content),
        options: vec![
            PermissionOption::new("yes", "Apply this edit", PermissionOptionKind::AllowOnce),
            PermissionOption::new("no", "Skip it", PermissionOptionKind::RejectOnce),
        ],
    }
}

/// The core property: rejecting a proposal restores the buffer exactly.
#[test]
fn rejecting_restores_the_buffer() {
    let mut host = Host::new(&[("/demo.rs", ORIGINAL)]);
    host.request(request(1, vec![diff("/demo.rs", None, REFACTORED)]));
    assert_eq!(host.text(1), REFACTORED);
    assert_eq!(host.gates, ["Extract a greet function"]);
    host.buffers.get_mut(&1).unwrap().text.push_str("// by hand\n");
    host.decide(Verdict::Reject);
    assert_eq!(host.text(1), ORIGINAL, "rejecting must restore the buffer byte for byte");
    assert_eq!(host.buffers[&1].revisions, [ORIGINAL]);
    assert_eq!(host.replies, [(1, Some("no".to_string()))]);
    assert!(host.gates.is_empty());
    assert!(!host.reviewing());
    assert_eq!(
        host.transcript(),
        "\n_reviewing_ `Extract a greet function`\n\n_(rejected)_\n"
    );
}

/// Accepting keeps the edit as exactly one undo revision, so a single undo returns the buffer
/// to what it was before the agent touched it.
#[test]
fn accepting_commits_one_undo_revision() {
    let mut host = Host::new(&[("/demo.rs", ORIGINAL)]);
    host.request(request(2, vec![
        diff("/demo.rs", Some("println!(\"hi\")"), "greet()"),
        diff("/demo.rs", Some("}\n"), "}\n\nfn greet() {}\n"),
    ]));
    assert_eq!(host.text(1), REFACTORED);
    host.decide(Verdict::Accept);
    assert_eq!(host.text(1), REFACTORED, "accepting should keep the proposed edit");
    assert_eq!(
        host.buffers[&1].revisions,
        [ORIGINAL, REFACTORED],
        "one undo should step over the whole accepted edit"
    );
    assert_eq!(host.replies, [(2, Some("yes".to_string()))]);
    assert_eq!(
        host.transcript(),
        "\n_reviewing_ `Extract a greet function` (2 files)\n\n_(accepted)_\n"
    );
}

#[test]
fn edits_to_one_file_unwind_in_reverse() {
    let mut host = Host::new(&[("/demo.rs", "one two"), ("/other.rs", "x")]);
    host.request(request(3, vec![
        diff("/demo.rs", Some("one"), "1"),
        diff("/other.rs", None, "y"),
        diff("/demo.rs", Some("two"), "2"),
    ]));
    assert_eq!((host.text(1), host.text(2)), ("1 2", "y"));
    assert_eq!(host.gates, ["Extract a greet function (3 files)"]);
    host.decide(Verdict::Reject);
    assert_eq!((host.text(1), host.text(2)), ("one two", "x"));
}

/// All or nothing: a diff that does not apply takes the earlier ones back.
#[test]
fn a_proposal_applies_whole_or_not_at_all() {
    let mut host = Host::new(&[("/demo.rs", "one two")]);
    host.request(request(4, vec![
        diff("/demo.rs", Some("one"), "1"),
        diff("/demo.rs", Some("three"), "3"),
        diff("/demo.rs", Some("two"), "2"),
    ]));
    assert_eq!(host.text(1), "one two");
    assert_eq!(host.replies, [(4, None)]);
    assert!(host.gates.is_empty());
    assert!(!host.reviewing());
    assert_eq!(
        host.transcript(),
        "\n_(declined: Extract a greet function: the proposed edit does not match the buffer)_\n"
    );
}

#[test]
fn a_request_without_a_diff_is_declined() {
    let mut host = Host::new(&[("/demo.rs", ORIGINAL)]);
    host.request(request(5, vec![ToolCallContent::Other]));
    host.request(PermissionRequest { id: 6, title: None, content: None, options: vec![] });
    assert_eq!(host.text(1), ORIGINAL);
    assert_eq!(host.replies, [(5, None), (6, None)]);
    assert_eq!(
        host.transcript(),
        "\n_(declined: Extract a greet function: nothing to review)_\n\
         \n_(declined: proposed edit: nothing to review)_\n"
    );
}

#[test]
fn a_file_that_does_not_open_declines_the_request() {
    let mut host = Host::new(&[("/demo.rs", ORIGINAL)]);
    host.request(request(7, vec![ToolCallContent::Other, diff("/gone.rs", None, "x")]));
    assert_eq!(host.replies, [(7, None)]);
    assert_eq!(
        host.transcript(),
        "\n_(declined: Extract a greet function: could not open /gone.rs: no such file)_\n"
    );
}

#[test]
fn a_proposal_can_be_corrected_by_hand() {
    let mut host = Host::new(&[("/demo.rs", ORIGINAL)]);
    host.request(request(8, vec![diff("/demo.rs", None, REFACTORED)]));
    assert!(!resume_review(&mut host.panel));
    host.decide(Verdict::Edit);
    assert!(host.gates.is_empty());
    assert!(host.replies.is_empty());
    assert_eq!(host.status, ["assist: editing proposal — space+A to resume review"]);
    assert!(host.reviewing());
    host.buffers.get_mut(&1).unwrap().text.push_str("// by hand\n");
    let config = AssistConfig { enable: false, command: None };
    assert!(open_or_prompt_when(&mut host.panel, &config, true).is_none());
    host.perform();
    assert_eq!(host.gates, ["edited proposal"]);
    host.decide(Verdict::Accept);
    assert_eq!(host.text(1), format!("{REFACTORED}// by hand\n"));
    assert_eq!(host.replies, [(8, Some("yes".to_string()))]);
}

#[test]
fn cancelling_takes_the_proposal_back_and_answers() {
    let mut host = Host::new(&[("/demo.rs", ORIGINAL)]);
    host.request(request(9, vec![diff("/demo.rs", None, REFACTORED)]));
    let editor = host.editor();
    cancel(&mut host.panel, &editor);
    host.perform();
    assert_eq!(host.text(1), ORIGINAL);
    assert_eq!(host.replies, [(9, None)]);
    assert!(host.gates.is_empty());
    assert_eq!(host.status, ["assist: cancelled"]);
    host.decide(Verdict::Accept);
    assert_eq!(host.replies.len(), 1, "nothing is answered twice");
}

#[test]
fn a_second_request_cancels_the_first() {
    let mut host = Host::new(&[("/demo.rs", ORIGINAL)]);
    host.request(request(10, vec![diff("/demo.rs", None, REFACTORED)]));
    host.request(request(11, vec![diff("/demo.rs", None, "x")]));
    assert_eq!(host.replies, [(10, None)]);
    assert_eq!(host.gates.len(), 2);
    host.decide(Verdict::Reject);
    assert_eq!(host.replies, [(10, None), (11, Some("no".to_string()))]);
    assert_eq!(host.text(1), REFACTORED);
    assert!(host.gates.is_empty());
}

#[test]
fn a_request_without_a_session_is_cancelled() {
    let mut host = Host::new(&[("/demo.rs", ORIGINAL)]);
    host.panel.assist = None;
    host.request(request(12, vec![diff("/demo.rs", None, REFACTORED)]));
    assert_eq!(host.replies, [(12, None)]);
    assert!(host.gates.is_empty());
    resolve(&mut host.panel, &Editor { documents: vec![], views: vec![], focus: 1 }, Verdict::Accept);
    assert!(host.panel.effects.is_empty());
}

#[test]
fn a_closed_document_is_left_alone() {
    let mut host = Host::new(&[("/demo.rs", "one"), ("/other.rs", "x")]);
    host.request(request(13, vec![
        diff("/demo.rs", None, "1"),
        diff("/other.rs", None, "y"),
    ]));
    host.buffers.remove(&2);
    host.decide(Verdict::Reject);
    assert_eq!(host.text(1), "one");
    assert_eq!(host.replies.len(), 1);
}

#[test]
fn the_gate_swallows_every_key() {
    let gate = ReviewGate { title: "t".to_string() };
    let key = |code| gate.handle_event(&Event::Key(code));
    assert_eq!(key(KeyCode::Char('a')), EventResult::Consumed(Some(Verdict::Accept)));
    assert_eq!(key(KeyCode::Char('r')), EventResult::Consumed(Some(Verdict::Reject)));
    assert_eq!(key(KeyCode::Char('e')), EventResult::Consumed(Some(Verdict::Edit)));
    assert_eq!(key(KeyCode::Esc), EventResult::Consumed(Some(Verdict::Edit)));
    assert_eq!(key(KeyCode::Char('x')), EventResult::Consumed(None));
    assert_eq!(key(KeyCode::Other), EventResult::Consumed(None));
    assert_eq!(gate.handle_event(&Event::Other), EventResult::Ignored);
}

#[test]
fn the_gate_is_a_bar_on_the_last_row() {
    let gate = ReviewGate { title: "edited proposal".to_string() };
    let (bar, hint) = gate.render(Rect { x: 3, y: 1, width: 80, height: 24 });
    assert_eq!(bar, Rect { x: 3, y: 24, width: 80, height: 1 });
    assert_eq!(hint, " edited proposal   [a]ccept  [r]eject  [e]dit ");
    let (bar, _) = gate.render(Rect { x: 0, y: 5, width: 80, height: 0 });
    assert_eq!(bar.y, 5);
}

/// Whatever becomes of a request, it is answered, and never twice.
#[test]
fn every_request_is_answered_exactly_once() {
    let mut host = Host::new(&[("/demo.rs", "one two")]);
    let edit = || vec![diff("/demo.rs", None, "edited")];
    host.request(request(1, vec![]));
    host.request(request(2, vec![diff("/demo.rs", Some("three"), "3")]));
    host.request(request(3, edit()));
    host.request(request(4, edit()));
    host.decide(Verdict::Edit);
    assert!(host.replies.iter().all(|(id, _)| *id != 4), "still held");
    assert!(resume_review(&mut host.panel));
    host.decide(Verdict::Accept);
    host.decide(Verdict::Reject);
    host.request(request(5, edit()));
    host.decide(Verdict::Reject);
    host.request(request(6, edit()));
    let editor = host.editor();
    cancel(&mut host.panel, &editor);
    host.perform();
    host.request(request(7, edit()));
    let config = AssistConfig { enable: true, command: Some("agent".to_string()) };
    assert!(open_or_prompt_when(&mut host.panel, &config, false).is_some());
    host.perform();
    let answered: Vec<u64> = host.replies.iter().map(|(id, _)| *id).collect();
    assert_eq!(answered, [1, 2, 3, 4, 5, 6, 7]);
}

/// Accepting a corrected proposal keeps the correction in the same revision.
#[test]
fn a_correction_is_undone_with_its_proposal() {
    let mut host = Host::new(&[("/demo.rs", ORIGINAL)]);
    host.request(request(1, vec![diff("/demo.rs", None, REFACTORED)]));
    host.buffers.get_mut(&1).unwrap().text.push_str("// by hand\n");
    host.decide(Verdict::Accept);
    let corrected = format!("{REFACTORED}// by hand\n");
    assert_eq!(host.buffers[&1].revisions, [ORIGINAL.to_string(), corrected]);
}

/// A document that is gone keeps no other from being taken back.
#[test]
fn the_first_edit_of_a_document_takes_it_back() {
    let mut host = Host::new(&[("/demo.rs", "one"), ("/other.rs", "x")]);
    host.request(request(1, vec![
        diff("/other.rs", None, "y"),
        diff("/demo.rs", Some("one"), "two"),
        diff("/demo.rs", Some("two"), "three"),
    ]));
    host.panel.assist.as_mut().unwrap().review.as_mut().unwrap().edits[2].view = 99;
    host.buffers.remove(&2);
    host.decide(Verdict::Reject);
    assert_eq!(host.text(1), "one");
}

#[test]
fn a_proposal_that_changes_nothing_makes_no_revision() {
    let mut host = Host::new(&[("/demo.rs", ORIGINAL)]);
    host.request(request(1, vec![diff("/demo.rs", Some(ORIGINAL), ORIGINAL)]));
    host.decide(Verdict::Accept);
    assert_eq!(host.buffers[&1].revisions, [ORIGINAL]);
    assert_eq!(host.replies, [(1, Some("yes".to_string()))]);
}

/// Closing the panel answers what was under review, and leaves the edit where it is.
#[test]
fn closing_the_panel_answers_the_request() {
    let mut host = Host::new(&[("/demo.rs", ORIGINAL)]);
    host.request(request(1, vec![diff("/demo.rs", None, REFACTORED)]));
    close(&mut host.panel);
    host.perform();
    assert!(host.panel.assist.is_none());
    assert_eq!(host.replies, [(1, None)]);
    assert_eq!(host.text(1), REFACTORED);
    close(&mut host.panel);
    assert!(host.panel.effects.is_empty());
}

/// A rejected proposal does not stand in the way of the next one.
#[test]
fn accepting_after_rejecting_makes_one_revision() {
    let mut host = Host::new(&[("/demo.rs", ORIGINAL)]);
    host.request(request(1, vec![diff("/demo.rs", None, "other")]));
    host.decide(Verdict::Reject);
    host.request(request(2, vec![diff("/demo.rs", None, REFACTORED)]));
    host.decide(Verdict::Accept);
    assert_eq!(host.buffers[&1].revisions, [ORIGINAL, REFACTORED]);
}
