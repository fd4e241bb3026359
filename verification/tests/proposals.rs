use assist::changes::{changed_span, selection, shown_span, Change, ChangeSet};
use assist::proposal::{
    applied_proposal, apply_proposal, proposal_transaction, Diff, FilePath, Opened, Placement,
    ProposalError, Transaction,
};

/// The change that takes `before` to `after`, between what the two share at either end.
fn compare(before: &str, after: &str) -> ChangeSet {
    let old: Vec<char> = before.chars().collect();
    let new: Vec<char> = after.chars().collect();
    if old == new {
        return ChangeSet::new(old.len(), vec![]).unwrap();
    }
    let head = old.iter().zip(&new).take_while(|(a, b)| a == b).count();
    let tail = old[head..]
        .iter()
        .rev()
        .zip(new[head..].iter().rev())
        .take_while(|(a, b)| a == b)
        .count();
    let insert: String = new[head..new.len() - tail].iter().collect();
    let insert = if insert.is_empty() { None } else { Some(insert) };
    let change = Change { from: head, to: old.len() - tail, insert };
    ChangeSet::new(old.len(), vec![change]).unwrap()
}

/// Compute the span for an edit and assert it addresses the *new* text.
fn span_of(before: &str, after: &str) -> Option<(usize, usize)> {
    let changes = compare(before, after);
    let span = changed_span(&changes);
    let len_chars = after.chars().count();
    assert_eq!(changes.len_after(), len_chars);
    if let Some((from, to)) = span {
        assert!(from <= to, "span {from}..{to} is inverted");
        assert!(
            to <= len_chars,
            "span end {to} outruns the new text ({len_chars} chars)"
        );
    }
    span
}

#[test]
fn changed_span_selects_the_inserted_text() {
    let before = "fn main() {}\n";
    let after = "fn main() {}\nfn other() {}\n";
    let (from, to) = span_of(before, after).expect("an insertion has a span");
    let selected: String = after.chars().skip(from).take(to - from).collect();
    assert!(
        selected.contains("fn other"),
        "expected the new function to be selected, got {selected:?}"
    );
}

#[test]
fn changed_span_never_outruns_the_new_text() {
    let cases = [
        ("", "hello"),
        ("hello", ""),
        (
            "fn main() {\n    println!(\"hi\");\n}\n",
            "fn main() {\n    greet();\n}\n\nfn greet() {\n    println!(\"hello\");\n}\n",
        ),
        ("a\nb\nc\n", "a\nc\n"),
        ("one", "one"),
        ("x\n", "y\nz\nw\n"),
    ];
    for (before, after) in cases {
        span_of(before, after);
    }
}

#[test]
fn unchanged_text_has_no_span() {
    assert_eq!(span_of("same\n", "same\n"), None);
}

fn change(from: usize, to: usize, insert: Option<&str>) -> Change {
    Change { from, to, insert: insert.map(str::to_string) }
}

#[test]
fn a_span_reaches_from_the_first_change_to_the_last() {
    // "abcdefgh" becomes "aXXdeYh".
    let changes = vec![change(1, 3, Some("XX")), change(5, 7, Some("Y"))];
    let set = ChangeSet::new(8, changes).unwrap();
    assert_eq!(set.len_after(), 7);
    assert_eq!(changed_span(&set), Some((1, 6)));
    // "abcdefgh" becomes "bcdef!gh".
    let changes = vec![change(0, 1, None), change(6, 6, Some("!"))];
    let set = ChangeSet::new(8, changes).unwrap();
    assert_eq!(set.len_after(), 8);
    assert_eq!(changed_span(&set), Some((0, 6)));
}

#[test]
fn changes_out_of_order_or_to_no_effect_are_no_edit() {
    assert!(ChangeSet::new(8, vec![change(5, 7, None), change(1, 3, None)]).is_none());
    assert!(ChangeSet::new(8, vec![change(1, 4, None), change(3, 5, None)]).is_none());
    assert!(ChangeSet::new(8, vec![change(4, 3, None)]).is_none());
    assert!(ChangeSet::new(8, vec![change(7, 9, None)]).is_none());
    assert!(ChangeSet::new(usize::MAX, vec![change(0, 0, Some("x"))]).is_none());
    assert!(ChangeSet::new(8, vec![change(1, 1, None)]).is_none());
    assert!(ChangeSet::new(8, vec![change(1, 1, Some(""))]).is_none());
    assert!(ChangeSet::new(usize::MAX, vec![change(0, 1, Some("x"))]).is_some());
}

#[test]
fn a_selection_is_kept_within_the_text() {
    assert_eq!(selection(Some((2, 9)), 5), Some((2, 5)));
    assert_eq!(selection(Some((7, 9)), 5), Some((5, 5)));
    assert_eq!(selection(Some((1, 4)), 5), Some((1, 4)));
    assert_eq!(selection(None, 5), None);
}

fn diff_of(path: &str, old: Option<&str>, new: &str) -> Diff {
    Diff {
        path: FilePath { key: path.as_bytes().to_vec(), display: path.to_string() },
        old_text: old.map(str::to_string),
        new_text: new.to_string(),
    }
}

fn applied(before: &str, old: Option<&str>, new: &str) -> Result<String, String> {
    let transaction = proposal_transaction(before, &diff_of("/tmp/x.rs", old, new))
        .map_err(|error| error.message())?;
    Ok(transaction.apply(before))
}

/// An adapter may send only the changed region. Treating that as whole-file content would
/// replace the entire buffer with a single line.
#[test]
fn a_hunk_replaces_only_its_own_span() {
    let before = "def greet(name):\n    print(name)\n\ngreet(\"world\")\n";
    let after = applied(before, Some("def greet(name):"), "def say_hello(name):").unwrap();
    assert_eq!(
        "def say_hello(name):\n    print(name)\n\ngreet(\"world\")\n", after,
        "the rest of the file must survive"
    );
}

#[test]
fn whole_file_old_text_still_works() {
    let before = "one\ntwo\n";
    let after = applied(before, Some(before), "one\nTWO\n").unwrap();
    assert_eq!("one\nTWO\n", after);
}

#[test]
fn absent_old_text_is_a_whole_file_replacement() {
    let after = applied("stale\n", None, "fresh\n").unwrap();
    assert_eq!("fresh\n", after);
}

/// Better to decline than to clobber a buffer the agent has stale knowledge of.
#[test]
fn a_hunk_that_does_not_match_is_refused() {
    let err = applied("actual contents\n", Some("something else"), "new").unwrap_err();
    assert!(err.to_string().contains("does not match"), "{err}");
}

#[test]
fn an_ambiguous_hunk_is_refused() {
    let err = applied("dup\ndup\n", Some("dup"), "changed").unwrap_err();
    assert!(err.to_string().contains("more than one place"), "{err}");
}

#[test]
fn empty_old_text_is_a_whole_file_replacement() {
    assert_eq!(applied("stale\n", Some(""), "fresh\n").unwrap(), "fresh\n");
}

/// Places that overlap are places all the same: nothing tells which of them is meant.
#[test]
fn occurrences_that_overlap_are_ambiguous() {
    for (before, old) in [("aaa", "aa"), ("aaaa", "aa"), ("ababa", "aba")] {
        let err = applied(before, Some(old), "x").unwrap_err();
        assert!(err.contains("more than one place"), "{err}");
    }
    assert_eq!(applied("abab", Some("aba"), "x").unwrap(), "xb");
}

#[test]
fn hunks_are_placed_by_characters() {
    let diff = diff_of("/tmp/x.rs", Some("ß"), "ss");
    match proposal_transaction("größe — grüße", &diff) {
        Err(error) => assert_eq!(error, ProposalError::Ambiguous),
        Ok(_) => panic!("placed twice"),
    }
    let diff = diff_of("/tmp/x.rs", Some("grüße"), "Gruß");
    match proposal_transaction("größe — grüße!", &diff) {
        Ok(Transaction::Replace { from, to, text }) => {
            assert_eq!((from, to, text.as_str()), (8, 13, "Gruß"));
        }
        _ => panic!("not placed"),
    }
    assert_eq!(applied("größe — grüße!", Some("grüße"), "Gruß").unwrap(), "größe — Gruß!");
}

#[test]
fn a_file_that_does_not_open_is_reported() {
    let diff = diff_of("/tmp/x.rs", None, "new");
    let error = apply_proposal(Err("permission denied".to_string()), &diff).err().unwrap();
    assert_eq!(error, "could not open /tmp/x.rs: permission denied");
}

#[test]
fn a_proposal_goes_to_the_document_that_was_opened() {
    let opened = || Ok(Opened { doc: 3, view: 4, text: "one two".to_string() });
    let placement = apply_proposal(opened(), &diff_of("/x", Some("two"), "2")).ok().unwrap();
    assert_eq!((placement.doc, placement.view), (3, 4));
    assert_eq!(placement.transaction.apply("one two"), "one 2");
    let error = apply_proposal(opened(), &diff_of("/x", Some("three"), "3")).err().unwrap();
    assert_eq!(error, "the proposed edit does not match the buffer");
}

#[test]
fn a_hunk_is_one_change() {
    let diff = diff_of("/x", Some("two"), "zwei");
    match proposal_transaction("one two three", &diff) {
        Ok(Transaction::Replace { from, to, text }) => {
            let set = ChangeSet::new(13, vec![change(from, to, Some(&text))]).unwrap();
            assert_eq!(changed_span(&set), Some((4, 8)));
            assert_eq!(set.len_after(), 14);
        }
        _ => panic!("not placed"),
    }
}

#[test]
fn what_changed_is_shown() {
    // "abcdefgh" becomes "aXXdeYh".
    let changes = || vec![change(1, 3, Some("XX")), change(5, 7, Some("Y"))];
    assert_eq!(shown_span(8, changes(), 7), Some((1, 6)));
    assert_eq!(shown_span(8, changes(), 4), Some((1, 4)), "no further than the text");
    assert_eq!(shown_span(6, changes(), 7), None, "no edit of so short a text");
    assert_eq!(shown_span(8, vec![], 8), None);
}

#[test]
fn an_applied_proposal_is_taken_back_where_it_went() {
    let transaction = Transaction::Replace { from: 4, to: 7, text: "zwei".to_string() };
    let placement = Placement { doc: 3, view: 4, transaction };
    let changes = vec![change(4, 7, Some("zwei"))];
    let (edit, selection) = applied_proposal(&placement, 9, 13, changes, 14);
    assert_eq!((edit.doc, edit.view, edit.savepoint), (3, 4, 9));
    assert_eq!(selection, Some((4, 8)));
}
