//! From a proposed diff to the edit that a buffer takes, and to the span it touches.

use crate::changes::ordered;
use crate::changes::selected;
use crate::changes::shift;
use crate::changes::shown_span;
use crate::changes::span;
use crate::changes::views;
use crate::changes::Change;
use crate::session::AppliedEdit;
use crate::text::chars_of;
use crate::text::enclose;
use vstd::prelude::*;
use vstd::string::*;

verus! {

/// A file as the host names it.
pub struct FilePath {
    /// The bytes of the normalized path, by which two paths are the same file or not.
    pub key: Vec<u8>,
    /// The path as it is shown to a reader.
    pub display: String,
}

/// One file of a proposal: the text the agent saw, if it says so, and the text it wants.
pub struct Diff {
    pub path: FilePath,
    pub old_text: Option<String>,
    pub new_text: String,
}

/// What a [`Diff`] says.
pub struct DiffView {
    pub path: Seq<u8>,
    pub display: Seq<char>,
    pub old_text: Option<Seq<char>>,
    pub new_text: Seq<char>,
}

impl View for Diff {
    type V = DiffView;

    open spec fn view(&self) -> DiffView {
        DiffView {
            path: self.path.key@,
            display: self.path.display@,
            old_text: match self.old_text {
                Some(old) => Some(old@),
                None => None,
            },
            new_text: self.new_text@,
        }
    }
}

impl DiffView {
    /// Whether the diff speaks of all of a buffer that holds `text`: it names no old text,
    /// or it names exactly `text`.
    pub open spec fn is_whole_file(self, text: Seq<char>) -> bool {
        match self.old_text {
            Some(old) => old.len() == 0 || old == text,
            None => true,
        }
    }
}

/// The edit that a proposal makes to a buffer.
pub enum Transaction {
    /// Bring the whole buffer to this text, changing no more than differs.
    Compare(String),
    /// Put `text` in place of the characters from `from` up to `to`.
    Replace { from: usize, to: usize, text: String },
}

/// What a [`Transaction`] asks for.
pub enum TransactionView {
    Compare(Seq<char>),
    Replace { from: int, to: int, text: Seq<char> },
}

impl View for Transaction {
    type V = TransactionView;

    open spec fn view(&self) -> TransactionView {
        match *self {
            Transaction::Compare(text) => TransactionView::Compare(text@),
            Transaction::Replace { from, to, text } => TransactionView::Replace {
                from: from as int,
                to: to as int,
                text: text@,
            },
        }
    }
}

impl TransactionView {
    /// Whether the edit fits a buffer that holds `text`.
    pub open spec fn fits(self, text: Seq<char>) -> bool {
        match self {
            TransactionView::Compare(_) => true,
            TransactionView::Replace { from, to, .. } => 0 <= from <= to <= text.len(),
        }
    }

    /// What a buffer that held `text` holds after the edit.
    pub open spec fn apply(self, text: Seq<char>) -> Seq<char> {
        match self {
            TransactionView::Compare(new_text) => new_text,
            TransactionView::Replace { from, to, text: insert } => text.take(from) + insert
                + text.skip(to),
        }
    }
}

impl Transaction {
    /// The text of a buffer that held `text`, after the edit.
    pub fn apply(&self, text: &str) -> (result: String)
        requires
            self@.fits(text@),
        ensures
            result@ == self@.apply(text@),
    {
        match self {
            Transaction::Compare(new_text) => new_text.clone(),
            Transaction::Replace { from, to, text: insert } => {
                let before = text.substring_char(0, *from);
                let after = text.substring_char(*to, text.unicode_len());
                assert(text@.take(*from as int) == before@);
                assert(text@.skip(*to as int) == after@);
                enclose(before, insert.as_str(), after)
            },
        }
    }
}

/// Why a proposal cannot be placed in a buffer.
#[derive(Clone, Copy, Debug, PartialEq, Eq, Structural)]
pub enum ProposalError {
    /// The old text is nowhere in the buffer.
    NoMatch,
    /// The old text is in the buffer more than once, apart or overlapping.
    Ambiguous,
}

/// How a [`ProposalError`] reads.
pub open spec fn proposal_error_message(error: ProposalError) -> Seq<char> {
    match error {
        ProposalError::NoMatch => "the proposed edit does not match the buffer"@,
        ProposalError::Ambiguous => "the proposed edit matches the buffer in more than one place"@,
    }
}

impl ProposalError {
    /// The error as a sentence for the transcript.
    pub fn message(&self) -> (result: String)
        ensures
            result@ == proposal_error_message(*self),
    {
        match self {
            ProposalError::NoMatch => "the proposed edit does not match the buffer".to_owned(),
            ProposalError::Ambiguous => {
                "the proposed edit matches the buffer in more than one place".to_owned()
            },
        }
    }
}

/// Whether `part` stands in `text` at position `at`.
pub open spec fn occurs_at(text: Seq<char>, part: Seq<char>, at: int) -> bool {
    &&& 0 <= at
    &&& at + part.len() <= text.len()
    &&& text.subrange(at, at + part.len()) == part
}

/// Whether `part` stands nowhere in `text`.
pub open spec fn is_absent(text: Seq<char>, part: Seq<char>) -> bool {
    forall|at: int| !occurs_at(text, part, at)
}

/// Whether `part` stands in `text` in more than one place. The places may overlap.
pub open spec fn occurs_twice(text: Seq<char>, part: Seq<char>) -> bool {
    exists|a: int, b: int|
        #![trigger occurs_at(text, part, a), occurs_at(text, part, b)]
        occurs_at(text, part, a) && occurs_at(text, part, b) && a < b
}

/// Whether `transaction` is what a buffer that holds `text` takes for `diff`: all of the new
/// text where the diff speaks of the whole file; otherwise the new text in place of the old
/// one, which stands there and in no other place.
pub open spec fn is_placement(
    text: Seq<char>,
    diff: DiffView,
    transaction: TransactionView,
) -> bool {
    if diff.is_whole_file(text) {
        transaction == TransactionView::Compare(diff.new_text)
    } else {
        &&& transaction matches TransactionView::Replace { from, to, text: insert }
        &&& occurs_at(text, diff.old_text->0, from)
        &&& !occurs_twice(text, diff.old_text->0)
        &&& to == from + diff.old_text->0.len()
        &&& insert == diff.new_text
    }
}

/// Whether `part` stands in `text` at position `at`.
fn matches_at(text: &Vec<char>, part: &Vec<char>, at: usize) -> (result: bool)
    requires
        at + part@.len() <= text@.len(),
    ensures
        result == occurs_at(text@, part@, at as int),
{
    let end: usize = text.len();
    let mut i: usize = 0;
    while i < part.len()
        invariant
            i <= part@.len(),
            at + part@.len() <= text@.len() == end,
            forall|j: int| 0 <= j < i ==> text@[at + j] == #[trigger] part@[j],
        decreases part@.len() - i,
    {
        if text[at + i] != part[i] {
            assert(text@.subrange(at as int, at + part@.len())[i as int] == text@[at + i]);
            return false;
        }
        i += 1;
    }
    assert(text@.subrange(at as int, at + part@.len()) == part@);
    true
}

/// The first place at or behind `from` where `part` stands in `text`.
fn find_from(text: &Vec<char>, part: &Vec<char>, from: usize) -> (result: Option<usize>)
    ensures
        match result {
            Some(at) => {
                &&& from <= at
                &&& occurs_at(text@, part@, at as int)
                &&& forall|other: int| from <= other < at ==> !occurs_at(text@, part@, other)
            },
            None => forall|other: int| from <= other ==> !occurs_at(text@, part@, other),
        },
{
    if part.len() > text.len() {
        return None;
    }
    let last: usize = text.len() - part.len();
    let mut at: usize = from;
    while at <= last
        invariant
            from <= at,
            last == text@.len() - part@.len(),
            forall|other: int| from <= other < at ==> !occurs_at(text@, part@, other),
        decreases last + 1 - at,
    {
        if matches_at(text, part, at) {
            return Some(at);
        }
        if at == last {
            return None;
        }
        at += 1;
    }
    None
}

/// Build the transaction for a proposed diff.
///
/// A diff does not say whether its new text is the whole file or just the changed
/// region: a hunk arrives together with the old text it replaces, while a whole-file
/// proposal arrives with the current contents as its old text, or with none. So the old
/// text decides, and where it does not fit the buffer the proposal is refused.
pub fn proposal_transaction(text: &str, diff: &Diff) -> (result: Result<
    Transaction,
    ProposalError,
>)
    ensures
        match result {
            Ok(transaction) => is_placement(text@, diff@, transaction@),
            Err(ProposalError::NoMatch) => !diff@.is_whole_file(text@) && is_absent(
                text@,
                diff@.old_text->0,
            ),
            Err(ProposalError::Ambiguous) => !diff@.is_whole_file(text@) && occurs_twice(
                text@,
                diff@.old_text->0,
            ),
        },
        result matches Ok(Transaction::Compare(whole)) ==> whole@ == diff.new_text@ && (
        diff.old_text matches Some(old) ==> old@.len() == 0 || old@ == text@),
        result matches Ok(Transaction::Replace { from, to, text: insert }) ==> {
            &&& diff.old_text matches Some(old)
            &&& old@.len() > 0 && old@ != text@
            &&& from <= to <= text@.len() && text@.subrange(from as int, to as int) == old@
            &&& insert@ == diff.new_text@
        },
        result is Err ==> (diff.old_text matches Some(old) && old@.len() > 0 && old@ != text@),
{
    let old: &String = match &diff.old_text {
        Some(old) => old,
        None => return Ok(Transaction::Compare(diff.new_text.clone())),
    };
    let part = chars_of(old.as_str());
    if part.len() == 0 {
        return Ok(Transaction::Compare(diff.new_text.clone()));
    }
    let current = chars_of(text);
    if current.len() == part.len() && matches_at(&current, &part, 0) {
        assert(text@.subrange(0, text@.len() as int) == text@);
        return Ok(Transaction::Compare(diff.new_text.clone()));
    }
    proof {
        if old@ == text@ {
            assert(text@.subrange(0, text@.len() as int) == text@);
            assert(occurs_at(current@, part@, 0));
        }
        assert(!diff@.is_whole_file(text@));
    }
    match find_from(&current, &part, 0) {
        None => {
            assert(is_absent(text@, old@)) by {
                assert forall|at: int| !occurs_at(text@, old@, at) by {}
            }
            Err(ProposalError::NoMatch)
        },
        Some(from) => match find_from(&current, &part, from + 1) {
            Some(second) => {
                assert(occurs_at(text@, old@, from as int) && occurs_at(
                    text@,
                    old@,
                    second as int,
                ));
                Err(ProposalError::Ambiguous)
            },
            None => {
                assert(!occurs_twice(text@, old@)) by {
                    if occurs_twice(text@, old@) {
                        let (a, b) = choose|a: int, b: int|
                            #![trigger occurs_at(text@, old@, a), occurs_at(text@, old@, b)]
                            occurs_at(text@, old@, a) && occurs_at(text@, old@, b) && a < b;
                        assert(from <= a);
                        assert(from + 1 <= b);
                    }
                }
                let to: usize = from + part.len();
                Ok(Transaction::Replace { from, to, text: diff.new_text.clone() })
            },
        },
    }
}

/// A file that the host has opened for a proposal: its document, the view that shows it and
/// the text that the document holds.
pub struct Opened {
    pub doc: u64,
    pub view: u64,
    pub text: String,
}

/// Where a proposal goes, and what it does there. The host takes a savepoint of `doc` before
/// it applies the transaction.
pub struct Placement {
    pub doc: u64,
    pub view: u64,
    pub transaction: Transaction,
}

/// Place one diff of a proposal, once the host has opened its file or could not.
pub fn apply_proposal(opened: Result<Opened, String>, diff: &Diff) -> (result: Result<
    Placement,
    String,
>)
    ensures
        match opened {
            Ok(file) => match result {
                Ok(placement) => {
                    &&& placement.doc == file.doc
                    &&& placement.view == file.view
                    &&& is_placement(file.text@, diff@, placement.transaction@)
                    &&& placement.transaction matches Transaction::Compare(whole) ==> whole@
                        == diff.new_text@ && (diff.old_text matches Some(old) ==> old@.len() == 0
                        || old@ == file.text@)
                    &&& placement.transaction matches Transaction::Replace {
                        from,
                        to,
                        text: insert,
                    } ==> (diff.old_text matches Some(old) && from <= to <= file.text@.len()
                        && file.text@.subrange(from as int, to as int) == old@ && insert@
                        == diff.new_text@)
                },
                Err(message) => {
                    ||| {
                        &&& !diff@.is_whole_file(file.text@)
                        &&& is_absent(file.text@, diff@.old_text->0)
                        &&& message@ == proposal_error_message(ProposalError::NoMatch)
                    }
                    ||| {
                        &&& !diff@.is_whole_file(file.text@)
                        &&& occurs_twice(file.text@, diff@.old_text->0)
                        &&& message@ == proposal_error_message(ProposalError::Ambiguous)
                    }
                },
            },
            Err(error) => result matches Err(message) && message@ == "could not open "@
                + diff@.display + ": "@ + error@,
        },
{
    match opened {
        Ok(file) => match proposal_transaction(file.text.as_str(), diff) {
            Ok(transaction) => Ok(Placement { doc: file.doc, view: file.view, transaction }),
            Err(error) => Err(error.message()),
        },
        Err(error) => {
            let mut message = enclose("could not open ", diff.path.display.as_str(), ": ");
            message.append(error.as_str());
            Err(message)
        },
    }
}

/// The edit that a placement became, and what to select of it, once the host has applied its
/// transaction. The host took `savepoint` before that; `changes` is what the transaction did to
/// the text, which had `len` characters before and has `last` now.
pub fn applied_proposal(
    placement: &Placement,
    savepoint: u64,
    len: usize,
    changes: Vec<Change>,
    last: usize,
) -> (result: (AppliedEdit, Option<(usize, usize)>))
    ensures
        result.0 == (AppliedEdit { doc: placement.doc, view: placement.view, savepoint }),
        match result.1 {
            Some((from, to)) => {
                &&& selected(views(changes@), len as int, last as int) == Some(
                    (from as int, to as int),
                )
                &&& from <= to <= last
            },
            None => selected(views(changes@), len as int, last as int) is None,
        },
        ordered(views(changes@), len as int) && len + shift(views(changes@)) == last ==> selected(
            views(changes@),
            len as int,
            last as int,
        ) == span(views(changes@)),
{
    let edit = AppliedEdit { doc: placement.doc, view: placement.view, savepoint };
    (edit, shown_span(len, changes, last))
}

/// For one buffer and one diff there is at most one placement.
pub proof fn law_placement_is_unique(
    text: Seq<char>,
    diff: DiffView,
    one: TransactionView,
    other: TransactionView,
)
    requires
        is_placement(text, diff, one),
        is_placement(text, diff, other),
    ensures
        one == other,
{
    if !diff.is_whole_file(text) {
        let old = diff.old_text->0;
        assert(occurs_at(text, old, one->from) && occurs_at(text, old, other->from));
    }
}

/// A proposal that is placed fits its buffer. A whole-file proposal leaves exactly its new
/// text; a hunk replaces only its own span, so that whatever stood before it and behind it
/// survives.
pub proof fn law_a_placement_changes_what_the_diff_names(
    text: Seq<char>,
    diff: DiffView,
    transaction: TransactionView,
)
    requires
        is_placement(text, diff, transaction),
    ensures
        transaction.fits(text),
        diff.is_whole_file(text) ==> transaction.apply(text) == diff.new_text,
        !diff.is_whole_file(text) ==> {
            let from = transaction->from;
            let to = transaction->to;
            &&& text == text.take(from) + diff.old_text->0 + text.skip(to)
            &&& transaction.apply(text) == text.take(from) + diff.new_text + text.skip(to)
        },
{
    if !diff.is_whole_file(text) {
        let from = transaction->from;
        let to = transaction->to;
        assert(text == text.take(from) + text.subrange(from, to) + text.skip(to));
    }
}

/// A proposal is refused, and the buffer left alone, exactly when it names old text that is
/// not the whole buffer and that stands in the buffer nowhere, or in more than one place.
pub proof fn law_a_proposal_is_placed_or_refused(text: Seq<char>, diff: DiffView)
    ensures
        (exists|transaction: TransactionView| is_placement(text, diff, transaction)) <==> (
        diff.is_whole_file(text) || (!is_absent(text, diff.old_text->0) && !occurs_twice(
            text,
            diff.old_text->0,
        ))),
{
    if diff.is_whole_file(text) {
        assert(is_placement(text, diff, TransactionView::Compare(diff.new_text)));
    } else if !is_absent(text, diff.old_text->0) && !occurs_twice(text, diff.old_text->0) {
        let old = diff.old_text->0;
        let from = choose|at: int| occurs_at(text, old, at);
        assert(is_placement(
            text,
            diff,
            TransactionView::Replace { from, to: from + old.len(), text: diff.new_text },
        ));
    }
}

/// What a proposal does to a buffer is decided by its old text alone. Without one, or with an
/// empty one, it stands for the whole buffer; so does one whose old text is the whole buffer.
/// Any other puts the new text where the old text stands, and the old text stands nowhere else.
pub proof fn law_a_proposal_goes_where_its_old_text_stands(
    text: Seq<char>,
    diff: DiffView,
    transaction: TransactionView,
)
    requires
        is_placement(text, diff, transaction),
    ensures
        diff.old_text is None ==> transaction == TransactionView::Compare(diff.new_text),
        diff.old_text matches Some(old) ==> {
            ||| (old.len() == 0 || old == text) && transaction == TransactionView::Compare(
                diff.new_text,
            )
            ||| {
                &&& old.len() > 0 && old != text
                &&& transaction matches TransactionView::Replace { from, to, text: insert }
                &&& 0 <= from && to == from + old.len() && to <= text.len()
                &&& text.subrange(from, to) == old
                &&& insert == diff.new_text
                &&& forall|at: int, end: int|
                    0 <= at && at != from && end == at + old.len() && end <= text.len()
                        ==> #[trigger] text.subrange(at, end) != old
            }
        },
{
    if diff.old_text is Some && !diff.is_whole_file(text) {
        let old = diff.old_text->0;
        let from = transaction->from;
        assert forall|at: int, end: int|
            0 <= at && at != from && end == at + old.len() && end
                <= text.len() implies #[trigger] text.subrange(at, end) != old by {
            if text.subrange(at, end) == old {
                assert(occurs_at(text, old, at) && occurs_at(text, old, from));
            }
        }
    }
}

/// A proposal from stale knowledge is declined rather than let clobber the buffer: where its old
/// text stands nowhere in the buffer, nothing is a placement of it, and the reason is that
/// nothing matches.
pub proof fn law_stale_text_is_refused(text: Seq<char>, diff: DiffView, old: Seq<char>)
    requires
        diff.old_text == Some(old),
        old.len() > 0,
        forall|at: int, end: int|
            0 <= at && end == at + old.len() && end <= text.len() ==> #[trigger] text.subrange(
                at,
                end,
            ) != old,
    ensures
        forall|transaction: TransactionView| !#[trigger] is_placement(text, diff, transaction),
        !diff.is_whole_file(text),
        is_absent(text, old),
        !occurs_twice(text, old),
{
    assert forall|at: int| !occurs_at(text, old, at) by {
        assert(0 <= at && at + old.len() <= text.len() ==> text.subrange(at, at + old.len())
            != old);
    }
    assert(text.subrange(0, text.len() as int) == text);
    assert forall|transaction: TransactionView| !#[trigger] is_placement(
        text,
        diff,
        transaction,
    ) by {
        if is_placement(text, diff, transaction) {
            law_a_proposal_goes_where_its_old_text_stands(text, diff, transaction);
        }
    }
}

/// A proposal whose old text stands in more than one place is refused rather than guessed at, and
/// the reason is that it is ambiguous.
pub proof fn law_ambiguous_text_is_refused(
    text: Seq<char>,
    diff: DiffView,
    old: Seq<char>,
    one: int,
    other: int,
)
    requires
        diff.old_text == Some(old),
        old.len() > 0,
        old != text,
        0 <= one < other,
        other + old.len() <= text.len(),
        text.subrange(one, one + old.len()) == old,
        text.subrange(other, other + old.len()) == old,
    ensures
        forall|transaction: TransactionView| !#[trigger] is_placement(text, diff, transaction),
        !diff.is_whole_file(text),
        occurs_twice(text, old),
        !is_absent(text, old),
{
    assert(occurs_at(text, old, one) && occurs_at(text, old, other));
}

/// A proposal whose old text stands in exactly one place is placed there, and nowhere else.
pub proof fn law_unique_text_is_placed(text: Seq<char>, diff: DiffView, old: Seq<char>, from: int)
    requires
        diff.old_text == Some(old),
        old.len() > 0,
        old != text,
        0 <= from,
        from + old.len() <= text.len(),
        text.subrange(from, from + old.len()) == old,
        forall|at: int, end: int|
            0 <= at && at != from && end == at + old.len() && end <= text.len()
                ==> #[trigger] text.subrange(at, end) != old,
    ensures
        is_placement(
            text,
            diff,
            (TransactionView::Replace { from, to: from + old.len(), text: diff.new_text }),
        ),
        !is_absent(text, old),
        !occurs_twice(text, old),
{
    assert(occurs_at(text, old, from));
    if occurs_twice(text, old) {
        let (a, b) = choose|a: int, b: int|
            #![trigger occurs_at(text, old, a), occurs_at(text, old, b)]
            occurs_at(text, old, a) && occurs_at(text, old, b) && a < b;
        let at = if a == from {
            b
        } else {
            a
        };
        assert(text.subrange(at, at + old.len()) == old);
    }
}

/// A proposal without old text, and one whose old text is what the buffer holds, make the buffer
/// hold the new text.
pub proof fn law_whole_text_is_placed(text: Seq<char>, diff: DiffView)
    requires
        diff.old_text is None || diff.old_text == Some(Seq::<char>::empty()) || diff.old_text
            == Some(text),
    ensures
        is_placement(text, diff, TransactionView::Compare(diff.new_text)),
        TransactionView::Compare(diff.new_text).apply(text) == diff.new_text,
{
}

/// Replacing a stretch of a text changes that stretch only, and bringing a text to another gives
/// that other text. An edit fits a text exactly when it has the stretch to be replaced.
pub proof fn law_a_transaction_changes_its_stretch(
    text: Seq<char>,
    from: int,
    to: int,
    insert: Seq<char>,
)
    ensures
        TransactionView::Compare(insert).fits(text),
        TransactionView::Compare(insert).apply(text) == insert,
        (TransactionView::Replace { from, to, text: insert }).fits(text) <==> 0 <= from <= to
            <= text.len(),
        0 <= from <= to <= text.len() ==> (TransactionView::Replace {
            from,
            to,
            text: insert,
        }).apply(text) == text.subrange(0, from) + insert + text.subrange(to, text.len() as int),
{
    if 0 <= from <= to <= text.len() {
        assert(text.take(from) == text.subrange(0, from));
        assert(text.skip(to) == text.subrange(to, text.len() as int));
    }
}

/// A diff and a transaction read as what they are, and so does the reason for a refusal.
pub proof fn law_a_diff_reads_as_it_is(diff: Diff, transaction: Transaction)
    ensures
        diff@.path == diff.path.key@,
        diff@.display == diff.path.display@,
        diff@.new_text == diff.new_text@,
        diff.old_text is None <==> diff@.old_text is None,
        diff.old_text matches Some(old) ==> diff@.old_text == Some(old@),
        transaction matches Transaction::Compare(text) ==> transaction@
            == TransactionView::Compare(text@),
        transaction matches Transaction::Replace { from, to, text } ==> transaction@ == (
        TransactionView::Replace { from: from as int, to: to as int, text: text@ }),
        proposal_error_message(ProposalError::NoMatch)
            == "the proposed edit does not match the buffer"@,
        proposal_error_message(ProposalError::Ambiguous)
            == "the proposed edit matches the buffer in more than one place"@,
{
}

} // verus!
