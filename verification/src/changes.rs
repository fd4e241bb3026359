//! The changes an edit makes to a text, and the span they touch.

use vstd::prelude::*;
use vstd::string::*;

verus! {

/// The characters from `from` up to `to` give way to `insert`.
pub struct Change {
    pub from: usize,
    pub to: usize,
    pub insert: Option<String>,
}

/// What a [`Change`] does: no inserted text is the empty text.
pub struct ChangeView {
    pub from: int,
    pub to: int,
    pub insert: Seq<char>,
}

impl View for Change {
    type V = ChangeView;

    open spec fn view(&self) -> ChangeView {
        ChangeView {
            from: self.from as int,
            to: self.to as int,
            insert: match self.insert {
                Some(text) => text@,
                None => Seq::empty(),
            },
        }
    }
}

/// What the changes in a list do, one after the other.
pub open spec fn views(changes: Seq<Change>) -> Seq<ChangeView> {
    changes.map_values(|change: Change| change@)
}

impl ChangeView {
    /// Whether the change takes something out or puts something in.
    pub open spec fn does_something(self) -> bool {
        self.from < self.to || self.insert.len() > 0
    }
}

/// Whether the changes lie within a text of `len` characters, in order and apart, and each of
/// them does something.
pub open spec fn ordered(changes: Seq<ChangeView>, len: int) -> bool {
    &&& forall|i: int|
        0 <= i < changes.len() ==> 0 <= (#[trigger] changes[i]).from <= changes[i].to <= len
            && changes[i].does_something()
    &&& forall|i: int, j: int|
        0 <= i < j < changes.len() ==> (#[trigger] changes[i]).to <= (#[trigger] changes[j]).from
}

/// By how much the changes lengthen a text.
pub open spec fn shift(changes: Seq<ChangeView>) -> int
    decreases changes.len(),
{
    if changes.len() == 0 {
        0
    } else {
        let last = changes.last();
        shift(changes.drop_last()) + last.insert.len() - (last.to - last.from)
    }
}

/// The text that the changes make of `text`.
pub open spec fn applied(text: Seq<char>, changes: Seq<ChangeView>) -> Seq<char>
    decreases changes.len(),
{
    if changes.len() == 0 {
        text
    } else {
        let last = changes.last();
        applied(text.take(last.from), changes.drop_last()) + last.insert + text.skip(last.to)
    }
}

/// Where the text that change `i` inserts starts in the new text.
pub open spec fn start_of(changes: Seq<ChangeView>, i: int) -> int {
    changes[i].from + shift(changes.take(i))
}

/// Where the text that change `i` inserts ends in the new text.
pub open spec fn end_of(changes: Seq<ChangeView>, i: int) -> int {
    start_of(changes, i) + changes[i].insert.len()
}

/// The span from the first change to the last, in coordinates of the new text.
pub open spec fn span(changes: Seq<ChangeView>) -> Option<(int, int)> {
    if changes.len() == 0 {
        None
    } else {
        Some((start_of(changes, 0), end_of(changes, changes.len() - 1)))
    }
}

/// An edit as the list of changes it makes to a text of a given length.
pub struct ChangeSet {
    changes: Vec<Change>,
    len: usize,
    len_after: usize,
}

impl ChangeSet {
    /// What the changes do, in order.
    pub closed spec fn changes(&self) -> Seq<ChangeView> {
        views(self.changes@)
    }

    /// How many characters the text has before the edit.
    pub closed spec fn len(&self) -> int {
        self.len as int
    }

    #[verifier::type_invariant]
    spec fn wf(&self) -> bool {
        &&& ordered(views(self.changes@), self.len as int)
        &&& self.len_after == self.len + shift(views(self.changes@))
    }

    /// The edit that `changes` make to a text of `len` characters: none if they are not in
    /// order within it, if one of them does nothing, or if the new text would be too long.
    pub fn new(len: usize, changes: Vec<Change>) -> (result: Option<ChangeSet>)
        ensures
            result is Some <==> is_edit(views(changes@), len as int),
            result matches Some(set) ==> set.changes() == views(changes@) && set.len() == len,
    {
        let ghost all = views(changes@);
        let mut old_end: usize = 0;
        let mut new_end: usize = 0;
        let mut i: usize = 0;
        assert(all.take(0) == Seq::<ChangeView>::empty());
        while i < changes.len()
            invariant
                i <= changes@.len() == all.len(),
                all == views(changes@),
                ordered(all.take(i as int), old_end as int),
                i > 0 ==> old_end == all[i - 1].to,
                i == 0 ==> old_end == 0,
                old_end <= len,
                new_end == old_end + shift(all.take(i as int)),
            decreases changes@.len() - i,
        {
            let from: usize = changes[i].from;
            let to: usize = changes[i].to;
            assert(all[i as int] == changes@[i as int]@);
            if from < old_end || to < from || len < to {
                return None;
            }
            let inserted: usize = match &changes[i].insert {
                Some(text) => text.as_str().unicode_len(),
                None => 0,
            };
            if from == to && inserted == 0 {
                assert(!all[i as int].does_something());
                return None;
            }
            proof {
                let upto = all.take(i + 1);
                assert(upto.drop_last() == all.take(i as int));
                assert forall|a: int, b: int| 0 <= a < b < upto.len() implies (
                #[trigger] upto[a]).to <= (#[trigger] upto[b]).from by {
                    if b == i {
                        assert(all.take(i as int)[a].to <= old_end);
                    } else {
                        assert(all.take(i as int)[a].to <= all.take(i as int)[b].from);
                    }
                }
                assert forall|a: int| 0 <= a < upto.len() implies 0 <= (#[trigger] upto[a]).from
                    <= upto[a].to <= to && upto[a].does_something() by {
                    if a < i {
                        assert(all.take(i as int)[a].to <= old_end);
                    }
                }
                if ordered(all, len as int) {
                    lemma_end_within(all, len as int, i as int);
                }
            }
            let start: usize = match new_end.checked_add(from - old_end) {
                Some(start) => start,
                None => return None,
            };
            new_end =
            match start.checked_add(inserted) {
                Some(end) => end,
                None => return None,
            };
            old_end = to;
            i += 1;
        }
        assert(all.take(all.len() as int) == all);
        match new_end.checked_add(len - old_end) {
            Some(len_after) => Some(ChangeSet { changes, len, len_after }),
            None => None,
        }
    }

    /// How many characters the text has after the edit.
    pub fn len_after(&self) -> (result: usize)
        ensures
            result == self.len() + shift(self.changes()),
    {
        proof {
            use_type_invariant(self);
        }
        self.len_after
    }
}

/// The span the change set touches, in coordinates of the *new* text, which it never outruns.
pub fn changed_span(changes: &ChangeSet) -> (result: Option<(usize, usize)>)
    ensures
        match result {
            Some((from, to)) => span(changes.changes()) == Some((from as int, to as int)) && from
                <= to <= changes.len() + shift(changes.changes()),
            None => span(changes.changes()) is None,
        },
{
    proof {
        use_type_invariant(changes);
    }
    let ghost all = changes.changes();
    let mut result: Option<(usize, usize)> = None;
    let mut old_end: usize = 0;
    let mut new_end: usize = 0;
    let mut i: usize = 0;
    assert(all.take(0) == Seq::<ChangeView>::empty());
    while i < changes.changes.len()
        invariant
            i <= changes.changes@.len() == all.len(),
            all == views(changes.changes@),
            ordered(all, changes.len as int),
            changes.len_after == changes.len + shift(all),
            i > 0 ==> old_end == all[i - 1].to,
            i == 0 ==> old_end == 0,
            new_end == old_end + shift(all.take(i as int)),
            i == 0 ==> result is None,
            i > 0 ==> (result matches Some((from, to)) && from == start_of(all, 0) && to == end_of(
                all,
                i - 1,
            ) && from <= to <= changes.len_after),
        decreases changes.changes@.len() - i,
    {
        let change = &changes.changes[i];
        let inserted: usize = match &change.insert {
            Some(text) => text.as_str().unicode_len(),
            None => 0,
        };
        proof {
            assert(all[i as int] == change@);
            assert(all.take(i + 1).drop_last() == all.take(i as int));
            lemma_end_within(all, changes.len as int, i as int);
            if i > 0 {
                assert(all[i - 1].to <= all[i as int].from);
                lemma_end_within(all, changes.len as int, i - 1);
            }
        }
        let start: usize = new_end + (change.from - old_end);
        let end: usize = start + inserted;
        result =
        match result {
            None => Some((start, end)),
            Some((lo, hi)) => Some(
                (
                    if lo < start {
                        lo
                    } else {
                        start
                    },
                    if hi > end {
                        hi
                    } else {
                        end
                    },
                ),
            ),
        };
        old_end = change.to;
        new_end = end;
        i += 1;
    }
    result
}

/// Keep a span within a text of `last` characters.
pub open spec fn clamped(span: Option<(usize, usize)>, last: usize) -> Option<(usize, usize)> {
    match span {
        Some((from, to)) => Some(
            (
                if from < last {
                    from
                } else {
                    last
                },
                if to < last {
                    to
                } else {
                    last
                },
            ),
        ),
        None => None,
    }
}

/// The selection that shows a changed span: a mapped span must never outrun the text that
/// it is selecting, which has `last` characters.
pub fn selection(span: Option<(usize, usize)>, last: usize) -> (result: Option<(usize, usize)>)
    ensures
        result == clamped(span, last),
        span is None <==> result is None,
        span matches Some((start, end)) ==> {
            &&& result matches Some((from, to))
            &&& from <= last && to <= last
            &&& from == start || (start > last && from == last)
            &&& to == end || (end > last && to == last)
        },
{
    match span {
        Some((from, to)) => Some(
            (
                if from < last {
                    from
                } else {
                    last
                },
                if to < last {
                    to
                } else {
                    last
                },
            ),
        ),
        None => None,
    }
}

/// Whether the changes make an edit to a text of `len` characters: they are in order within it,
/// and the new text is not too long.
pub open spec fn is_edit(changes: Seq<ChangeView>, len: int) -> bool {
    ordered(changes, len) && len + shift(changes) <= usize::MAX
}

/// What is selected of a text of `last` characters once `changes` were made to one of `len`: the
/// span that they touch, as far as the text reaches, or nothing where they make no edit.
pub open spec fn selected(changes: Seq<ChangeView>, len: int, last: int) -> Option<(int, int)> {
    if is_edit(changes, len) {
        match span(changes) {
            Some((from, to)) => Some(
                (
                    if from < last {
                        from
                    } else {
                        last
                    },
                    if to < last {
                        to
                    } else {
                        last
                    },
                ),
            ),
            None => None,
        }
    } else {
        None
    }
}

/// What to select of a text of `last` characters once `changes` were made to one of `len`. The
/// selection never outruns the text, and where the text is what the changes make of the one
/// before, it is exactly the span that they touch.
pub fn shown_span(len: usize, changes: Vec<Change>, last: usize) -> (result: Option<(usize, usize)>)
    ensures
        match result {
            Some((from, to)) => {
                &&& selected(views(changes@), len as int, last as int) == Some(
                    (from as int, to as int),
                )
                &&& from <= to <= last
            },
            None => selected(views(changes@), len as int, last as int) is None,
        },
        ordered(views(changes@), len as int) && len + shift(views(changes@)) == last ==> selected(
            views(changes@),
            len as int,
            last as int,
        ) == span(views(changes@)),
{
    match ChangeSet::new(len, changes) {
        Some(set) => {
            let span = changed_span(&set);
            selection(span, last)
        },
        None => None,
    }
}

/// What the changes insert lies within the new text.
proof fn lemma_end_within(changes: Seq<ChangeView>, len: int, i: int)
    requires
        ordered(changes, len),
        0 <= i < changes.len(),
    ensures
        0 <= start_of(changes, i) <= end_of(changes, i) <= len + shift(changes),
        start_of(changes, 0) <= start_of(changes, i),
        i + 1 < changes.len() ==> end_of(changes, i) <= start_of(changes, i + 1),
    decreases changes.len(),
{
    let last = changes.len() - 1;
    let front = changes.drop_last();
    assert(changes.take(last as int) == front);
    assert(changes.take(0) == Seq::<ChangeView>::empty());
    lemma_front_ordered(changes, len);
    if i < last {
        lemma_end_within(front, changes[last as int].from, i);
        assert(changes.take(i) == front.take(i));
        if i + 1 < last {
            assert(changes.take(i + 1) == front.take(i + 1));
        }
    } else if i > 0 {
        lemma_end_within(front, changes[last as int].from, i - 1);
        assert(changes.take(i - 1) == front.take(i - 1));
    }
}

/// The new text is as much longer as the changes say.
proof fn lemma_applied_len(text: Seq<char>, changes: Seq<ChangeView>)
    requires
        ordered(changes, text.len() as int),
    ensures
        applied(text, changes).len() == text.len() + shift(changes),
    decreases changes.len(),
{
    if changes.len() > 0 {
        lemma_front_ordered(changes, text.len() as int);
        lemma_applied_len(text.take(changes.last().from), changes.drop_last());
    }
}

proof fn lemma_front_ordered(changes: Seq<ChangeView>, len: int)
    requires
        ordered(changes, len),
        changes.len() > 0,
    ensures
        ordered(changes.drop_last(), changes.last().from),
        0 <= changes.last().from <= changes.last().to <= len,
{
    let front = changes.drop_last();
    let last = changes.len() - 1;
    assert forall|a: int| 0 <= a < front.len() implies 0 <= (#[trigger] front[a]).from
        <= front[a].to <= changes.last().from && front[a].does_something() by {
        assert(changes[a].to <= changes[last as int].from);
    }
    assert forall|a: int, b: int| 0 <= a < b < front.len() implies (#[trigger] front[a]).to <= (
    #[trigger] front[b]).from by {
        assert(changes[a].to <= changes[b].from);
    }
}

/// The span of an edit is never inverted and never outruns the new text.
pub proof fn law_span_never_outruns_the_new_text(text: Seq<char>, changes: Seq<ChangeView>)
    requires
        ordered(changes, text.len() as int),
    ensures
        span(changes) matches Some((from, to)) ==> 0 <= from <= to <= applied(
            text,
            changes,
        ).len(),
{
    lemma_applied_len(text, changes);
    if changes.len() > 0 {
        lemma_end_within(changes, text.len() as int, 0);
        lemma_end_within(changes, text.len() as int, changes.len() - 1);
    }
}

/// An edit without changes has no span, and leaves the text as it was. Every other edit takes
/// something out or puts something in.
pub proof fn law_unchanged_text_has_no_span(text: Seq<char>, changes: Seq<ChangeView>)
    requires
        ordered(changes, text.len() as int),
    ensures
        span(changes) is None <==> changes.len() == 0,
        span(changes) is None ==> applied(text, changes) == text,
        span(changes) is Some ==> changes[0].does_something(),
{
}

/// Every inserted text stands in the new text where the edit puts it, and the span covers it.
pub proof fn law_span_selects_the_inserted_text(
    text: Seq<char>,
    changes: Seq<ChangeView>,
    i: int,
)
    requires
        ordered(changes, text.len() as int),
        0 <= i < changes.len(),
    ensures
        span(changes) matches Some((from, to)) && from <= start_of(changes, i) && end_of(
            changes,
            i,
        ) <= to,
        applied(text, changes).subrange(start_of(changes, i), end_of(changes, i))
            == changes[i].insert,
{
    lemma_end_within(changes, text.len() as int, i);
    lemma_ends_ascend(changes, text.len() as int, i);
    lemma_insert_stands(text, changes, i);
}

proof fn lemma_ends_ascend(changes: Seq<ChangeView>, len: int, i: int)
    requires
        ordered(changes, len),
        0 <= i < changes.len(),
    ensures
        end_of(changes, i) <= end_of(changes, changes.len() - 1),
    decreases changes.len() - i,
{
    if i + 1 < changes.len() {
        lemma_end_within(changes, len, i);
        lemma_end_within(changes, len, i + 1);
        lemma_ends_ascend(changes, len, i + 1);
    }
}

proof fn lemma_insert_stands(text: Seq<char>, changes: Seq<ChangeView>, i: int)
    requires
        ordered(changes, text.len() as int),
        0 <= i < changes.len(),
    ensures
        0 <= start_of(changes, i) <= end_of(changes, i) <= applied(text, changes).len(),
        applied(text, changes).subrange(start_of(changes, i), end_of(changes, i))
            == changes[i].insert,
    decreases changes.len(),
{
    let last = changes.last();
    let front = changes.drop_last();
    let head = text.take(last.from);
    lemma_front_ordered(changes, text.len() as int);
    lemma_applied_len(text, changes);
    lemma_applied_len(head, front);
    lemma_end_within(changes, text.len() as int, i);
    let new = applied(text, changes);
    let new_head = applied(head, front);
    if i == changes.len() - 1 {
        assert(changes.take(i) == front);
        assert(new.subrange(start_of(changes, i), end_of(changes, i)) == last.insert);
    } else {
        lemma_insert_stands(head, front, i);
        assert(changes.take(i) == front.take(i));
        assert(new.subrange(start_of(changes, i), end_of(changes, i)) == new_head.subrange(
            start_of(front, i),
            end_of(front, i),
        ));
    }
}

/// Outside the span nothing changes: the new text is what stood before the first change, the
/// span, and what stood behind the last change.
pub proof fn law_nothing_changes_outside_the_span(text: Seq<char>, changes: Seq<ChangeView>)
    requires
        ordered(changes, text.len() as int),
        changes.len() > 0,
    ensures
        span(changes) matches Some((from, to)) && applied(text, changes).take(from) == text.take(
            changes[0].from,
        ) && applied(text, changes).skip(to) == text.skip(changes.last().to),
    decreases changes.len(),
{
    let last = changes.last();
    let front = changes.drop_last();
    let head = text.take(last.from);
    lemma_front_ordered(changes, text.len() as int);
    lemma_applied_len(text, changes);
    lemma_applied_len(head, front);
    let new = applied(text, changes);
    assert(changes.take(0) == Seq::<ChangeView>::empty());
    assert(changes.take(changes.len() - 1) == front);
    assert(new.skip(end_of(changes, changes.len() - 1)) == text.skip(last.to));
    if changes.len() == 1 {
        assert(new.take(last.from) == text.take(last.from));
    } else {
        law_nothing_changes_outside_the_span(head, front);
        assert(front.take(0) == Seq::<ChangeView>::empty());
        assert(changes[0].to <= last.from);
        let from = changes[0].from;
        assert(applied(head, front).take(from) == head.take(from));
        assert(head.take(from) == text.take(from));
        lemma_end_within(front, last.from, 0);
        assert(new.take(from) == applied(head, front).take(from));
    }
}

/// A list of changes is an edit exactly when each change lies within the text and takes something
/// out or puts something in, none starts before an earlier one ends, and the new text is not too
/// long.
pub proof fn law_an_edit_is_a_list_in_order(changes: Seq<ChangeView>, len: int)
    ensures
        is_edit(changes, len) <==> {
            &&& forall|i: int|
                0 <= i < changes.len() ==> 0 <= (#[trigger] changes[i]).from <= changes[i].to <= len
                    && (changes[i].from < changes[i].to || changes[i].insert.len() > 0)
            &&& forall|i: int, j: int|
                0 <= i < j < changes.len() ==> (#[trigger] changes[i]).to <= (
                #[trigger] changes[j]).from
            &&& len + shift(changes) <= usize::MAX
        },
{
    if ordered(changes, len) {
        assert forall|i: int| 0 <= i < changes.len() implies changes[i].from < changes[i].to || (
        #[trigger] changes[i]).insert.len() > 0 by {
            assert(changes[i].does_something());
        }
    }
}

/// A change puts its insert in place of what it takes out, in a text whose front the changes
/// before it have been made to; and the edit makes the text as much longer as `shift` says.
pub proof fn law_changes_apply_one_by_one(
    text: Seq<char>,
    changes: Seq<ChangeView>,
    change: ChangeView,
)
    requires
        ordered(changes.push(change), text.len() as int),
    ensures
        applied(text, Seq::<ChangeView>::empty()) == text,
        applied(text, changes.push(change)) == applied(text.take(change.from), changes)
            + change.insert + text.skip(change.to),
        shift(Seq::<ChangeView>::empty()) == 0,
        shift(changes.push(change)) == shift(changes) + change.insert.len() - (change.to
            - change.from),
        applied(text, changes.push(change)).len() == text.len() + shift(changes.push(change)),
{
    assert(changes.push(change).drop_last() == changes);
    lemma_applied_len(text, changes.push(change));
}

/// The span starts with the first change and ends behind what the last one inserts: an edit that
/// goes on with one more change has its span go on to the end of that.
pub proof fn law_a_span_goes_on_with_its_changes(
    changes: Seq<ChangeView>,
    change: ChangeView,
    len: int,
)
    requires
        ordered(changes.push(change), len),
    ensures
        span(changes.push(change)) == Some(
            (
                if changes.len() == 0 {
                    change.from
                } else {
                    changes[0].from
                },
                change.from + shift(changes) + change.insert.len(),
            ),
        ),
        span(Seq::<ChangeView>::empty()) is None,
{
    let all = changes.push(change);
    assert(all.take(0) == Seq::<ChangeView>::empty());
    assert(all.take(changes.len() as int) == changes);
}

/// What is selected is the span that an edit touches, cut off where the text ends; without an
/// edit, or without changes, nothing is.
pub proof fn law_a_selection_is_the_span_cut_off(changes: Seq<ChangeView>, len: int, last: int)
    requires
        0 <= last,
    ensures
        match selected(changes, len, last) {
            Some((from, to)) => {
                &&& is_edit(changes, len)
                &&& span(changes) matches Some((start, end))
                &&& from <= to <= last
                &&& from == start || (start > last && from == last)
                &&& to == end || (end > last && to == last)
            },
            None => !is_edit(changes, len) || changes.len() == 0,
        },
        is_edit(changes, len) && len + shift(changes) == last ==> selected(changes, len, last)
            == span(changes),
{
    if is_edit(changes, len) && changes.len() > 0 {
        lemma_end_within(changes, len, 0);
        lemma_end_within(changes, len, changes.len() - 1);
    }
}

/// A change reads as what it is, and one that inserts nothing inserts the empty text.
pub proof fn law_a_change_reads_as_it_is(change: Change)
    ensures
        change@.from == change.from,
        change@.to == change.to,
        change.insert is None ==> change@.insert == Seq::<char>::empty(),
        change.insert matches Some(text) ==> change@.insert == text@,
{
}

} // verus!
