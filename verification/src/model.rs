//! What the effects do to the buffers, as far as the panel relies on it.
//!
//! None of this runs. It is what the laws of a review are stated over: a host that performs
//! effects the way they are described here keeps them.

use crate::effect::EffectView;
use crate::files::WritePlanView;
use crate::proposal::TransactionView;
use crate::session::AppliedEdit;
use vstd::prelude::*;

verus! {

/// A document: its text, the texts that savepoints keep, and its history.
#[verifier::ext_equal]
pub struct Buffer {
    pub text: Seq<char>,
    /// What the text was when each savepoint was taken.
    pub savepoints: Map<u64, Seq<char>>,
    /// The text as of each revision that undo can go back to, the current one last.
    pub revisions: Seq<Seq<char>>,
    /// Whether there are changes that no revision holds yet.
    pub pending: bool,
}

impl Buffer {
    /// Whether the text is that of the current revision. Changes may be pending all the same,
    /// where they were taken back.
    pub open spec fn is_settled(self) -> bool {
        self.revisions.len() > 0 && self.revisions.last() == self.text
    }

    /// Whether every change is in the history.
    pub open spec fn is_committed(self) -> bool {
        !self.pending && self.is_settled()
    }

    /// The document after one undo: the text of the revision before the current one.
    pub open spec fn undone(self) -> Seq<char> {
        self.revisions[self.revisions.len() - 2]
    }

    /// The document after a transaction was applied to it. One that brings the text to what it
    /// is already changes nothing.
    pub open spec fn changed(self, transaction: TransactionView) -> Buffer {
        if transaction == TransactionView::Compare(self.text) {
            self
        } else {
            Buffer { text: transaction.apply(self.text), pending: true, ..self }
        }
    }

    /// The document after its text was kept as a savepoint.
    pub open spec fn saved(self, savepoint: u64) -> Buffer {
        Buffer { savepoints: self.savepoints.insert(savepoint, self.text), ..self }
    }

    /// The document after it was taken back to a savepoint.
    pub open spec fn restored(self, savepoint: u64) -> Buffer {
        Buffer { text: self.savepoints[savepoint], ..self }
    }

    /// The document after its pending changes became one revision.
    pub open spec fn committed(self) -> Buffer {
        if self.pending {
            Buffer { revisions: self.revisions.push(self.text), pending: false, ..self }
        } else {
            self
        }
    }
}

/// Every open document by its id, and every file on disk by its path.
#[verifier::ext_equal]
pub struct World {
    pub buffers: Map<u64, Buffer>,
    pub disk: Map<Seq<u8>, Seq<char>>,
}

impl World {
    /// The world with another buffer for `doc`.
    pub open spec fn with(self, doc: u64, buffer: Buffer) -> World {
        World { buffers: self.buffers.insert(doc, buffer), ..self }
    }

    /// The world after one effect.
    pub open spec fn perform(self, effect: EffectView) -> World {
        match effect {
            EffectView::Restore { doc, view, savepoint } => self.with(
                doc,
                self.buffers[doc].restored(savepoint),
            ),
            EffectView::Commit { doc, view } => self.with(doc, self.buffers[doc].committed()),
            _ => self,
        }
    }

    /// The world after the effects, one after the other.
    pub open spec fn perform_all(self, effects: Seq<EffectView>) -> World
        decreases effects.len(),
    {
        if effects.len() == 0 {
            self
        } else {
            self.perform_all(effects.drop_last()).perform(effects.last())
        }
    }

    /// The world after one edit of a proposal was applied: its savepoint is taken first.
    pub open spec fn propose(self, step: Step) -> World {
        let doc = step.edit.doc;
        self.with(doc, self.buffers[doc].saved(step.edit.savepoint).changed(step.transaction))
    }

    /// The world after the edits of a proposal were applied, one after the other.
    pub open spec fn propose_all(self, steps: Seq<Step>) -> World
        decreases steps.len(),
    {
        if steps.len() == 0 {
            self
        } else {
            self.propose_all(steps.drop_last()).propose(steps.last())
        }
    }

    /// The world after a write was carried out.
    pub open spec fn write(self, path: Seq<u8>, plan: WritePlanView) -> World {
        match plan {
            WritePlanView::Buffer { doc, view, transaction } => self.with(
                doc,
                self.buffers[doc].changed(transaction),
            ),
            WritePlanView::Disk { content, create_parent } => World {
                disk: self.disk.insert(path, content),
                ..self
            },
        }
    }
}

/// One edit of a proposal as it was applied.
pub struct Step {
    pub edit: AppliedEdit,
    pub transaction: TransactionView,
}

/// The edits of the steps.
pub open spec fn edits_of(steps: Seq<Step>) -> Seq<AppliedEdit> {
    steps.map_values(|step: Step| step.edit)
}

/// Whether `doc` is one of those that the steps change.
pub open spec fn touches(steps: Seq<Step>, doc: u64) -> bool {
    exists|i: int| 0 <= i < steps.len() && (#[trigger] steps[i]).edit.doc == doc
}

/// Whether no two steps share a savepoint.
pub open spec fn savepoints_differ(steps: Seq<Step>) -> bool {
    forall|i: int, j: int|
        0 <= i < j < steps.len() ==> (#[trigger] steps[i]).edit.savepoint != (
        #[trigger] steps[j]).edit.savepoint
}

/// Whether every savepoint of the steps keeps in `later` what it keeps in `world`, whatever
/// else happened in between.
pub open spec fn keeps_savepoints(world: World, later: World, steps: Seq<Step>) -> bool {
    forall|i: int|
        0 <= i < steps.len() ==> {
            let edit = (#[trigger] steps[i]).edit;
            later.buffers[edit.doc].savepoints[edit.savepoint]
                == world.buffers[edit.doc].savepoints[edit.savepoint]
        }
}

/// Performing two lists of effects is performing them as one.
pub proof fn lemma_perform_concat(world: World, first: Seq<EffectView>, second: Seq<EffectView>)
    ensures
        world.perform_all(first + second) == world.perform_all(first).perform_all(second),
    decreases second.len(),
{
    if second.len() == 0 {
        assert(first + second == first);
    } else {
        assert((first + second).drop_last() == first + second.drop_last());
        lemma_perform_concat(world, first, second.drop_last());
    }
}

/// Performing one effect is performing the list of it.
pub proof fn lemma_perform_one(world: World, effect: EffectView)
    ensures
        world.perform_all(seq![effect]) == world.perform(effect),
{
    assert(seq![effect].drop_last() == Seq::<EffectView>::empty());
    assert(world.perform_all(Seq::<EffectView>::empty()) == world);
}

/// Proposing changes no document but those that it touches.
pub proof fn lemma_propose_elsewhere(world: World, steps: Seq<Step>, doc: u64)
    requires
        !touches(steps, doc),
    ensures
        world.propose_all(steps).buffers[doc] == world.buffers[doc],
    decreases steps.len(),
{
    if steps.len() > 0 {
        let front = steps.drop_last();
        assert(steps.last().edit.doc != doc);
        assert(!touches(front, doc)) by {
            if touches(front, doc) {
                let i = choose|i: int|
                    0 <= i < front.len() && (#[trigger] front[i]).edit.doc == doc;
                assert(steps[i].edit.doc == doc);
            }
        }
        lemma_propose_elsewhere(world, front, doc);
    }
}

} // verus!
