//! What the panel asks of its host.

use crate::permission::Outcome;
use crate::permission::OutcomeView;
use vstd::prelude::*;

verus! {

/// One thing for the host to do. The host performs effects in the order they were given.
pub enum Effect {
    /// Show an error on the status line.
    SetError(String),
    /// Show a message on the status line.
    SetStatus(String),
    /// Ask the user for a line of input, with its history kept in `register`.
    ShowPrompt { label: String, register: char },
    /// Open a scratch buffer that holds `text`, with the cursor at its start.
    OpenScratch { text: String },
    /// Answer a permission request.
    Reply { request: u64, outcome: Outcome },
    /// Put up a bar that asks for a verdict.
    PushGate { title: String },
    /// Take down every bar that asks for a verdict.
    RemoveGates,
    /// Commit the pending changes of a document to its history, as one revision.
    Commit { doc: u64, view: u64 },
    /// Take a document back to a savepoint.
    Restore { doc: u64, view: u64, savepoint: u64 },
}

/// What an [`Effect`] asks for.
pub enum EffectView {
    SetError(Seq<char>),
    SetStatus(Seq<char>),
    ShowPrompt { label: Seq<char>, register: char },
    OpenScratch { text: Seq<char> },
    Reply { request: u64, outcome: OutcomeView },
    PushGate { title: Seq<char> },
    RemoveGates,
    Commit { doc: u64, view: u64 },
    Restore { doc: u64, view: u64, savepoint: u64 },
}

impl View for Effect {
    type V = EffectView;

    open spec fn view(&self) -> EffectView {
        match *self {
            Effect::SetError(message) => EffectView::SetError(message@),
            Effect::SetStatus(message) => EffectView::SetStatus(message@),
            Effect::ShowPrompt { label, register } => EffectView::ShowPrompt {
                label: label@,
                register,
            },
            Effect::OpenScratch { text } => EffectView::OpenScratch { text: text@ },
            Effect::Reply { request, outcome } => EffectView::Reply { request, outcome: outcome@ },
            Effect::PushGate { title } => EffectView::PushGate { title: title@ },
            Effect::RemoveGates => EffectView::RemoveGates,
            Effect::Commit { doc, view } => EffectView::Commit { doc, view },
            Effect::Restore { doc, view, savepoint } => EffectView::Restore {
                doc,
                view,
                savepoint,
            },
        }
    }
}

/// What each of the effects asks for.
pub open spec fn effect_views(effects: Seq<Effect>) -> Seq<EffectView> {
    effects.map_values(|effect: Effect| effect@)
}

/// An effect reads as what it asks for.
pub proof fn law_an_effect_reads_as_it_is(effect: Effect, effects: Seq<Effect>)
    ensures
        effect matches Effect::SetError(message) ==> effect@ == EffectView::SetError(message@),
        effect matches Effect::SetStatus(message) ==> effect@ == EffectView::SetStatus(message@),
        effect matches Effect::ShowPrompt { label, register } ==> effect@ == (
        EffectView::ShowPrompt { label: label@, register }),
        effect matches Effect::OpenScratch { text } ==> effect@ == (EffectView::OpenScratch {
            text: text@,
        }),
        effect matches Effect::Reply { request, outcome } ==> effect@ == (EffectView::Reply {
            request,
            outcome: outcome@,
        }),
        effect matches Effect::PushGate { title } ==> effect@ == (EffectView::PushGate {
            title: title@,
        }),
        effect is RemoveGates ==> effect@ == EffectView::RemoveGates,
        effect matches Effect::Commit { doc, view } ==> effect@ == (EffectView::Commit {
            doc,
            view,
        }),
        effect matches Effect::Restore { doc, view, savepoint } ==> effect@ == (
        EffectView::Restore { doc, view, savepoint }),
        effect_views(effects).len() == effects.len(),
        forall|i: int|
            0 <= i < effects.len() ==> #[trigger] effect_views(effects)[i] == effects[i]@,
{
}

} // verus!
