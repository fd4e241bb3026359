//! Permission options as the agent offers them, and which one answers a verdict.

use vstd::prelude::*;

verus! {

/// What an option grants or refuses.
#[derive(Clone, Copy, Debug, PartialEq, Eq, Structural)]
pub enum PermissionOptionKind {
    AllowOnce,
    AllowAlways,
    RejectOnce,
    RejectAlways,
    /// A kind that the protocol gained later.
    Other,
}

/// One way to answer a permission request.
pub struct PermissionOption {
    pub option_id: String,
    pub name: String,
    pub kind: PermissionOptionKind,
}

/// What an option says.
pub struct PermissionOptionView {
    pub option_id: Seq<char>,
    pub name: Seq<char>,
    pub kind: PermissionOptionKind,
}

impl View for PermissionOption {
    type V = PermissionOptionView;

    open spec fn view(&self) -> PermissionOptionView {
        PermissionOptionView {
            option_id: self.option_id@,
            name: self.name@,
            kind: self.kind,
        }
    }
}

impl PermissionOption {
    pub fn new(option_id: &str, name: &str, kind: PermissionOptionKind) -> (option: Self)
        ensures
            option@ == (PermissionOptionView { option_id: option_id@, name: name@, kind }),
    {
        PermissionOption { option_id: option_id.to_owned(), name: name.to_owned(), kind }
    }
}

/// What each of the options says.
pub open spec fn option_views(options: Seq<PermissionOption>) -> Seq<PermissionOptionView> {
    options.map_values(|option: PermissionOption| option@)
}

/// How a permission request is answered.
pub enum Outcome {
    Cancelled,
    /// The option of this id was selected.
    Selected(String),
}

/// How a permission request is answered, with the id as a sequence of characters.
pub enum OutcomeView {
    Cancelled,
    Selected(Seq<char>),
}

impl View for Outcome {
    type V = OutcomeView;

    open spec fn view(&self) -> OutcomeView {
        match *self {
            Outcome::Cancelled => OutcomeView::Cancelled,
            Outcome::Selected(id) => OutcomeView::Selected(id@),
        }
    }
}

/// Whether an option of this kind says what `allow` says.
pub open spec fn kind_says(kind: PermissionOptionKind, allow: bool) -> bool {
    match kind {
        PermissionOptionKind::AllowOnce | PermissionOptionKind::AllowAlways => allow,
        PermissionOptionKind::RejectOnce | PermissionOptionKind::RejectAlways => !allow,
        PermissionOptionKind::Other => false,
    }
}

/// Whether an option of this kind decides for this one time only.
pub open spec fn kind_is_once(kind: PermissionOptionKind) -> bool {
    kind == PermissionOptionKind::AllowOnce || kind == PermissionOptionKind::RejectOnce
}

/// Whether an option of this kind says `allow`, and decides once if it has to.
pub open spec fn kind_fits(kind: PermissionOptionKind, allow: bool, only_once: bool) -> bool {
    kind_says(kind, allow) && (only_once ==> kind_is_once(kind))
}

/// The first of the options whose kind fits, if one does.
pub open spec fn first_option(
    options: Seq<PermissionOptionView>,
    allow: bool,
    only_once: bool,
) -> Option<PermissionOptionView>
    decreases options.len(),
{
    if options.len() == 0 {
        None
    } else if kind_fits(options[0].kind, allow, only_once) {
        Some(options[0])
    } else {
        first_option(options.drop_first(), allow, only_once)
    }
}

/// The option that answers `allow`: the first that decides once, else the first that
/// decides for good.
pub open spec fn picked(
    options: Seq<PermissionOptionView>,
    allow: bool,
) -> Option<PermissionOptionView> {
    match first_option(options, allow, true) {
        Some(option) => Some(option),
        None => first_option(options, allow, false),
    }
}

/// The outcome that a verdict is answered with: the picked option, or `Cancelled` when the
/// agent offered none that says it.
pub open spec fn outcome_for(options: Seq<PermissionOptionView>, allow: bool) -> OutcomeView {
    match picked(options, allow) {
        Some(option) => OutcomeView::Selected(option.option_id),
        None => OutcomeView::Cancelled,
    }
}

impl PermissionOptionKind {
    fn says(&self, allow: bool) -> (result: bool)
        ensures
            result == kind_says(*self, allow),
    {
        match self {
            PermissionOptionKind::AllowOnce | PermissionOptionKind::AllowAlways => allow,
            PermissionOptionKind::RejectOnce | PermissionOptionKind::RejectAlways => !allow,
            PermissionOptionKind::Other => false,
        }
    }

    fn is_once(&self) -> (result: bool)
        ensures
            result == kind_is_once(*self),
    {
        match self {
            PermissionOptionKind::AllowOnce | PermissionOptionKind::RejectOnce => true,
            _ => false,
        }
    }
}

/// The index of the first option that says `allow`, of those that decide once if
/// `only_once`.
fn find_option(options: &Vec<PermissionOption>, allow: bool, only_once: bool) -> (result: Option<
    usize,
>)
    ensures
        match result {
            Some(i) => i < options@.len() && first_option(
                option_views(options@),
                allow,
                only_once,
            ) == Some(options@[i as int]@),
            None => first_option(option_views(options@), allow, only_once) is None,
        },
{
    let ghost all = option_views(options@);
    let mut i: usize = 0;
    assert(all.skip(0) == all);
    while i < options.len()
        invariant
            i <= options@.len() == all.len(),
            all == option_views(options@),
            first_option(all, allow, only_once) == first_option(
                all.skip(i as int),
                allow,
                only_once,
            ),
        decreases options@.len() - i,
    {
        assert(all.skip(i as int)[0] == options@[i as int]@);
        if options[i].kind.says(allow) && (!only_once || options[i].kind.is_once()) {
            return Some(i);
        }
        assert(all.skip(i as int).drop_first() == all.skip(i + 1));
        i += 1;
    }
    None
}

/// Pick an option by kind. Options are agent-supplied, so never index by position.
///
/// The "once" forms are preferred: a keypress should not silently grant standing consent.
pub fn pick_option(options: &Vec<PermissionOption>, allow: bool) -> (result: Option<String>)
    ensures
        match result {
            Some(id) => picked(option_views(options@), allow) matches Some(option) && id@
                == option.option_id,
            None => picked(option_views(options@), allow) is None,
        },
{
    match find_option(options, allow, true) {
        Some(i) => Some(options[i].option_id.clone()),
        None => match find_option(options, allow, false) {
            Some(i) => Some(options[i].option_id.clone()),
            None => None,
        },
    }
}

/// The outcome that answers the agent for a verdict.
pub fn outcome(options: &Vec<PermissionOption>, allow: bool) -> (result: Outcome)
    ensures
        result@ == outcome_for(option_views(options@), allow),
{
    match pick_option(options, allow) {
        Some(id) => Outcome::Selected(id),
        None => Outcome::Cancelled,
    }
}

proof fn lemma_first_option(options: Seq<PermissionOptionView>, allow: bool, only_once: bool)
    ensures
        match first_option(options, allow, only_once) {
            Some(option) => options.contains(option) && kind_fits(option.kind, allow, only_once),
            None => forall|i: int|
                0 <= i < options.len() ==> !kind_fits(
                    (#[trigger] options[i]).kind,
                    allow,
                    only_once,
                ),
        },
    decreases options.len(),
{
    if options.len() > 0 && !kind_fits(options[0].kind, allow, only_once) {
        let rest = options.drop_first();
        lemma_first_option(rest, allow, only_once);
        match first_option(rest, allow, only_once) {
            Some(option) => {
                let i = choose|i: int| 0 <= i < rest.len() && rest[i] == option;
                assert(options[i + 1] == option);
            },
            None => {
                assert forall|i: int| 0 <= i < options.len() implies !kind_fits(
                    (#[trigger] options[i]).kind,
                    allow,
                    only_once,
                ) by {
                    if i > 0 {
                        assert(rest[i - 1] == options[i]);
                    }
                }
            },
        }
    } else if options.len() > 0 {
        assert(options[0] == first_option(options, allow, only_once)->0);
    }
}

/// What is picked was offered and says what the verdict says; where any option that decides
/// once says it, the one picked decides once; and nothing is picked only where no option
/// says it.
pub proof fn law_picked_option_says_the_verdict(options: Seq<PermissionOptionView>, allow: bool)
    ensures
        match picked(options, allow) {
            Some(option) => {
                &&& options.contains(option)
                &&& kind_says(option.kind, allow)
                &&& (exists|i: int|
                    0 <= i < options.len() && kind_says((#[trigger] options[i]).kind, allow)
                        && kind_is_once(options[i].kind)) ==> kind_is_once(option.kind)
            },
            None => forall|i: int|
                0 <= i < options.len() ==> !kind_says((#[trigger] options[i]).kind, allow),
        },
{
    lemma_first_option(options, allow, true);
    lemma_first_option(options, allow, false);
}

/// The first option of the "once" kind that says the verdict is picked, wherever it stands; where
/// there is none, the first of the "always" kind that says it; and where there is neither, none.
/// The index is that of the option that is picked.
pub proof fn law_once_is_picked_before_always(
    options: Seq<PermissionOptionView>,
    allow: bool,
) -> (i: int)
    ensures
        ({
            let once = if allow {
                PermissionOptionKind::AllowOnce
            } else {
                PermissionOptionKind::RejectOnce
            };
            let always = if allow {
                PermissionOptionKind::AllowAlways
            } else {
                PermissionOptionKind::RejectAlways
            };
            match picked(options, allow) {
                Some(option) => {
                    &&& 0 <= i < options.len()
                    &&& options[i] == option
                    &&& option.kind == once || option.kind == always
                    &&& forall|j: int| 0 <= j < i ==> (#[trigger] options[j]).kind != option.kind
                    &&& option.kind == always ==> forall|j: int|
                        0 <= j < options.len() ==> (#[trigger] options[j]).kind != once
                },
                None => forall|j: int|
                    0 <= j < options.len() ==> (#[trigger] options[j]).kind != once
                        && options[j].kind != always,
            }
        }),
        outcome_for(options, allow) == match picked(options, allow) {
            Some(option) => OutcomeView::Selected(option.option_id),
            None => OutcomeView::Cancelled,
        },
{
    let first = lemma_first_index(options, allow, true);
    if first_option(options, allow, true) is Some {
        first
    } else {
        lemma_first_index(options, allow, false)
    }
}

/// The first option that fits stands at the index, and none before it fits.
proof fn lemma_first_index(
    options: Seq<PermissionOptionView>,
    allow: bool,
    only_once: bool,
) -> (i: int)
    ensures
        match first_option(options, allow, only_once) {
            Some(option) => {
                &&& 0 <= i < options.len()
                &&& options[i] == option
                &&& kind_fits(option.kind, allow, only_once)
                &&& forall|j: int|
                    0 <= j < i ==> !kind_fits((#[trigger] options[j]).kind, allow, only_once)
            },
            None => forall|j: int|
                0 <= j < options.len() ==> !kind_fits(
                    (#[trigger] options[j]).kind,
                    allow,
                    only_once,
                ),
        },
    decreases options.len(),
{
    if options.len() == 0 || kind_fits(options[0].kind, allow, only_once) {
        0
    } else {
        let rest = options.drop_first();
        let i = lemma_first_index(rest, allow, only_once);
        let behind = if first_option(rest, allow, only_once) is Some {
            i + 1
        } else {
            options.len() as int
        };
        assert forall|j: int| 0 <= j < behind implies !kind_fits(
            (#[trigger] options[j]).kind,
            allow,
            only_once,
        ) by {
            if j > 0 {
                assert(rest[j - 1] == options[j]);
            }
        }
        behind
    }
}

/// An option and an outcome read as what they are.
pub proof fn law_an_option_reads_as_it_is(option: PermissionOption, outcome: Outcome)
    ensures
        option@.option_id == option.option_id@,
        option@.name == option.name@,
        option@.kind == option.kind,
        outcome matches Outcome::Selected(id) ==> outcome@ == OutcomeView::Selected(id@),
        outcome is Cancelled ==> outcome@ == OutcomeView::Cancelled,
{
}

} // verus!
