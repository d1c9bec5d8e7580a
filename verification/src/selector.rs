//! Selection at run time: which variant a call runs on a given machine, and
//! how a dispatch site remembers its selection.

use crate::environment::{
    build_decisions_hold, build_time, describes, supports, BuildConfigView, Machine, MachineView,
    Satisfaction,
};
use crate::method::{DispatchMethod, Strategy};
use crate::plan::{
    has_status, planned, static_plan_keeps_one_variant, statically_decidable, DispatchPlan, PlanView,
};
use crate::priority::{prioritized, priority_order, priority_order_exists, specificities, views};
use crate::search::{first_where, first_where_finds_first, first_where_is, first_where_is_none};
use crate::target::TargetView;
use vstd::prelude::*;

verus! {

/// What a call runs: the variant at an index of the plan, or the baseline.
#[derive(Clone, Copy, Debug, PartialEq, Eq, Hash, Structural)]
pub enum Selection {
    Variant(usize),
    Baseline,
}

/// What a dispatch site remembers between calls.
#[derive(Clone, Copy, Debug, PartialEq, Eq, Hash, Structural)]
pub enum SelectorState {
    /// No call has selected yet.
    Unresolved,
    /// A call has selected, and every later call runs the same.
    Resolved(Selection),
}

/// The property of being satisfied by `machine`.
pub open spec fn supported_by(machine: MachineView) -> spec_fn(TargetView) -> bool {
    |target: TargetView| supports(machine, target)
}

/// The outcome of walking `variants` in order on `machine`: the first
/// variant that the machine satisfies, else the baseline.
pub open spec fn walked(variants: Seq<TargetView>, machine: MachineView) -> Selection {
    match first_where(variants, supported_by(machine)) {
        Some(i) => Selection::Variant(i as usize),
        None => Selection::Baseline,
    }
}

/// What `plan` selects on `machine`. A static plan selects without looking
/// at the machine: its one variant if it kept one, else the baseline.
pub open spec fn selected(plan: PlanView, machine: MachineView) -> Selection {
    match plan.strategy {
        Strategy::Static => if plan.variants.len() > 0 {
            Selection::Variant(0)
        } else {
            Selection::Baseline
        },
        _ => walked(plan.variants, machine),
    }
}

/// A call at a dispatch site in the state `state`: the state that it leaves
/// and what it runs. Only an indirect plan keeps a state: its first call
/// selects and every later call runs what was selected.
pub open spec fn after_call(plan: PlanView, state: SelectorState, machine: MachineView) -> (
    SelectorState,
    Selection,
) {
    match plan.strategy {
        Strategy::Indirect => match state {
            SelectorState::Resolved(selection) => (state, selection),
            SelectorState::Unresolved => (
                SelectorState::Resolved(selected(plan, machine)),
                selected(plan, machine),
            ),
        },
        _ => (state, selected(plan, machine)),
    }
}

/// Whether `state` is one that calls on `machine` can have left: nothing, or
/// the selection that the plan makes on that machine.
pub open spec fn coherent(plan: PlanView, machine: MachineView, state: SelectorState) -> bool {
    state is Unresolved || state == SelectorState::Resolved(selected(plan, machine))
}

impl DispatchPlan {
    /// Selects the variant to run on `machine`.
    pub fn select(&self, machine: &Machine) -> (r: Selection)
        ensures
            r == selected(self@, machine@),
    {
        let variants = self.variants();
        match self.strategy() {
            Strategy::Static => if variants.len() > 0 {
                Selection::Variant(0)
            } else {
                Selection::Baseline
            },
            _ => {
                let ghost all = views(variants@);
                let ghost fits = supported_by(machine@);
                let mut i: usize = 0;
                while i < variants.len()
                    invariant
                        i <= variants.len(),
                        all == views(variants@),
                        all == self@.variants,
                        !(self@.strategy is Static),
                        fits == supported_by(machine@),
                        forall|j: int| 0 <= j < i ==> !fits(#[trigger] all[j]),
                    decreases variants.len() - i,
                {
                    if machine.supports(&variants[i]) {
                        proof {
                            assert(fits(all[i as int]));
                            first_where_is(all, fits, i as int);
                        }
                        return Selection::Variant(i);
                    }
                    assert(!fits(all[i as int]));
                    i += 1;
                }
                proof {
                    first_where_is_none(all, fits);
                }
                Selection::Baseline
            },
        }
    }

    /// Performs the selection of one call and updates what the dispatch site
    /// remembers. A resolved indirect site is not probed again.
    pub fn call(&self, state: &mut SelectorState, machine: &Machine) -> (r: Selection)
        ensures
            (*final(state), r) == after_call(self@, *old(state), machine@),
    {
        match self.strategy() {
            Strategy::Indirect => match *state {
                SelectorState::Resolved(selection) => selection,
                SelectorState::Unresolved => {
                    let selection = self.select(machine);
                    *state = SelectorState::Resolved(selection);
                    selection
                },
            },
            _ => self.select(machine),
        }
    }
}

impl SelectorState {
    /// The state as one machine word, so that it can be published and read
    /// in one step: 0 for no selection, 1 for the baseline, and the index
    /// plus 2 for a variant. An index too large for that has no word.
    pub open spec fn encoded(self) -> Option<usize> {
        match self {
            SelectorState::Unresolved => Some(0usize),
            SelectorState::Resolved(Selection::Baseline) => Some(1usize),
            SelectorState::Resolved(Selection::Variant(i)) => if i <= usize::MAX - 2 {
                Some((i + 2) as usize)
            } else {
                None
            },
        }
    }

    /// The state that a word stands for.
    pub open spec fn decoded(word: usize) -> SelectorState {
        if word == 0 {
            SelectorState::Unresolved
        } else if word == 1 {
            SelectorState::Resolved(Selection::Baseline)
        } else {
            SelectorState::Resolved(Selection::Variant((word - 2) as usize))
        }
    }

    /// Packs the state into one word.
    pub fn encode(self) -> (r: Option<usize>)
        ensures
            r == self.encoded(),
    {
        match self {
            SelectorState::Unresolved => Some(0),
            SelectorState::Resolved(Selection::Baseline) => Some(1),
            SelectorState::Resolved(Selection::Variant(i)) => i.checked_add(2),
        }
    }

    /// Unpacks a word. Every word stands for a state.
    pub fn decode(word: usize) -> (r: SelectorState)
        ensures
            r == Self::decoded(word),
    {
        if word == 0 {
            SelectorState::Unresolved
        } else if word == 1 {
            SelectorState::Resolved(Selection::Baseline)
        } else {
            SelectorState::Resolved(Selection::Variant(word - 2))
        }
    }
}

/// A word read back is the state that was packed, and every word is the
/// packing of the state that it stands for: a reader of one word sees either
/// no selection or a whole one.
pub proof fn words_and_states_correspond(state: SelectorState, word: usize)
    ensures
        state.encoded() matches Some(w) ==> SelectorState::decoded(w) == state,
        SelectorState::decoded(word).encoded() == Some(word),
{
}

/// On a machine that satisfies none of the variants, a plan that selects at
/// run time selects the baseline, on every call and from every state that
/// calls on that machine can have left.
pub proof fn unsupported_machine_gets_baseline(
    plan: PlanView,
    machine: MachineView,
    state: SelectorState,
)
    requires
        plan.strategy is Direct || plan.strategy is Indirect,
        forall|i: int| 0 <= i < plan.variants.len() ==> !supports(machine, #[trigger] plan.variants[i]),
        coherent(plan, machine, state),
    ensures
        selected(plan, machine) == Selection::Baseline,
        after_call(plan, state, machine).1 == Selection::Baseline,
{
    let fits = supported_by(machine);
    assert forall|i: int| 0 <= i < plan.variants.len() implies !fits(#[trigger] plan.variants[i]) by {
        assert(!supports(machine, plan.variants[i]));
    }
    first_where_is_none(plan.variants, fits);
}

/// Callers that race agree. Whatever two callers on one machine find at a
/// dispatch site, be it nothing or what an earlier caller left, both run the
/// same variant and both leave a state that a caller can have left; at an
/// indirect site both leave the same state, so it does not matter whose is
/// kept. A later call from the state left changes nothing.
pub proof fn callers_agree(
    plan: PlanView,
    machine: MachineView,
    first: SelectorState,
    second: SelectorState,
)
    requires
        coherent(plan, machine, first),
        coherent(plan, machine, second),
    ensures
        after_call(plan, first, machine).1 == selected(plan, machine),
        after_call(plan, second, machine).1 == after_call(plan, first, machine).1,
        coherent(plan, machine, after_call(plan, first, machine).0),
        plan.strategy is Indirect ==> after_call(plan, first, machine).0 == SelectorState::Resolved(
            selected(plan, machine),
        ) && after_call(plan, second, machine).0 == after_call(plan, first, machine).0,
        after_call(plan, after_call(plan, first, machine).0, machine) == after_call(
            plan,
            first,
            machine,
        ),
{
}

/// A static plan selects without a probe: what it selects is the same on
/// every machine, and where it kept a variant it never selects the baseline.
pub proof fn static_selection_ignores_machine(plan: PlanView, a: MachineView, b: MachineView)
    requires
        plan.strategy is Static,
    ensures
        selected(plan, a) == selected(plan, b),
        plan.variants.len() > 0 ==> selected(plan, a) == Selection::Variant(0),
{
}

/// Where the build decides every target and guarantees at least one, the
/// static plan, and so the default one, runs its one variant on every
/// machine: the baseline is never selected.
pub proof fn static_plan_never_runs_baseline(
    targets: Seq<TargetView>,
    method: DispatchMethod,
    inner_attrs: Seq<syn::Meta>,
    config: BuildConfigView,
    k: int,
    machine: MachineView,
)
    requires
        method is Static || method is Default,
        statically_decidable(targets, config),
        0 <= k < targets.len(),
        build_time(targets[k], config) is Guaranteed,
    ensures
        planned(targets, method, inner_attrs, config) matches Ok(plan) && plan.variants.len() == 1
            && selected(plan, machine) == Selection::Variant(0),
{
    static_plan_keeps_one_variant(targets, method, inner_attrs, config, k);
}

/// Static dispatch selects what a walk at run time would select. Where the
/// build decides every target, on every machine that the configuration
/// describes the first target in priority order that the build guarantees is
/// the first that the machine satisfies.
pub proof fn static_choice_matches_walk(
    targets: Seq<TargetView>,
    config: BuildConfigView,
    machine: MachineView,
)
    requires
        statically_decidable(targets, config),
        describes(config, machine),
    ensures
        first_where(prioritized(targets), has_status(config, Satisfaction::Guaranteed))
            == first_where(prioritized(targets), supported_by(machine)),
{
    let ordered = prioritized(targets);
    let guaranteed = has_status(config, Satisfaction::Guaranteed);
    let undecided = has_status(config, Satisfaction::Undecided);
    let fits = supported_by(machine);
    let weights = specificities(targets);
    priority_order_exists(weights);
    first_where_finds_first(targets, undecided);
    assert forall|j: int| 0 <= j < ordered.len() implies (guaranteed(#[trigger] ordered[j]) <==> fits(
        ordered[j],
    )) by {
        let k = priority_order(weights)[j];
        assert(ordered[j] == targets[k]);
        assert(!undecided(targets[k]));
        build_decisions_hold(config, machine, ordered[j]);
    }
    first_where_finds_first(ordered, guaranteed);
    match first_where(ordered, guaranteed) {
        Some(i) => {
            assert forall|j: int| 0 <= j < i implies !fits(#[trigger] ordered[j]) by {
                assert(!guaranteed(ordered[j]));
            }
            first_where_is(ordered, fits, i);
        },
        None => {
            assert forall|j: int| 0 <= j < ordered.len() implies !fits(#[trigger] ordered[j]) by {
                assert(!guaranteed(ordered[j]));
            }
            first_where_is_none(ordered, fits);
        },
    }
}

} // verus!
