//! Dispatch plans: which variants a dispatch site has, in which order, and
//! which strategy selects among them.

use crate::environment::{build_time, BuildConfig, BuildConfigView, Satisfaction};
use crate::error::ValidationError;
use crate::method::{DispatchMethod, Strategy};
use crate::priority::{
    every_target_is_ranked, prioritized, priority_order, priority_order_exists, specificities, views,
};
use crate::search::{first_where, first_where_finds_first, first_where_is, first_where_is_none};
use crate::target::{Target, TargetView};
use crate::target_list::TargetList;
use crate::text::lifted;
use syn::Meta;
use vstd::prelude::*;

verus! {

/// What a function declares to return, as far as dispatch is concerned.
#[derive(Clone, Copy, Debug, PartialEq, Eq, Hash, Structural)]
pub enum ReturnKind {
    /// Nothing is declared.
    Unit,
    /// One concrete type, which all variants share.
    Concrete,
    /// An opaque type, which stands for another type in each variant.
    Opaque,
}

/// The signature of the function that is multiversioned.
#[derive(Clone, Copy, Debug, PartialEq, Eq, Hash, Structural)]
pub struct FunctionSignature {
    pub returns: ReturnKind,
}

/// The property of having the status `wanted` under `config`.
pub open spec fn has_status(config: BuildConfigView, wanted: Satisfaction) -> spec_fn(
    TargetView,
) -> bool {
    |target: TargetView| build_time(target, config) == wanted
}

/// Whether the build decides every target of the list.
pub open spec fn statically_decidable(targets: Seq<TargetView>, config: BuildConfigView) -> bool {
    first_where(targets, has_status(config, Satisfaction::Undecided)) is None
}

/// The strategy that `method` comes to for `targets` under `config`.
///
/// Static dispatch needs every target decided by the build, and names the
/// first declared target that is not. The default is static dispatch where
/// that is possible; else selection on every call where indirect branches are
/// hardened, and remembered selection where they are not.
pub open spec fn resolved(
    method: DispatchMethod,
    targets: Seq<TargetView>,
    config: BuildConfigView,
) -> Result<Strategy, ValidationError> {
    match method {
        DispatchMethod::Direct => Ok(Strategy::Direct),
        DispatchMethod::Indirect => Ok(Strategy::Indirect),
        DispatchMethod::Static => match first_where(
            targets,
            has_status(config, Satisfaction::Undecided),
        ) {
            Some(index) => Err(ValidationError::AmbiguousTarget { index: index as usize }),
            None => Ok(Strategy::Static),
        },
        DispatchMethod::Default => if statically_decidable(targets, config) {
            Ok(Strategy::Static)
        } else if config.hardened {
            Ok(Strategy::Direct)
        } else {
            Ok(Strategy::Indirect)
        },
    }
}

/// What static dispatch keeps of the targets in priority order: the first
/// that the build guarantees, or nothing.
pub open spec fn survivors(ordered: Seq<TargetView>, config: BuildConfigView) -> Seq<TargetView> {
    match first_where(ordered, has_status(config, Satisfaction::Guaranteed)) {
        Some(i) => seq![ordered[i]],
        None => Seq::<TargetView>::empty(),
    }
}

/// What a dispatch plan is: the strategy, the variants in priority order, and
/// the decorations that every variant carries. The baseline is no variant: it
/// stands behind the last of them in every plan.
pub struct PlanView {
    pub strategy: Strategy,
    pub variants: Seq<TargetView>,
    pub inner_attrs: Seq<Meta>,
}

/// The plan for `targets` under `method`, or the reason why there is none.
pub open spec fn planned(
    targets: Seq<TargetView>,
    method: DispatchMethod,
    inner_attrs: Seq<Meta>,
    config: BuildConfigView,
) -> Result<PlanView, ValidationError> {
    match resolved(method, targets, config) {
        Err(error) => Err(error),
        Ok(strategy) => Ok(
            PlanView {
                strategy,
                variants: if strategy is Static {
                    survivors(prioritized(targets), config)
                } else {
                    prioritized(targets)
                },
                inner_attrs,
            },
        ),
    }
}

/// The index of the first target of `list` that has the status `wanted`.
pub fn first_with_status(list: &Vec<Target>, config: &BuildConfig, wanted: Satisfaction) -> (r:
    Option<usize>)
    ensures
        match r {
            Some(i) => i < list.len() && first_where(views(list@), has_status(config@, wanted))
                == Some(i as int),
            None => first_where(views(list@), has_status(config@, wanted)) is None,
        },
{
    let ghost all = views(list@);
    let ghost wanted_here = has_status(config@, wanted);
    let mut i: usize = 0;
    while i < list.len()
        invariant
            i <= list.len(),
            all == views(list@),
            wanted_here == has_status(config@, wanted),
            forall|j: int| 0 <= j < i ==> !wanted_here(#[trigger] all[j]),
        decreases list.len() - i,
    {
        if config.satisfaction(&list[i]) == wanted {
            proof {
                assert(wanted_here(all[i as int]));
                first_where_is(all, wanted_here, i as int);
            }
            return Some(i);
        }
        assert(!wanted_here(all[i as int]));
        i += 1;
    }
    proof {
        first_where_is_none(all, wanted_here);
    }
    None
}

/// Settles the strategy of a dispatch site.
pub fn resolve(method: DispatchMethod, targets: &TargetList, config: &BuildConfig) -> (r: Result<
    Strategy,
    ValidationError,
>)
    ensures
        r == resolved(method, targets@, config@),
{
    match method {
        DispatchMethod::Direct => Ok(Strategy::Direct),
        DispatchMethod::Indirect => Ok(Strategy::Indirect),
        DispatchMethod::Static => match first_with_status(
            targets.targets(),
            config,
            Satisfaction::Undecided,
        ) {
            Some(index) => Err(ValidationError::AmbiguousTarget { index }),
            None => Ok(Strategy::Static),
        },
        DispatchMethod::Default => match first_with_status(
            targets.targets(),
            config,
            Satisfaction::Undecided,
        ) {
            None => Ok(Strategy::Static),
            Some(_) => if config.hardened {
                Ok(Strategy::Direct)
            } else {
                Ok(Strategy::Indirect)
            },
        },
    }
}

/// The selection plan of one dispatch site.
pub struct DispatchPlan {
    strategy: Strategy,
    variants: Vec<Target>,
    inner_attrs: Vec<Meta>,
}

impl View for DispatchPlan {
    type V = PlanView;

    closed spec fn view(&self) -> PlanView {
        PlanView {
            strategy: self.strategy,
            variants: views(self.variants@),
            inner_attrs: self.inner_attrs@,
        }
    }
}

impl DispatchPlan {
    #[verifier::type_invariant]
    spec fn well_formed(self) -> bool {
        self.strategy is Static ==> self.variants.len() <= 1
    }

    /// The strategy that the plan settled on.
    pub fn strategy(&self) -> (r: Strategy)
        ensures
            r == self@.strategy,
    {
        self.strategy
    }

    /// The variants in priority order. A static plan keeps at most one.
    pub fn variants(&self) -> (r: &Vec<Target>)
        ensures
            views(r@) == self@.variants,
            self@.strategy is Static ==> r.len() <= 1,
    {
        proof {
            use_type_invariant(self);
        }
        &self.variants
    }

    /// The decorations that every variant carries, in the order written.
    pub fn inner_attrs(&self) -> (r: &Vec<Meta>)
        ensures
            r@ == self@.inner_attrs,
    {
        &self.inner_attrs
    }

    /// Whether a call can reach the baseline. It cannot where static
    /// dispatch found a variant that the build guarantees.
    pub fn baseline_is_reachable(&self) -> (r: bool)
        ensures
            r == !(self@.strategy is Static && self@.variants.len() > 0),
    {
        match self.strategy {
            Strategy::Static => self.variants.len() == 0,
            _ => true,
        }
    }
}

/// What a dispatch site is made of: its targets, the function, the
/// decorations of the variants and the dispatch method asked for.
pub struct Dispatcher {
    pub targets: TargetList,
    pub signature: FunctionSignature,
    pub inner_attrs: Vec<Meta>,
    pub dispatcher: DispatchMethod,
}

/// What a dispatcher is.
pub struct DispatcherView {
    pub targets: Seq<TargetView>,
    pub signature: FunctionSignature,
    pub inner_attrs: Seq<Meta>,
    pub dispatcher: DispatchMethod,
}

impl View for Dispatcher {
    type V = DispatcherView;

    open spec fn view(&self) -> DispatcherView {
        DispatcherView {
            targets: self.targets@,
            signature: self.signature,
            inner_attrs: self.inner_attrs@,
            dispatcher: self.dispatcher,
        }
    }
}

impl Dispatcher {
    /// The plan of a dispatcher. A function that returns an opaque type has
    /// none, whatever its targets are.
    pub open spec fn built(dispatcher: DispatcherView, config: BuildConfigView) -> Result<
        PlanView,
        ValidationError,
    > {
        if dispatcher.signature.returns is Opaque {
            Err(ValidationError::OpaqueReturnType)
        } else {
            planned(dispatcher.targets, dispatcher.dispatcher, dispatcher.inner_attrs, config)
        }
    }

    /// Builds the selection plan.
    pub fn build(self, config: &BuildConfig) -> (r: Result<DispatchPlan, ValidationError>)
        ensures
            lifted(r) == Self::built(self@, config@),
    {
        match self.signature.returns {
            ReturnKind::Opaque => { return Err(ValidationError::OpaqueReturnType); },
            _ => {},
        }
        let strategy = match resolve(self.dispatcher, &self.targets, config) {
            Err(error) => { return Err(error); },
            Ok(strategy) => strategy,
        };
        let ordered = self.targets.prioritized();
        let variants = match strategy {
            Strategy::Static => {
                let mut kept: Vec<Target> = Vec::new();
                match first_with_status(&ordered, config, Satisfaction::Guaranteed) {
                    Some(i) => {
                        kept.push(ordered[i].clone());
                        assert(views(kept@) =~= seq![views(ordered@)[i as int]]);
                    },
                    None => {
                        assert(views(kept@) =~= Seq::<TargetView>::empty());
                    },
                }
                kept
            },
            _ => ordered,
        };
        Ok(DispatchPlan { strategy, variants, inner_attrs: self.inner_attrs })
    }
}

/// Static dispatch on a list that holds a target which the build cannot
/// decide is an error, and the error names such a target.
pub proof fn static_rejects_undecided_target(
    targets: Seq<TargetView>,
    inner_attrs: Seq<Meta>,
    config: BuildConfigView,
    k: int,
)
    requires
        0 <= k < targets.len() <= usize::MAX,
        build_time(targets[k], config) is Undecided,
    ensures
        planned(targets, DispatchMethod::Static, inner_attrs, config) matches Err(
            ValidationError::AmbiguousTarget { index },
        ) && index < targets.len() && build_time(targets[index as int], config) is Undecided,
{
    let undecided = has_status(config, Satisfaction::Undecided);
    first_where_finds_first(targets, undecided);
    assert(undecided(targets[k]));
}

/// Where the build decides every target and guarantees at least one, the
/// static plan, and so the default one, keeps exactly one variant: the first in
/// priority order that the build guarantees.
pub proof fn static_plan_keeps_one_variant(
    targets: Seq<TargetView>,
    method: DispatchMethod,
    inner_attrs: Seq<Meta>,
    config: BuildConfigView,
    k: int,
)
    requires
        method is Static || method is Default,
        statically_decidable(targets, config),
        0 <= k < targets.len(),
        build_time(targets[k], config) is Guaranteed,
    ensures
        planned(targets, method, inner_attrs, config) matches Ok(plan) && plan.strategy is Static
            && plan.variants.len() == 1 && exists|i: int|
            0 <= i < targets.len() && plan.variants[0] == #[trigger] prioritized(targets)[i]
                && build_time(prioritized(targets)[i], config) is Guaranteed && forall|j: int|
                0 <= j < i ==> !(build_time(#[trigger] prioritized(targets)[j], config)
                    is Guaranteed),
{
    let guaranteed = has_status(config, Satisfaction::Guaranteed);
    let ordered = prioritized(targets);
    let weights = specificities(targets);
    priority_order_exists(weights);
    every_target_is_ranked(weights, k);
    let at = choose|i: int| 0 <= i < weights.len() && priority_order(weights)[i] == k;
    assert(ordered[at] == targets[k]);
    assert(guaranteed(ordered[at]));
    first_where_finds_first(ordered, guaranteed);
    let i = first_where(ordered, guaranteed).unwrap();
    let plan = planned(targets, method, inner_attrs, config).unwrap();
    assert(plan.variants =~= seq![ordered[i]]);
    assert(plan.variants[0] == prioritized(targets)[i]);
    assert forall|j: int| 0 <= j < i implies !(build_time(
        #[trigger] prioritized(targets)[j],
        config,
    ) is Guaranteed) by {
        assert(!guaranteed(ordered[j]));
    }
}

} // verus!
