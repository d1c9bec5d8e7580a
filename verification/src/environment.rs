//! What is known of the processor: at build time in part, at run time in full.

use crate::target::{Architecture, Target, TargetView};
use crate::text::{contains_text, texts};
use vstd::prelude::*;

verus! {

/// What the build configuration says of a target.
#[derive(Clone, Copy, Debug, PartialEq, Eq, Hash, Structural)]
pub enum Satisfaction {
    /// Every required capability is present wherever the program runs.
    Guaranteed,
    /// The architecture differs, or a required capability is absent wherever
    /// the program runs.
    Excluded,
    /// Only a probe at run time can tell.
    Undecided,
}

/// The build configuration: the architecture compiled for, the capabilities
/// that the build takes as present and as absent, and whether the mitigation
/// that hardens indirect branches is active.
///
/// The architecture is `None` where it is one that no target can name. A
/// capability named in both lists counts as absent.
#[derive(Debug)]
pub struct BuildConfig {
    pub architecture: Option<Architecture>,
    pub enabled: Vec<String>,
    pub disabled: Vec<String>,
    pub hardened: bool,
}

/// What a build configuration is.
pub struct BuildConfigView {
    pub architecture: Option<Architecture>,
    pub enabled: Seq<Seq<char>>,
    pub disabled: Seq<Seq<char>>,
    pub hardened: bool,
}

impl View for BuildConfig {
    type V = BuildConfigView;

    open spec fn view(&self) -> BuildConfigView {
        BuildConfigView {
            architecture: self.architecture,
            enabled: texts(self.enabled@),
            disabled: texts(self.disabled@),
            hardened: self.hardened,
        }
    }
}

/// Whether the build rules `target` out: it is for another architecture, or
/// it requires a capability that the build takes as absent.
pub open spec fn excluded_at_build(target: TargetView, config: BuildConfigView) -> bool {
    config.architecture != Some(target.architecture) || exists|i: int|
        0 <= i < target.features.len() && config.disabled.contains(#[trigger] target.features[i])
}

/// Whether the build guarantees `target`: it is not ruled out, and the build
/// takes every capability that it requires as present.
pub open spec fn guaranteed_at_build(target: TargetView, config: BuildConfigView) -> bool {
    !excluded_at_build(target, config) && forall|i: int|
        0 <= i < target.features.len() ==> config.enabled.contains(#[trigger] target.features[i])
}

/// What `config` says of `target`.
pub open spec fn build_time(target: TargetView, config: BuildConfigView) -> Satisfaction {
    if excluded_at_build(target, config) {
        Satisfaction::Excluded
    } else if guaranteed_at_build(target, config) {
        Satisfaction::Guaranteed
    } else {
        Satisfaction::Undecided
    }
}

fn same_architecture(architecture: Option<Architecture>, target: &Target) -> (r: bool)
    ensures
        r == (architecture == Some(target@.architecture)),
{
    match architecture {
        Some(architecture) => architecture == target.architecture(),
        None => false,
    }
}

impl BuildConfig {
    /// Decides, as far as the build can, whether `target` is satisfied.
    pub fn satisfaction(&self, target: &Target) -> (r: Satisfaction)
        ensures
            r == build_time(target@, self@),
    {
        if !same_architecture(self.architecture, target) {
            return Satisfaction::Excluded;
        }
        let features = target.features();
        let ghost names = target@.features;
        let mut i: usize = 0;
        while i < features.len()
            invariant
                i <= features.len(),
                names == texts(features@),
                names == target@.features,
                forall|j: int| 0 <= j < i ==> !self@.disabled.contains(#[trigger] names[j]),
            decreases features.len() - i,
        {
            if contains_text(&self.disabled, features[i].as_str()) {
                assert(self@.disabled.contains(names[i as int]));
                return Satisfaction::Excluded;
            }
            i += 1;
        }
        let mut k: usize = 0;
        while k < features.len()
            invariant
                k <= features.len(),
                names == texts(features@),
                names == target@.features,
                self@.architecture == Some(target@.architecture),
                forall|j: int| 0 <= j < names.len() ==> !self@.disabled.contains(#[trigger] names[j]),
                forall|j: int| 0 <= j < k ==> self@.enabled.contains(#[trigger] names[j]),
            decreases features.len() - k,
        {
            if !contains_text(&self.enabled, features[k].as_str()) {
                assert(!self@.enabled.contains(names[k as int]));
                return Satisfaction::Undecided;
            }
            k += 1;
        }
        Satisfaction::Guaranteed
    }
}

/// The processor that the program runs on: its architecture, which is `None`
/// where it is one that no target can name, and the capabilities that a probe
/// finds present.
#[derive(Debug)]
pub struct Machine {
    pub architecture: Option<Architecture>,
    pub capabilities: Vec<String>,
}

/// What a machine is.
pub struct MachineView {
    pub architecture: Option<Architecture>,
    pub capabilities: Seq<Seq<char>>,
}

impl View for Machine {
    type V = MachineView;

    open spec fn view(&self) -> MachineView {
        MachineView { architecture: self.architecture, capabilities: texts(self.capabilities@) }
    }
}

/// Whether `machine` satisfies `target`: it is of the target's architecture
/// and has every capability that the target requires.
pub open spec fn supports(machine: MachineView, target: TargetView) -> bool {
    machine.architecture == Some(target.architecture) && forall|i: int|
        0 <= i < target.features.len() ==> machine.capabilities.contains(
            #[trigger] target.features[i],
        )
}

impl Machine {
    /// Probes the capabilities of `target` in the order in which it names them.
    pub fn supports(&self, target: &Target) -> (r: bool)
        ensures
            r == supports(self@, target@),
    {
        if !same_architecture(self.architecture, target) {
            return false;
        }
        let features = target.features();
        let ghost names = target@.features;
        let mut i: usize = 0;
        while i < features.len()
            invariant
                i <= features.len(),
                names == texts(features@),
                names == target@.features,
                forall|j: int| 0 <= j < i ==> self@.capabilities.contains(#[trigger] names[j]),
            decreases features.len() - i,
        {
            if !contains_text(&self.capabilities, features[i].as_str()) {
                assert(!self@.capabilities.contains(names[i as int]));
                return false;
            }
            i += 1;
        }
        true
    }
}

/// Whether `machine` is one that `config` describes: it is of the
/// architecture compiled for, has what the build takes as present, and lacks
/// what the build takes as absent.
pub open spec fn describes(config: BuildConfigView, machine: MachineView) -> bool {
    &&& machine.architecture == config.architecture
    &&& forall|name: Seq<char>|
        config.enabled.contains(name) && !config.disabled.contains(name)
            ==> #[trigger] machine.capabilities.contains(name)
    &&& forall|name: Seq<char>|
        #[trigger] config.disabled.contains(name) ==> !machine.capabilities.contains(name)
}

/// What the build decides holds at run time: on a machine that the
/// configuration describes, a guaranteed target is satisfied and an excluded
/// one is not.
pub proof fn build_decisions_hold(config: BuildConfigView, machine: MachineView, target: TargetView)
    requires
        describes(config, machine),
    ensures
        build_time(target, config) is Guaranteed ==> supports(machine, target),
        build_time(target, config) is Excluded ==> !supports(machine, target),
{
    if build_time(target, config) is Guaranteed {
        assert forall|i: int| 0 <= i < target.features.len() implies machine.capabilities.contains(
            #[trigger] target.features[i],
        ) by {
            assert(config.enabled.contains(target.features[i]));
            assert(!config.disabled.contains(target.features[i]));
        }
    }
    if build_time(target, config) is Excluded && config.architecture == Some(target.architecture) {
        let i = choose|i: int|
            0 <= i < target.features.len() && config.disabled.contains(#[trigger] target.features[i]);
        assert(!machine.capabilities.contains(target.features[i]));
    }
}

} // verus!
