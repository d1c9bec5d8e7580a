//! Target lists: the targets of one dispatch site, in declaration order.

use crate::error::ValidationError;
use crate::priority::{as_ints, prioritized, priority_indices, priority_order, specificities, views};
use crate::search::{first_where, first_where_finds_first, first_where_is, first_where_is_none};
use crate::target::{Architecture, Target, TargetView, valid_features};
use crate::text::{lifted, same_text, texts};
use vstd::prelude::*;

verus! {

/// The property of requiring no capability.
pub open spec fn lacks_features() -> spec_fn(TargetView) -> bool {
    |target: TargetView| !target.has_features_specified()
}

/// The targets that the preset `simd` stands for: common processor
/// generations, the most capable of each architecture first.
pub open spec fn simd_targets() -> Seq<TargetView> {
    seq![
        TargetView { architecture: Architecture::X86_64, features: seq!["avx2"@, "fma"@] },
        TargetView { architecture: Architecture::X86_64, features: seq!["sse4.2"@] },
        TargetView { architecture: Architecture::X86, features: seq!["avx2"@, "fma"@] },
        TargetView { architecture: Architecture::X86, features: seq!["sse4.2"@] },
        TargetView { architecture: Architecture::X86, features: seq!["sse2"@] },
        TargetView { architecture: Architecture::Aarch64, features: seq!["neon"@] },
    ]
}

fn target_of_one(architecture: Architecture, feature: &str) -> (r: Target)
    requires
        feature@.len() > 0,
    ensures
        r@ == (TargetView { architecture, features: seq![feature@] }),
{
    let mut features: Vec<String> = Vec::new();
    features.push(feature.to_owned());
    assert(texts(features@) =~= seq![feature@]);
    Target::from_valid(architecture, features)
}

fn target_of_two(architecture: Architecture, first: &str, second: &str) -> (r: Target)
    requires
        first@.len() > 0,
        second@.len() > 0,
        first@ != second@,
    ensures
        r@ == (TargetView { architecture, features: seq![first@, second@] }),
{
    let mut features: Vec<String> = Vec::new();
    features.push(first.to_owned());
    features.push(second.to_owned());
    assert(texts(features@) =~= seq![first@, second@]);
    Target::from_valid(architecture, features)
}

/// The targets of a dispatch site. A list is never empty, and each of its
/// targets requires at least one capability.
#[derive(Debug)]
pub struct TargetList {
    targets: Vec<Target>,
}

impl View for TargetList {
    type V = Seq<TargetView>;

    closed spec fn view(&self) -> Seq<TargetView> {
        views(self.targets@)
    }
}

impl TargetList {
    #[verifier::type_invariant]
    spec fn well_formed(self) -> bool {
        Self::validated(views(self.targets@)) is Ok
    }

    /// `items` as a target list, or the reason why they are none: the list is
    /// empty, or the first of its targets that requires no capability.
    pub open spec fn validated(items: Seq<TargetView>) -> Result<Seq<TargetView>, ValidationError> {
        if items.len() == 0 {
            Err(ValidationError::EmptyTargetList)
        } else {
            match first_where(items, lacks_features()) {
                Some(index) => Err(ValidationError::TargetWithoutFeatures { index: index as usize }),
                None => Ok(items),
            }
        }
    }

    /// The list that the preset `name` stands for. The one preset is `simd`.
    pub open spec fn preset(name: Seq<char>) -> Result<Seq<TargetView>, ValidationError> {
        if name == "simd"@ {
            Ok(simd_targets())
        } else {
            Err(ValidationError::UnknownPreset)
        }
    }

    /// Accepts the targets that a caller wrote, in the order written.
    pub fn from_explicit_list(items: Vec<Target>) -> (r: Result<TargetList, ValidationError>)
        ensures
            lifted(r) == Self::validated(views(items@)),
    {
        if items.len() == 0 {
            return Err(ValidationError::EmptyTargetList);
        }
        let ghost all = views(items@);
        let mut i: usize = 0;
        while i < items.len()
            invariant
                i <= items.len(),
                all == views(items@),
                forall|j: int| 0 <= j < i ==> !lacks_features()(#[trigger] all[j]),
            decreases items.len() - i,
        {
            if !items[i].has_features_specified() {
                proof {
                    assert(lacks_features()(all[i as int]));
                    first_where_is(all, lacks_features(), i as int);
                }
                return Err(ValidationError::TargetWithoutFeatures { index: i });
            }
            i += 1;
        }
        proof {
            first_where_is_none(all, lacks_features());
        }
        Ok(TargetList { targets: items })
    }

    /// Expands a preset into its list of targets.
    pub fn from_preset(name: &str) -> (r: Result<TargetList, ValidationError>)
        ensures
            lifted(r) == Self::preset(name@),
    {
        if !same_text(name, "simd") {
            return Err(ValidationError::UnknownPreset);
        }
        proof {
            reveal_strlit("avx2");
            reveal_strlit("fma");
            reveal_strlit("sse4.2");
            reveal_strlit("sse2");
            reveal_strlit("neon");
            assert("avx2"@.len() != "fma"@.len());
        }
        let mut targets: Vec<Target> = Vec::new();
        targets.push(target_of_two(Architecture::X86_64, "avx2", "fma"));
        targets.push(target_of_one(Architecture::X86_64, "sse4.2"));
        targets.push(target_of_two(Architecture::X86, "avx2", "fma"));
        targets.push(target_of_one(Architecture::X86, "sse4.2"));
        targets.push(target_of_one(Architecture::X86, "sse2"));
        targets.push(target_of_one(Architecture::Aarch64, "neon"));
        proof {
            assert(views(targets@) =~= simd_targets());
            simd_preset_is_fixed();
        }
        Ok(TargetList { targets })
    }

    /// The targets in declaration order, as values of their own.
    pub fn into_targets(self) -> (r: Vec<Target>)
        ensures
            views(r@) == self@,
    {
        self.targets
    }

    /// The number of targets.
    pub fn len(&self) -> (r: usize)
        ensures
            r == self@.len(),
            r > 0,
    {
        proof {
            use_type_invariant(self);
        }
        self.targets.len()
    }

    /// The targets in declaration order.
    pub fn targets(&self) -> (r: &Vec<Target>)
        ensures
            views(r@) == self@,
            Self::validated(self@) == Ok::<Seq<TargetView>, ValidationError>(self@),
    {
        proof {
            use_type_invariant(self);
        }
        &self.targets
    }

    /// The targets in priority order: most specific first, and equally
    /// specific ones in declaration order.
    pub fn prioritized(&self) -> (r: Vec<Target>)
        ensures
            views(r@) == prioritized(self@),
    {
        let order = priority_indices(&self.targets);
        let ghost chosen = priority_order(specificities(self@));
        let mut r: Vec<Target> = Vec::new();
        let mut i: usize = 0;
        while i < order.len()
            invariant
                i <= order.len(),
                order.len() == self.targets.len(),
                r.len() == i,
                as_ints(order@) == chosen,
                forall|j: int| 0 <= j < order.len() ==> #[trigger] order[j] < self.targets.len(),
                forall|j: int| 0 <= j < i ==> (#[trigger] r[j])@ == self.targets[chosen[j]]@,
            decreases order.len() - i,
        {
            assert(as_ints(order@)[i as int] == order[i as int] as int);
            r.push(self.targets[order[i]].clone());
            i += 1;
        }
        assert(views(r@) =~= prioritized(self@));
        r
    }
}

/// The preset is one fixed list: six targets, each a valid member of a
/// target list, so that the preset as a whole is accepted as one.
pub proof fn simd_preset_is_fixed()
    ensures
        simd_targets().len() == 6,
        forall|i: int|
            0 <= i < 6 ==> (#[trigger] simd_targets()[i]).has_features_specified() && valid_features(
                simd_targets()[i].features,
            ),
        TargetList::validated(simd_targets()) == Ok::<Seq<TargetView>, ValidationError>(
            simd_targets(),
        ),
{
    reveal_strlit("avx2");
    reveal_strlit("fma");
    reveal_strlit("sse4.2");
    reveal_strlit("sse2");
    reveal_strlit("neon");
    assert("avx2"@.len() != "fma"@.len());
    let all = simd_targets();
    assert forall|i: int| 0 <= i < 6 implies (#[trigger] all[i]).has_features_specified()
        && valid_features(all[i].features) by {
        let f = all[i].features;
        if i == 0 || i == 2 {
            assert(f =~= seq!["avx2"@, "fma"@]);
        } else if i == 1 || i == 3 {
            assert(f =~= seq!["sse4.2"@]);
        } else if i == 4 {
            assert(f =~= seq!["sse2"@]);
        } else {
            assert(f =~= seq!["neon"@]);
        }
    }
    assert forall|j: int| 0 <= j < all.len() implies !lacks_features()(#[trigger] all[j]) by {
        assert(all[j].has_features_specified());
    }
    first_where_is_none(all, lacks_features());
}

/// A list that holds a target without capabilities is rejected, whatever
/// else it holds.
pub proof fn featureless_target_is_rejected(items: Seq<TargetView>, k: int)
    requires
        0 <= k < items.len() <= usize::MAX,
        !items[k].has_features_specified(),
    ensures
        TargetList::validated(items) is Err,
        TargetList::validated(items) matches Err(ValidationError::TargetWithoutFeatures { index })
            && index <= k && !items[index as int].has_features_specified(),
{
    first_where_finds_first(items, lacks_features());
    match first_where(items, lacks_features()) {
        Some(i) => {
            if i > k {
                assert(!lacks_features()(items[k]));
            }
        },
        None => {
            assert(!lacks_features()(items[k]));
        },
    }
}

} // verus!
