//! Targets: an architecture and the capabilities that a variant requires.

use crate::text::{clone_texts, lifted, same_text, same_texts, split, split_text, texts};
use vstd::prelude::*;

verus! {

/// A processor architecture that a target can name.
#[derive(Clone, Copy, Debug, PartialEq, Eq, Hash, Structural)]
pub enum Architecture {
    X86,
    X86_64,
    Arm,
    Aarch64,
    Mips,
    Mips64,
    PowerPc,
    PowerPc64,
}

impl Architecture {
    /// The architecture that `name` spells, if any. Names are case-sensitive.
    pub open spec fn named(name: Seq<char>) -> Option<Architecture> {
        if name == "x86"@ {
            Some(Architecture::X86)
        } else if name == "x86_64"@ {
            Some(Architecture::X86_64)
        } else if name == "arm"@ {
            Some(Architecture::Arm)
        } else if name == "aarch64"@ {
            Some(Architecture::Aarch64)
        } else if name == "mips"@ {
            Some(Architecture::Mips)
        } else if name == "mips64"@ {
            Some(Architecture::Mips64)
        } else if name == "powerpc"@ {
            Some(Architecture::PowerPc)
        } else if name == "powerpc64"@ {
            Some(Architecture::PowerPc64)
        } else {
            None
        }
    }

    /// Looks an architecture up by its name.
    pub fn from_name(name: &str) -> (r: Option<Architecture>)
        ensures
            r == Self::named(name@),
    {
        if same_text(name, "x86") {
            Some(Architecture::X86)
        } else if same_text(name, "x86_64") {
            Some(Architecture::X86_64)
        } else if same_text(name, "arm") {
            Some(Architecture::Arm)
        } else if same_text(name, "aarch64") {
            Some(Architecture::Aarch64)
        } else if same_text(name, "mips") {
            Some(Architecture::Mips)
        } else if same_text(name, "mips64") {
            Some(Architecture::Mips64)
        } else if same_text(name, "powerpc") {
            Some(Architecture::PowerPc)
        } else if same_text(name, "powerpc64") {
            Some(Architecture::PowerPc64)
        } else {
            None
        }
    }

    /// The name under which `from_name` finds this architecture.
    pub fn name(self) -> (r: &'static str)
        ensures
            Self::named(r@) == Some(self),
    {
        proof {
            reveal_strlit("x86");
            reveal_strlit("x86_64");
            reveal_strlit("arm");
            reveal_strlit("aarch64");
            reveal_strlit("mips");
            reveal_strlit("mips64");
            reveal_strlit("powerpc");
            reveal_strlit("powerpc64");
        }
        match self {
            Architecture::X86 => "x86",
            Architecture::X86_64 => {
                assert("x86_64"@.len() != "x86"@.len());
                "x86_64"
            },
            Architecture::Arm => {
                assert("arm"@[0] != "x86"@[0]);
                assert("arm"@.len() != "x86_64"@.len());
                "arm"
            },
            Architecture::Aarch64 => {
                assert("aarch64"@.len() == 7);
                "aarch64"
            },
            Architecture::Mips => {
                assert("mips"@.len() == 4);
                "mips"
            },
            Architecture::Mips64 => {
                assert("mips64"@.len() == 6);
                assert("mips64"@[0] != "x86_64"@[0]);
                "mips64"
            },
            Architecture::PowerPc => {
                assert("powerpc"@.len() == 7);
                assert("powerpc"@[0] != "aarch64"@[0]);
                "powerpc"
            },
            Architecture::PowerPc64 => {
                assert("powerpc64"@.len() == 9);
                "powerpc64"
            },
        }
    }
}

/// Why a target could not be read or built.
#[derive(Clone, Copy, Debug, PartialEq, Eq, Hash, Structural)]
pub enum ParseError {
    /// The text before the first `+` names no known architecture.
    UnknownArchitecture,
    /// No capability follows the architecture.
    MissingFeatures,
    /// A capability name is empty.
    EmptyFeature,
    /// A capability is named twice.
    DuplicateFeature,
}

/// What a target is: its architecture and its required capabilities, in the
/// order in which they were written.
pub struct TargetView {
    pub architecture: Architecture,
    pub features: Seq<Seq<char>>,
}

impl TargetView {
    /// The priority weight of the target: how many capabilities it requires.
    pub open spec fn specificity(self) -> nat {
        self.features.len()
    }

    /// Whether the target requires at least one capability.
    pub open spec fn has_features_specified(self) -> bool {
        self.features.len() > 0
    }
}

/// Whether `features` can be the capability list of a target: no name is
/// empty and none occurs twice.
pub open spec fn valid_features(features: Seq<Seq<char>>) -> bool {
    &&& forall|i: int| 0 <= i < features.len() ==> (#[trigger] features[i]).len() > 0
    &&& features.no_duplicates()
}

/// A capability requirement: an architecture and the capabilities that a
/// variant needs on it.
#[derive(Debug)]
pub struct Target {
    architecture: Architecture,
    features: Vec<String>,
}

impl View for Target {
    type V = TargetView;

    closed spec fn view(&self) -> TargetView {
        TargetView { architecture: self.architecture, features: texts(self.features@) }
    }
}

impl Target {
    #[verifier::type_invariant]
    spec fn well_formed(self) -> bool {
        valid_features(texts(self.features@))
    }

    /// The target made of `architecture` and `features`, or the reason why
    /// there is none. An empty name is reported before a repeated one.
    pub open spec fn checked(architecture: Architecture, features: Seq<Seq<char>>) -> Result<
        TargetView,
        ParseError,
    > {
        if exists|i: int| 0 <= i < features.len() && (#[trigger] features[i]).len() == 0 {
            Err(ParseError::EmptyFeature)
        } else if !features.no_duplicates() {
            Err(ParseError::DuplicateFeature)
        } else {
            Ok(TargetView { architecture, features })
        }
    }

    /// The target that `text` spells in the grammar
    /// `architecture ("+" capability)*`, or the reason why it spells none.
    pub open spec fn parsed(text: Seq<char>) -> Result<TargetView, ParseError> {
        let parts = split(text, '+');
        match Architecture::named(parts[0]) {
            None => Err(ParseError::UnknownArchitecture),
            Some(architecture) => if parts.len() == 1 {
                Err(ParseError::MissingFeatures)
            } else {
                Self::checked(architecture, parts.skip(1))
            },
        }
    }

    /// Builds a target from its parts. The list of capabilities may be empty.
    pub fn new(architecture: Architecture, features: Vec<String>) -> (r: Result<Target, ParseError>)
        ensures
            lifted(r) == Self::checked(architecture, texts(features@)),
    {
        let ghost names = texts(features@);
        let mut i: usize = 0;
        while i < features.len()
            invariant
                i <= features.len(),
                names == texts(features@),
                forall|j: int| 0 <= j < i ==> (#[trigger] names[j]).len() > 0,
            decreases features.len() - i,
        {
            if features[i].as_str().unicode_len() == 0 {
                assert(names[i as int].len() == 0);
                return Err(ParseError::EmptyFeature);
            }
            i += 1;
        }
        let mut k: usize = 0;
        while k < features.len()
            invariant
                k <= features.len(),
                names == texts(features@),
                forall|j: int| 0 <= j < names.len() ==> (#[trigger] names[j]).len() > 0,
                forall|a: int, b: int| 0 <= a < b < k ==> names[a] != names[b],
            decreases features.len() - k,
        {
            let mut j: usize = 0;
            while j < k
                invariant
                    j <= k < features.len(),
                    names == texts(features@),
                    forall|a: int| 0 <= a < names.len() ==> (#[trigger] names[a]).len() > 0,
                    forall|a: int| 0 <= a < j ==> names[a] != names[k as int],
                decreases k - j,
            {
                if same_text(features[j].as_str(), features[k].as_str()) {
                    assert(names[j as int] == names[k as int]);
                    return Err(ParseError::DuplicateFeature);
                }
                j += 1;
            }
            k += 1;
        }
        Ok(Target { architecture, features })
    }

    /// The target made of parts that are known to be valid.
    pub(crate) fn from_valid(architecture: Architecture, features: Vec<String>) -> (r: Target)
        requires
            valid_features(texts(features@)),
        ensures
            r@ == (TargetView { architecture, features: texts(features@) }),
    {
        Target { architecture, features }
    }

    /// Reads a target such as `x86_64+avx2+fma`.
    pub fn parse(text: &str) -> (r: Result<Target, ParseError>)
        ensures
            lifted(r) == Self::parsed(text@),
    {
        let mut parts = split_text(text, '+');
        let ghost all = texts(parts@);
        let architecture = match Architecture::from_name(parts[0].as_str()) {
            None => { return Err(ParseError::UnknownArchitecture); },
            Some(architecture) => architecture,
        };
        if parts.len() == 1 {
            return Err(ParseError::MissingFeatures);
        }
        parts.remove(0);
        assert(texts(parts@) =~= all.skip(1));
        Target::new(architecture, parts)
    }

    /// The architecture that the target names.
    pub fn architecture(&self) -> (r: Architecture)
        ensures
            r == self@.architecture,
    {
        self.architecture
    }

    /// The required capabilities, in the order in which they were written.
    pub fn features(&self) -> (r: &Vec<String>)
        ensures
            texts(r@) == self@.features,
            valid_features(self@.features),
    {
        proof {
            use_type_invariant(self);
        }
        &self.features
    }

    /// The priority weight of the target: how many capabilities it requires.
    pub fn specificity(&self) -> (r: usize)
        ensures
            r == self@.specificity(),
    {
        self.features.len()
    }

    /// Whether the target requires at least one capability. A target that
    /// requires none could not be told from the baseline.
    pub fn has_features_specified(&self) -> (r: bool)
        ensures
            r == self@.has_features_specified(),
    {
        self.features.len() > 0
    }
}

impl Clone for Target {
    fn clone(&self) -> (r: Target)
        ensures
            r@ == self@,
    {
        proof {
            use_type_invariant(self);
        }
        Target { architecture: self.architecture, features: clone_texts(&self.features) }
    }
}

impl PartialEq for Target {
    fn eq(&self, other: &Target) -> (r: bool) {
        self.architecture == other.architecture && same_texts(&self.features, &other.features)
    }
}

impl vstd::std_specs::cmp::PartialEqSpecImpl for Target {
    open spec fn obeys_eq_spec() -> bool {
        true
    }

    open spec fn eq_spec(&self, other: &Target) -> bool {
        self@ == other@
    }
}

} // verus!
