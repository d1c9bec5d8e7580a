//! Dispatch methods: when and how a dispatch site selects its variant.

use crate::text::same_text;
use vstd::prelude::*;

verus! {

/// The dispatch method that a dispatch site asks for.
#[derive(Clone, Copy, Debug, PartialEq, Eq, Hash, Structural)]
pub enum DispatchMethod {
    /// The best method that the build allows.
    Default,
    /// Selection at build time, with no code for it at run time.
    Static,
    /// Selection on every call.
    Direct,
    /// Selection on the first call, remembered for the later ones.
    Indirect,
}

/// The method that a dispatch plan settles on.
#[derive(Clone, Copy, Debug, PartialEq, Eq, Hash, Structural)]
pub enum Strategy {
    Static,
    Direct,
    Indirect,
}

impl DispatchMethod {
    /// The method that `name` spells, if any. Names are case-sensitive.
    pub open spec fn named(name: Seq<char>) -> Option<DispatchMethod> {
        if name == "default"@ {
            Some(DispatchMethod::Default)
        } else if name == "static"@ {
            Some(DispatchMethod::Static)
        } else if name == "direct"@ {
            Some(DispatchMethod::Direct)
        } else if name == "indirect"@ {
            Some(DispatchMethod::Indirect)
        } else {
            None
        }
    }

    /// Looks a dispatch method up by its name.
    pub fn from_name(name: &str) -> (r: Option<DispatchMethod>)
        ensures
            r == Self::named(name@),
    {
        if same_text(name, "default") {
            Some(DispatchMethod::Default)
        } else if same_text(name, "static") {
            Some(DispatchMethod::Static)
        } else if same_text(name, "direct") {
            Some(DispatchMethod::Direct)
        } else if same_text(name, "indirect") {
            Some(DispatchMethod::Indirect)
        } else {
            None
        }
    }

    /// The name under which `from_name` finds this method.
    pub fn name(self) -> (r: &'static str)
        ensures
            Self::named(r@) == Some(self),
    {
        proof {
            reveal_strlit("default");
            reveal_strlit("static");
            reveal_strlit("direct");
            reveal_strlit("indirect");
        }
        match self {
            DispatchMethod::Default => "default",
            DispatchMethod::Static => {
                assert("static"@[0] != "default"@[0]);
                "static"
            },
            DispatchMethod::Direct => {
                assert("direct"@[1] != "default"@[1]);
                assert("direct"@[0] != "static"@[0]);
                "direct"
            },
            DispatchMethod::Indirect => {
                assert("indirect"@.len() == 8);
                "indirect"
            },
        }
    }
}

} // verus!
