//! The errors that building a dispatch plan can end in.

use crate::target::ParseError;
use vstd::prelude::*;

verus! {

/// One of the options that configure a dispatch site.
#[derive(Clone, Copy, Debug, PartialEq, Eq, Hash, Structural)]
pub enum OptionKind {
    Targets,
    Attrs,
    Dispatcher,
}

/// A configuration that is well written but cannot be accepted.
#[derive(Clone, Copy, Debug, PartialEq, Eq, Hash, Structural)]
pub enum ValidationError {
    /// The function returns an opaque type, so its variants would not share
    /// one return type.
    OpaqueReturnType,
    /// An option is given that is none of `targets`, `attrs`, `dispatcher`.
    UnrecognizedOption,
    /// An option is given a second time.
    DuplicateOption(OptionKind),
    /// `targets` is given a name that is no preset.
    UnknownPreset,
    /// `dispatcher` is given a name that is no dispatch method.
    UnknownDispatcher,
    /// `targets` is not given at all.
    MissingTargets,
    /// The list of targets is empty.
    EmptyTargetList,
    /// The target at `index` of the list requires no capability.
    TargetWithoutFeatures { index: usize },
    /// Static dispatch was asked for, and whether the target declared at
    /// `index` is satisfied cannot be decided at build time.
    AmbiguousTarget { index: usize },
}

/// Why no dispatch plan was built.
#[derive(Clone, Copy, Debug, PartialEq, Eq, Hash, Structural)]
pub enum PlanError {
    /// The value of an option is not written in the form that the option takes.
    Syntax,
    /// The target at `index` of the list is malformed.
    Target { index: usize, error: ParseError },
    /// The configuration cannot be accepted.
    Validation(ValidationError),
}

/// Where an error arose.
#[derive(Clone, Copy, Debug, PartialEq, Eq, Hash, Structural)]
pub enum Origin {
    /// The return type of the function.
    ReturnType,
    /// The option at an index of the options, in the order written.
    Entry(usize),
    /// The options as a whole.
    Attribute,
}

/// An error with the place where it arose.
#[derive(Clone, Copy, Debug, PartialEq, Eq, Hash, Structural)]
pub struct Diagnostic {
    pub origin: Origin,
    pub error: PlanError,
}

impl ParseError {
    /// The text that describes the error.
    pub open spec fn text(self) -> Seq<char> {
        match self {
            ParseError::UnknownArchitecture => "unrecognized architecture"@,
            ParseError::MissingFeatures => "target must have features specified"@,
            ParseError::EmptyFeature => "empty feature name"@,
            ParseError::DuplicateFeature => "feature specified more than once"@,
        }
    }

    /// A description of the error for a diagnostic.
    pub fn message(&self) -> (r: &'static str)
        ensures
            r@ == self.text(),
    {
        match self {
            ParseError::UnknownArchitecture => "unrecognized architecture",
            ParseError::MissingFeatures => "target must have features specified",
            ParseError::EmptyFeature => "empty feature name",
            ParseError::DuplicateFeature => "feature specified more than once",
        }
    }
}

impl ValidationError {
    /// The text that describes the error.
    pub open spec fn text(self) -> Seq<char> {
        match self {
            ValidationError::OpaqueReturnType =>
                "cannot multiversion function with `impl Trait` return type"@,
            ValidationError::UnrecognizedOption => "unrecognized option"@,
            ValidationError::DuplicateOption(OptionKind::Targets) =>
                "can't specify `targets` multiple times"@,
            ValidationError::DuplicateOption(OptionKind::Attrs) =>
                "can't specify `attrs` multiple times"@,
            ValidationError::DuplicateOption(OptionKind::Dispatcher) =>
                "can't specify `dispatcher` multiple times"@,
            ValidationError::UnknownPreset => "expected a list of features or \"simd\""@,
            ValidationError::UnknownDispatcher =>
                "expected `default`, `static`, `direct`, or `indirect`"@,
            ValidationError::MissingTargets => "expected `targets`"@,
            ValidationError::EmptyTargetList => "expected at least one target"@,
            ValidationError::TargetWithoutFeatures { .. } => "target must have features specified"@,
            ValidationError::AmbiguousTarget { .. } =>
                "ambiguous target cannot be statically resolved"@,
        }
    }

    /// A description of the error for a diagnostic.
    pub fn message(&self) -> (r: &'static str)
        ensures
            r@ == self.text(),
    {
        match self {
            ValidationError::OpaqueReturnType =>
                "cannot multiversion function with `impl Trait` return type",
            ValidationError::UnrecognizedOption => "unrecognized option",
            ValidationError::DuplicateOption(OptionKind::Targets) =>
                "can't specify `targets` multiple times",
            ValidationError::DuplicateOption(OptionKind::Attrs) =>
                "can't specify `attrs` multiple times",
            ValidationError::DuplicateOption(OptionKind::Dispatcher) =>
                "can't specify `dispatcher` multiple times",
            ValidationError::UnknownPreset => "expected a list of features or \"simd\"",
            ValidationError::UnknownDispatcher =>
                "expected `default`, `static`, `direct`, or `indirect`",
            ValidationError::MissingTargets => "expected `targets`",
            ValidationError::EmptyTargetList => "expected at least one target",
            ValidationError::TargetWithoutFeatures { .. } => "target must have features specified",
            ValidationError::AmbiguousTarget { .. } =>
                "ambiguous target cannot be statically resolved",
        }
    }
}

impl PlanError {
    /// The text that describes the error.
    pub open spec fn text(self) -> Seq<char> {
        match self {
            PlanError::Syntax => "unexpected token"@,
            PlanError::Target { error, .. } => error.text(),
            PlanError::Validation(error) => error.text(),
        }
    }

    /// A description of the error for a diagnostic.
    pub fn message(&self) -> (r: &'static str)
        ensures
            r@ == self.text(),
    {
        match self {
            PlanError::Syntax => "unexpected token",
            PlanError::Target { error, .. } => error.message(),
            PlanError::Validation(error) => error.message(),
        }
    }
}

} // verus!
