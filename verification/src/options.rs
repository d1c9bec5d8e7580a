//! The options of a dispatch site: `targets`, `attrs` and `dispatcher`.
//!
//! The value of an option is tokens. What the syntax crates read in them has
//! a name and no definition here: each function that reads tokens says what
//! it does with what they read as, and beside it stands a function that takes
//! what was read as an argument, so that it can be told what was read.

use crate::environment::{BuildConfig, BuildConfigView};
use crate::error::{Diagnostic, OptionKind, Origin, PlanError, ValidationError};
use crate::method::DispatchMethod;
use crate::plan::{DispatchPlan, Dispatcher, DispatcherView, FunctionSignature, PlanView, ReturnKind};
use crate::priority::views;
use crate::syntax::{
    comma_in, literal_in, literal_value, metas_in, read_comma, read_literal, read_meta_list, trees_in,
    trees_of, value_of,
};
use crate::target::{Target, TargetView};
use crate::target_list::TargetList;
use crate::text::{lifted, same_text};
use proc_macro2::{TokenStream, TokenTree};
use syn::Meta;
use vstd::prelude::*;

verus! {

/// The form in which an option is given its value.
#[derive(Clone, Copy, Debug, PartialEq, Eq, Hash, Structural)]
pub enum Form {
    /// `name(tokens)`.
    Parenthesized,
    /// `name = tokens`.
    Assigned,
    /// `name` alone.
    Bare,
}

/// The value that an option is given.
#[derive(Debug)]
pub enum OptionValue {
    /// `name(tokens)`: the tokens between the parentheses.
    Parenthesized(TokenStream),
    /// `name = tokens`: the tokens behind the equals sign.
    Assigned(TokenStream),
    /// `name` alone.
    Bare,
}

impl OptionValue {
    /// The form of the value.
    pub open spec fn shape(&self) -> Form {
        match self {
            OptionValue::Parenthesized(_) => Form::Parenthesized,
            OptionValue::Assigned(_) => Form::Assigned,
            OptionValue::Bare => Form::Bare,
        }
    }

    /// The form of the value.
    pub fn form(&self) -> (r: Form)
        ensures
            r == self.shape(),
    {
        match self {
            OptionValue::Parenthesized(_) => Form::Parenthesized,
            OptionValue::Assigned(_) => Form::Assigned,
            OptionValue::Bare => Form::Bare,
        }
    }
}

/// One option as it was written: its name and its value.
#[derive(Debug)]
pub struct OptionEntry {
    pub name: String,
    pub value: OptionValue,
}

/// What an option entry is: its name and its value, tokens included.
pub struct OptionEntryView {
    pub name: Seq<char>,
    pub value: OptionValue,
}

impl View for OptionEntry {
    type V = OptionEntryView;

    open spec fn view(&self) -> OptionEntryView {
        OptionEntryView { name: self.name@, value: self.value }
    }
}

/// The views of a sequence of option entries.
pub open spec fn entry_views(entries: Seq<OptionEntry>) -> Seq<OptionEntryView> {
    Seq::new(entries.len(), |i: int| entries[i]@)
}

/// What was read in one token of a value.
#[derive(Debug)]
pub enum Piece {
    /// A string literal, with its value.
    Literal(String),
    /// A comma.
    Comma,
    /// Anything else.
    Other,
}

/// What a piece is.
pub enum PieceView {
    Literal(Seq<char>),
    Comma,
    Other,
}

impl View for Piece {
    type V = PieceView;

    open spec fn view(&self) -> PieceView {
        match self {
            Piece::Literal(text) => PieceView::Literal(text@),
            Piece::Comma => PieceView::Comma,
            Piece::Other => PieceView::Other,
        }
    }
}

/// The views of a sequence of pieces.
pub open spec fn piece_views(pieces: Seq<Piece>) -> Seq<PieceView> {
    Seq::new(pieces.len(), |i: int| pieces[i]@)
}

/// What was read in the value of one option: its tokens one by one, and, for
/// decorations, the attribute arguments that they list if they list any.
pub struct Reading {
    pub pieces: Seq<PieceView>,
    pub items: Option<Seq<Meta>>,
}

/// What one token reads as: a comma, else a string literal with its value,
/// else something other.
pub open spec fn piece_in(tree: TokenTree) -> PieceView {
    if comma_in(tree) {
        PieceView::Comma
    } else {
        match literal_in(tree) {
            Some(literal) => PieceView::Literal(value_of(literal)),
            None => PieceView::Other,
        }
    }
}

/// What the tokens of a stream read as, one by one.
pub open spec fn pieces_of_tokens(tokens: TokenStream) -> Seq<PieceView> {
    Seq::new(trees_in(tokens).len(), |i: int| piece_in(trees_in(tokens)[i]))
}

/// What the tokens of a value read as, one by one. A bare value has none.
pub open spec fn pieces_in(value: OptionValue) -> Seq<PieceView> {
    match value {
        OptionValue::Parenthesized(tokens) => pieces_of_tokens(tokens),
        OptionValue::Assigned(tokens) => pieces_of_tokens(tokens),
        OptionValue::Bare => Seq::<PieceView>::empty(),
    }
}

/// The attribute arguments that a parenthesized value lists, if it lists
/// any. A value of another form lists none.
pub open spec fn items_in(value: OptionValue) -> Option<Seq<Meta>> {
    match value {
        OptionValue::Parenthesized(tokens) => metas_in(tokens),
        _ => None,
    }
}

/// What the value of an option reads as.
pub open spec fn reading_in(value: OptionValue) -> Reading {
    Reading { pieces: pieces_in(value), items: items_in(value) }
}

/// What the values of a sequence of entries read as.
pub open spec fn readings_in(entries: Seq<OptionEntryView>) -> Seq<Reading> {
    Seq::new(entries.len(), |i: int| reading_in(entries[i].value))
}

/// The options read so far. An option that was not given is `None`.
pub struct Options {
    pub targets: Option<Vec<Target>>,
    pub inner_attrs: Option<Vec<Meta>>,
    pub dispatcher: Option<DispatchMethod>,
}

/// What the options read so far are.
pub struct OptionsView {
    pub targets: Option<Seq<TargetView>>,
    pub inner_attrs: Option<Seq<Meta>>,
    pub dispatcher: Option<DispatchMethod>,
}

/// What an optional list of targets is.
pub open spec fn optional_targets(targets: Option<Vec<Target>>) -> Option<Seq<TargetView>> {
    match targets {
        Some(list) => Some(views(list@)),
        None => None,
    }
}

/// What an optional list of attribute arguments is.
pub open spec fn optional_items(items: Option<Vec<Meta>>) -> Option<Seq<Meta>> {
    match items {
        Some(list) => Some(list@),
        None => None,
    }
}

impl View for Options {
    type V = OptionsView;

    open spec fn view(&self) -> OptionsView {
        OptionsView {
            targets: optional_targets(self.targets),
            inner_attrs: optional_items(self.inner_attrs),
            dispatcher: self.dispatcher,
        }
    }
}

/// How far a list of targets is read: the targets so far, and whether a
/// target or a comma comes next.
pub struct Scan {
    pub targets: Seq<TargetView>,
    pub expects_item: bool,
}

/// A list of targets read piece by piece, up to the first piece that fails.
///
/// The list is string literals with a comma between neighbours, and a comma
/// may end it. A literal is read as a target at once: a malformed target is
/// the error even where what follows it is no list. Any other piece out of
/// place is a syntax error.
pub open spec fn scanned(pieces: Seq<PieceView>) -> Result<Scan, PlanError>
    decreases pieces.len(),
{
    if pieces.len() == 0 {
        Ok(Scan { targets: Seq::<TargetView>::empty(), expects_item: true })
    } else {
        match scanned(pieces.drop_last()) {
            Err(error) => Err(error),
            Ok(scan) => match pieces.last() {
                PieceView::Literal(text) => if !scan.expects_item {
                    Err(PlanError::Syntax)
                } else {
                    match Target::parsed(text) {
                        Err(error) => Err(
                            PlanError::Target { index: scan.targets.len() as usize, error },
                        ),
                        Ok(target) => Ok(
                            Scan { targets: scan.targets.push(target), expects_item: false },
                        ),
                    }
                },
                PieceView::Comma => if scan.expects_item {
                    Err(PlanError::Syntax)
                } else {
                    Ok(Scan { targets: scan.targets, expects_item: true })
                },
                PieceView::Other => Err(PlanError::Syntax),
            },
        }
    }
}

/// The targets that a list of pieces spells, or the error of the first piece
/// that fails.
pub open spec fn targets_of_pieces(pieces: Seq<PieceView>) -> Result<Seq<TargetView>, PlanError> {
    match scanned(pieces) {
        Ok(scan) => Ok(scan.targets),
        Err(error) => Err(error),
    }
}

/// The value of the string literal that the pieces are, where they are one
/// string literal and nothing else.
pub open spec fn lone_literal(pieces: Seq<PieceView>) -> Option<Seq<char>> {
    if pieces.len() == 1 {
        match pieces[0] {
            PieceView::Literal(text) => Some(text),
            _ => None,
        }
    } else {
        None
    }
}

/// The targets that the value of `targets` stands for: a parenthesized list
/// of targets, or the name of a preset.
pub open spec fn targets_given(form: Form, pieces: Seq<PieceView>) -> Result<
    Seq<TargetView>,
    PlanError,
> {
    match form {
        Form::Parenthesized => targets_of_pieces(pieces),
        Form::Assigned => match lone_literal(pieces) {
            None => Err(PlanError::Syntax),
            Some(name) => match TargetList::preset(name) {
                Err(error) => Err(PlanError::Validation(error)),
                Ok(targets) => Ok(targets),
            },
        },
        Form::Bare => Err(PlanError::Syntax),
    }
}

/// The decorations that the value of `attrs` stands for: a parenthesized
/// list of attribute arguments.
pub open spec fn attrs_given(form: Form, items: Option<Seq<Meta>>) -> Result<Seq<Meta>, PlanError> {
    match form {
        Form::Parenthesized => match items {
            Some(list) => Ok(list),
            None => Err(PlanError::Syntax),
        },
        _ => Err(PlanError::Syntax),
    }
}

/// The method that a name stands for as the value of `dispatcher`.
pub open spec fn dispatcher_named(name: Seq<char>) -> Result<DispatchMethod, PlanError> {
    match DispatchMethod::named(name) {
        None => Err(PlanError::Validation(ValidationError::UnknownDispatcher)),
        Some(method) => Ok(method),
    }
}

/// The method that the value of `dispatcher` stands for: a string literal
/// that names a dispatch method.
pub open spec fn dispatcher_given(form: Form, pieces: Seq<PieceView>) -> Result<
    DispatchMethod,
    PlanError,
> {
    match form {
        Form::Assigned => match lone_literal(pieces) {
            None => Err(PlanError::Syntax),
            Some(name) => dispatcher_named(name),
        },
        _ => Err(PlanError::Syntax),
    }
}

/// The error of an option that is given a second time.
pub open spec fn duplicate(kind: OptionKind) -> PlanError {
    PlanError::Validation(ValidationError::DuplicateOption(kind))
}

/// What reading `targets` leaves and returns. Given twice it is an error;
/// any error leaves what was there.
pub open spec fn targets_read(
    form: Form,
    pieces: Seq<PieceView>,
    before: Option<Seq<TargetView>>,
) -> (Option<Seq<TargetView>>, Result<(), PlanError>) {
    if before is Some {
        (before, Err(duplicate(OptionKind::Targets)))
    } else {
        match targets_given(form, pieces) {
            Ok(targets) => (Some(targets), Ok(())),
            Err(error) => (before, Err(error)),
        }
    }
}

/// What reading `attrs` leaves and returns. Given twice it is an error that
/// leaves what was there; a value that cannot be read leaves no decorations.
pub open spec fn attrs_read(form: Form, items: Option<Seq<Meta>>, before: Option<Seq<Meta>>) -> (
    Option<Seq<Meta>>,
    Result<(), PlanError>,
) {
    if before is Some {
        (before, Err(duplicate(OptionKind::Attrs)))
    } else {
        match attrs_given(form, items) {
            Ok(list) => (Some(list), Ok(())),
            Err(error) => (Some(Seq::<Meta>::empty()), Err(error)),
        }
    }
}

/// What reading `dispatcher` leaves and returns. Given twice it is an error;
/// any error leaves what was there.
pub open spec fn dispatcher_read(
    form: Form,
    pieces: Seq<PieceView>,
    before: Option<DispatchMethod>,
) -> (Option<DispatchMethod>, Result<(), PlanError>) {
    if before is Some {
        (before, Err(duplicate(OptionKind::Dispatcher)))
    } else {
        match dispatcher_given(form, pieces) {
            Ok(method) => (Some(method), Ok(())),
            Err(error) => (before, Err(error)),
        }
    }
}

/// What reading one entry leaves and returns, where `reading` is what was
/// read in its tokens.
pub open spec fn accepted(options: OptionsView, entry: OptionEntryView, reading: Reading) -> (
    OptionsView,
    Result<(), PlanError>,
) {
    if entry.name == "targets"@ {
        let (targets, outcome) = targets_read(entry.value.shape(), reading.pieces, options.targets);
        (OptionsView { targets, ..options }, outcome)
    } else if entry.name == "attrs"@ {
        let (inner_attrs, outcome) = attrs_read(entry.value.shape(), reading.items, options.inner_attrs);
        (OptionsView { inner_attrs, ..options }, outcome)
    } else if entry.name == "dispatcher"@ {
        let (dispatcher, outcome) = dispatcher_read(entry.value.shape(), reading.pieces, options.dispatcher);
        (OptionsView { dispatcher, ..options }, outcome)
    } else {
        (options, Err(PlanError::Validation(ValidationError::UnrecognizedOption)))
    }
}

/// The options after reading the first `n` of `entries` in order, or the
/// first error with the entry that it arose at.
pub open spec fn read_first(
    start: OptionsView,
    entries: Seq<OptionEntryView>,
    readings: Seq<Reading>,
    n: nat,
) -> Result<OptionsView, Diagnostic>
    decreases n,
{
    if n == 0 {
        Ok(start)
    } else {
        match read_first(start, entries, readings, (n - 1) as nat) {
            Err(diagnostic) => Err(diagnostic),
            Ok(options) => match accepted(options, entries[n - 1], readings[n - 1]) {
                (next, Ok(_)) => Ok(next),
                (_, Err(error)) => Err(
                    Diagnostic { origin: Origin::Entry((n - 1) as usize), error },
                ),
            },
        }
    }
}

/// No option read yet.
pub open spec fn no_options() -> OptionsView {
    OptionsView { targets: None, inner_attrs: None, dispatcher: None }
}

/// A validation error as the error of the whole.
pub open spec fn as_error<T>(r: Result<T, ValidationError>) -> Result<T, PlanError> {
    match r {
        Ok(value) => Ok(value),
        Err(error) => Err(PlanError::Validation(error)),
    }
}

/// The plan that the options come to: `targets` must have been given and be
/// a valid list; no decorations and the default method stand in for options
/// that were not given.
pub open spec fn configured(
    options: OptionsView,
    signature: FunctionSignature,
    config: BuildConfigView,
) -> Result<PlanView, PlanError> {
    match options.targets {
        None => Err(PlanError::Validation(ValidationError::MissingTargets)),
        Some(targets) => match TargetList::validated(targets) {
            Err(error) => Err(PlanError::Validation(error)),
            Ok(list) => as_error(
                Dispatcher::built(
                    DispatcherView {
                        targets: list,
                        signature,
                        inner_attrs: match options.inner_attrs {
                            Some(items) => items,
                            None => Seq::<Meta>::empty(),
                        },
                        dispatcher: match options.dispatcher {
                            Some(method) => method,
                            None => DispatchMethod::Default,
                        },
                    },
                    config,
                ),
            ),
        },
    }
}

/// The error of an opaque return type.
pub open spec fn opaque_return() -> Diagnostic {
    Diagnostic {
        origin: Origin::ReturnType,
        error: PlanError::Validation(ValidationError::OpaqueReturnType),
    }
}

/// The plan for a function with the options `entries`, where `readings` is
/// what was read in the tokens of each. An opaque return type is an error
/// whatever the options are; then the options are read in order, and the
/// first error among them is the error of the whole; what is wrong with the
/// options taken together comes last.
pub open spec fn multiversioned(
    entries: Seq<OptionEntryView>,
    readings: Seq<Reading>,
    signature: FunctionSignature,
    config: BuildConfigView,
) -> Result<PlanView, Diagnostic> {
    if signature.returns is Opaque {
        Err(opaque_return())
    } else {
        match read_first(no_options(), entries, readings, entries.len()) {
            Err(diagnostic) => Err(diagnostic),
            Ok(options) => match configured(options, signature, config) {
                Ok(plan) => Ok(plan),
                Err(error) => Err(Diagnostic { origin: Origin::Attribute, error }),
            },
        }
    }
}

proof fn lemma_first_failure_stays(pieces: Seq<PieceView>, n: int)
    requires
        0 <= n <= pieces.len(),
        scanned(pieces.take(n)) is Err,
    ensures
        scanned(pieces) == scanned(pieces.take(n)),
    decreases pieces.len() - n,
{
    if n == pieces.len() {
        assert(pieces.take(n) =~= pieces);
    } else {
        let longer = pieces.take(n + 1);
        assert(longer.drop_last() =~= pieces.take(n));
        lemma_first_failure_stays(pieces, n + 1);
    }
}

/// Reads a list of targets from its pieces.
pub fn targets_from_pieces(pieces: &Vec<Piece>) -> (r: Result<Vec<Target>, PlanError>)
    ensures
        match r {
            Ok(targets) => targets_of_pieces(piece_views(pieces@)) == Ok::<
                Seq<TargetView>,
                PlanError,
            >(views(targets@)),
            Err(error) => targets_of_pieces(piece_views(pieces@)) == Err::<
                Seq<TargetView>,
                PlanError,
            >(error),
        },
{
    let ghost all = piece_views(pieces@);
    let mut targets: Vec<Target> = Vec::new();
    let mut expects_item: bool = true;
    let mut i: usize = 0;
    assert(all.take(0) =~= Seq::<PieceView>::empty());
    assert(views(targets@) =~= Seq::<TargetView>::empty());
    while i < pieces.len()
        invariant
            i <= pieces.len(),
            all == piece_views(pieces@),
            scanned(all.take(i as int)) == Ok::<Scan, PlanError>(
                Scan { targets: views(targets@), expects_item },
            ),
        decreases pieces.len() - i,
    {
        let ghost before = views(targets@);
        let ghost prefix = all.take(i + 1);
        assert(prefix.drop_last() =~= all.take(i as int));
        assert(prefix.last() == pieces[i as int]@);
        match &pieces[i] {
            Piece::Literal(text) => {
                if !expects_item {
                    proof {
                        lemma_first_failure_stays(all, i + 1);
                    }
                    return Err(PlanError::Syntax);
                }
                match Target::parse(text.as_str()) {
                    Err(error) => {
                        proof {
                            lemma_first_failure_stays(all, i + 1);
                        }
                        return Err(PlanError::Target { index: targets.len(), error });
                    },
                    Ok(target) => {
                        targets.push(target);
                        expects_item = false;
                        assert(views(targets@) =~= before.push(target@));
                    },
                }
            },
            Piece::Comma => {
                if expects_item {
                    proof {
                        lemma_first_failure_stays(all, i + 1);
                    }
                    return Err(PlanError::Syntax);
                }
                expects_item = true;
            },
            Piece::Other => {
                proof {
                    lemma_first_failure_stays(all, i + 1);
                }
                return Err(PlanError::Syntax);
            },
        }
        i += 1;
    }
    assert(all.take(i as int) =~= all);
    Ok(targets)
}

/// The one string literal that the pieces are, if they are one.
pub fn literal_from_pieces(pieces: &Vec<Piece>) -> (r: Option<&str>)
    ensures
        match r {
            Some(text) => lone_literal(piece_views(pieces@)) == Some(text@),
            None => lone_literal(piece_views(pieces@)) is None,
        },
{
    if pieces.len() == 1 {
        assert(piece_views(pieces@)[0] == pieces[0]@);
        match &pieces[0] {
            Piece::Literal(text) => Some(text.as_str()),
            _ => None,
        }
    } else {
        None
    }
}

/// The targets that the value of `targets` stands for, from its form and
/// from what was read in its tokens.
pub fn targets_from_reading(form: Form, pieces: &Vec<Piece>) -> (r: Result<Vec<Target>, PlanError>)
    ensures
        match r {
            Ok(targets) => targets_given(form, piece_views(pieces@)) == Ok::<
                Seq<TargetView>,
                PlanError,
            >(views(targets@)),
            Err(error) => targets_given(form, piece_views(pieces@)) == Err::<
                Seq<TargetView>,
                PlanError,
            >(error),
        },
{
    match form {
        Form::Parenthesized => targets_from_pieces(pieces),
        Form::Assigned => {
            let name = match literal_from_pieces(pieces) {
                None => { return Err(PlanError::Syntax); },
                Some(name) => name,
            };
            match TargetList::from_preset(name) {
                Err(error) => Err(PlanError::Validation(error)),
                Ok(list) => Ok(list.into_targets()),
            }
        },
        Form::Bare => Err(PlanError::Syntax),
    }
}

/// The decorations that the value of `attrs` stands for, from its form and
/// from the attribute arguments that were read in its tokens, if any were.
pub fn attrs_from_reading(form: Form, items: Option<Vec<Meta>>) -> (r: Result<Vec<Meta>, PlanError>)
    ensures
        match r {
            Ok(list) => attrs_given(form, optional_items(items)) == Ok::<Seq<Meta>, PlanError>(
                list@,
            ),
            Err(error) => attrs_given(form, optional_items(items)) == Err::<Seq<Meta>, PlanError>(
                error,
            ),
        },
{
    match form {
        Form::Parenthesized => match items {
            Some(list) => Ok(list),
            None => Err(PlanError::Syntax),
        },
        _ => Err(PlanError::Syntax),
    }
}

/// The dispatch method of a name, as the value of `dispatcher`.
pub fn dispatcher_from_name(name: &str) -> (r: Result<DispatchMethod, PlanError>)
    ensures
        r == dispatcher_named(name@),
{
    match DispatchMethod::from_name(name) {
        None => Err(PlanError::Validation(ValidationError::UnknownDispatcher)),
        Some(method) => Ok(method),
    }
}

/// The method that the value of `dispatcher` stands for, from its form and
/// from what was read in its tokens.
pub fn dispatcher_from_reading(form: Form, pieces: &Vec<Piece>) -> (r: Result<
    DispatchMethod,
    PlanError,
>)
    ensures
        r == dispatcher_given(form, piece_views(pieces@)),
{
    match form {
        Form::Assigned => match literal_from_pieces(pieces) {
            None => Err(PlanError::Syntax),
            Some(name) => dispatcher_from_name(name),
        },
        _ => Err(PlanError::Syntax),
    }
}

/// Reads the tokens one by one: each is a comma, a string literal or
/// something else, as the syntax crate tells.
fn read_pieces(tokens: &TokenStream) -> (pieces: Vec<Piece>)
    ensures
        piece_views(pieces@) == pieces_of_tokens(*tokens),
{
    let trees = trees_of(tokens);
    let mut pieces: Vec<Piece> = Vec::new();
    let mut i: usize = 0;
    while i < trees.len()
        invariant
            i <= trees.len(),
            trees@ == trees_in(*tokens),
            pieces.len() == i,
            forall|j: int| 0 <= j < i ==> (#[trigger] pieces[j])@ == piece_in(trees[j]),
        decreases trees.len() - i,
    {
        let piece = match read_comma(&trees[i]) {
            Ok(_) => Piece::Comma,
            Err(_) => match read_literal(&trees[i]) {
                Ok(literal) => Piece::Literal(literal_value(&literal)),
                Err(_) => Piece::Other,
            },
        };
        pieces.push(piece);
        i += 1;
    }
    assert(piece_views(pieces@) =~= pieces_of_tokens(*tokens));
    pieces
}

/// The pieces of the tokens of a value. A bare value has none.
fn pieces_of(value: &OptionValue) -> (pieces: Vec<Piece>)
    ensures
        piece_views(pieces@) == pieces_in(*value),
{
    match value {
        OptionValue::Parenthesized(tokens) => read_pieces(tokens),
        OptionValue::Assigned(tokens) => read_pieces(tokens),
        OptionValue::Bare => {
            let none: Vec<Piece> = Vec::new();
            assert(piece_views(none@) =~= Seq::<PieceView>::empty());
            none
        },
    }
}

/// The attribute arguments that a value lists, if it is parenthesized and
/// lists any.
fn items_of(value: &OptionValue) -> (items: Option<Vec<Meta>>)
    ensures
        optional_items(items) == items_in(*value),
{
    match value {
        OptionValue::Parenthesized(tokens) => match read_meta_list(tokens) {
            Ok(items) => Some(items),
            Err(_) => None,
        },
        _ => None,
    }
}

/// Reads the value of `targets`: a list of targets or the name of a preset.
/// Given a second time the option is an error and nothing is read.
pub fn parse_targets(value: &OptionValue, targets: &mut Option<Vec<Target>>) -> (r: Result<
    (),
    PlanError,
>)
    ensures
        (optional_targets(*final(targets)), r) == targets_read(
            value.shape(),
            pieces_in(*value),
            optional_targets(*old(targets)),
        ),
{
    if targets.is_some() {
        return Err(PlanError::Validation(ValidationError::DuplicateOption(OptionKind::Targets)));
    }
    let pieces = pieces_of(value);
    match targets_from_reading(value.form(), &pieces) {
        Err(error) => Err(error),
        Ok(list) => {
            *targets = Some(list);
            Ok(())
        },
    }
}

/// Reads the value of `attrs`: the decorations of every variant. Given a
/// second time the option is an error and nothing is read.
pub fn parse_attrs(value: &OptionValue, inner_attrs: &mut Option<Vec<Meta>>) -> (r: Result<
    (),
    PlanError,
>)
    ensures
        (optional_items(*final(inner_attrs)), r) == attrs_read(
            value.shape(),
            items_in(*value),
            optional_items(*old(inner_attrs)),
        ),
{
    if inner_attrs.is_some() {
        return Err(PlanError::Validation(ValidationError::DuplicateOption(OptionKind::Attrs)));
    }
    let none: Vec<Meta> = Vec::new();
    assert(none@ =~= Seq::<Meta>::empty());
    *inner_attrs = Some(none);
    let items = items_of(value);
    match attrs_from_reading(value.form(), items) {
        Err(error) => Err(error),
        Ok(list) => {
            *inner_attrs = Some(list);
            Ok(())
        },
    }
}

/// Reads the value of `dispatcher`: the name of a dispatch method. Given a
/// second time the option is an error and nothing is read.
pub fn parse_dispatcher(value: &OptionValue, dispatcher: &mut Option<DispatchMethod>) -> (r: Result<
    (),
    PlanError,
>)
    ensures
        (*final(dispatcher), r) == dispatcher_read(value.shape(), pieces_in(*value), *old(dispatcher)),
{
    if dispatcher.is_some() {
        return Err(
            PlanError::Validation(ValidationError::DuplicateOption(OptionKind::Dispatcher)),
        );
    }
    let pieces = pieces_of(value);
    match dispatcher_from_reading(value.form(), &pieces) {
        Err(error) => Err(error),
        Ok(method) => {
            *dispatcher = Some(method);
            Ok(())
        },
    }
}

impl Options {
    /// The state before any option is read.
    pub fn new() -> (r: Options)
        ensures
            r@ == no_options(),
    {
        Options { targets: None, inner_attrs: None, dispatcher: None }
    }

    /// Reads one option. A name that is no option is an error that leaves
    /// everything as it was.
    pub fn accept(&mut self, entry: &OptionEntry) -> (r: Result<(), PlanError>)
        ensures
            (final(self)@, r) == accepted(old(self)@, entry@, reading_in(entry.value)),
    {
        let name = entry.name.as_str();
        if same_text(name, "targets") {
            parse_targets(&entry.value, &mut self.targets)
        } else if same_text(name, "attrs") {
            parse_attrs(&entry.value, &mut self.inner_attrs)
        } else if same_text(name, "dispatcher") {
            parse_dispatcher(&entry.value, &mut self.dispatcher)
        } else {
            Err(PlanError::Validation(ValidationError::UnrecognizedOption))
        }
    }

    /// Builds the plan from the options read.
    pub fn finish(self, signature: FunctionSignature, config: &BuildConfig) -> (r: Result<
        DispatchPlan,
        PlanError,
    >)
        ensures
            lifted(r) == configured(self@, signature, config@),
    {
        let items = match self.targets {
            None => { return Err(PlanError::Validation(ValidationError::MissingTargets)); },
            Some(items) => items,
        };
        let targets = match TargetList::from_explicit_list(items) {
            Err(error) => { return Err(PlanError::Validation(error)); },
            Ok(targets) => targets,
        };
        let inner_attrs = match self.inner_attrs {
            Some(items) => items,
            None => Vec::new(),
        };
        let dispatcher = match self.dispatcher {
            Some(method) => method,
            None => DispatchMethod::Default,
        };
        let site = Dispatcher { targets, signature, inner_attrs, dispatcher };
        match site.build(config) {
            Err(error) => Err(PlanError::Validation(error)),
            Ok(plan) => Ok(plan),
        }
    }
}

proof fn lemma_first_rejection_stays(
    start: OptionsView,
    entries: Seq<OptionEntryView>,
    readings: Seq<Reading>,
    n: nat,
    m: nat,
)
    requires
        n <= m,
        read_first(start, entries, readings, n) is Err,
    ensures
        read_first(start, entries, readings, m) == read_first(start, entries, readings, n),
    decreases m,
{
    if n < m {
        lemma_first_rejection_stays(start, entries, readings, n, (m - 1) as nat);
    }
}

/// Builds the dispatch plan of a function from the options that its
/// attribute gives and from what the build knows.
pub fn make_multiversioned_fn(
    entries: &Vec<OptionEntry>,
    signature: FunctionSignature,
    config: &BuildConfig,
) -> (r: Result<DispatchPlan, Diagnostic>)
    ensures
        lifted(r) == multiversioned(
            entry_views(entries@),
            readings_in(entry_views(entries@)),
            signature,
            config@,
        ),
{
    match signature.returns {
        ReturnKind::Opaque => {
            return Err(
                Diagnostic {
                    origin: Origin::ReturnType,
                    error: PlanError::Validation(ValidationError::OpaqueReturnType),
                },
            );
        },
        _ => {},
    }
    let ghost all = entry_views(entries@);
    let ghost readings = readings_in(all);
    let mut options = Options::new();
    let mut i: usize = 0;
    while i < entries.len()
        invariant
            i <= entries.len(),
            all == entry_views(entries@),
            readings == readings_in(all),
            !(signature.returns is Opaque),
            read_first(no_options(), all, readings, i as nat) == Ok::<OptionsView, Diagnostic>(
                options@,
            ),
        decreases entries.len() - i,
    {
        assert(all[i as int] == entries[i as int]@);
        assert(readings[i as int] == reading_in(entries[i as int].value));
        match options.accept(&entries[i]) {
            Err(error) => {
                proof {
                    lemma_first_rejection_stays(
                        no_options(),
                        all,
                        readings,
                        (i + 1) as nat,
                        entries.len() as nat,
                    );
                }
                return Err(Diagnostic { origin: Origin::Entry(i), error });
            },
            Ok(_) => {},
        }
        i += 1;
    }
    match options.finish(signature, config) {
        Ok(plan) => Ok(plan),
        Err(error) => Err(Diagnostic { origin: Origin::Attribute, error }),
    }
}

/// A function that returns an opaque type is rejected before any option is
/// looked at: the error does not depend on the options nor on what is read in
/// them, be they valid or not.
pub proof fn opaque_return_is_rejected_first(
    entries: Seq<OptionEntryView>,
    readings: Seq<Reading>,
    signature: FunctionSignature,
    config: BuildConfigView,
)
    requires
        signature.returns is Opaque,
    ensures
        multiversioned(entries, readings, signature, config) == Err::<PlanView, Diagnostic>(
            opaque_return(),
        ),
{
}

/// A malformed target is the error of a list even where an item that is no
/// string literal, or another malformed target, stands behind it: of the
/// items that fail, the first decides.
pub proof fn first_failing_item_decides(pieces: Seq<PieceView>, n: int)
    requires
        0 <= n <= pieces.len(),
        targets_of_pieces(pieces.take(n)) is Err,
    ensures
        targets_of_pieces(pieces) == targets_of_pieces(pieces.take(n)),
{
    lemma_first_failure_stays(pieces, n);
}

} // verus!
