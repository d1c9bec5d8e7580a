use multiversion_engine::environment::BuildConfig;
use multiversion_engine::error::{Diagnostic, OptionKind, Origin, PlanError, ValidationError};
use multiversion_engine::method::{DispatchMethod, Strategy};
use multiversion_engine::options::{
    attrs_from_reading, dispatcher_from_name, dispatcher_from_reading, literal_from_pieces,
    make_multiversioned_fn, parse_attrs, parse_dispatcher, parse_targets, targets_from_pieces,
    targets_from_reading, Form, OptionEntry, OptionValue, Options, Piece,
};
use multiversion_engine::plan::{FunctionSignature, ReturnKind};
use multiversion_engine::target::{Architecture, ParseError, Target};
use proc_macro2::TokenStream;
use quote::ToTokens;
use syn::Meta;

fn targets(items: &[&str]) -> Vec<Target> {
    items.iter().map(|item| Target::parse(item).unwrap()).collect()
}

fn tokens(text: &str) -> TokenStream {
    text.parse().unwrap()
}

fn parenthesized(text: &str) -> OptionValue {
    OptionValue::Parenthesized(tokens(text))
}

fn assigned(text: &str) -> OptionValue {
    OptionValue::Assigned(tokens(text))
}

fn entry(name: &str, value: OptionValue) -> OptionEntry {
    OptionEntry { name: name.to_string(), value }
}

fn literal(text: &str) -> Piece {
    Piece::Literal(text.to_string())
}

fn printed(items: &[Meta]) -> Vec<String> {
    items.iter().map(|item| item.to_token_stream().to_string()).collect()
}

fn metas(items: &[&str]) -> Vec<Meta> {
    items.iter().map(|item| syn::parse_str::<Meta>(item).unwrap()).collect()
}

fn config() -> BuildConfig {
    BuildConfig {
        architecture: Some(Architecture::X86_64),
        enabled: Vec::new(),
        disabled: Vec::new(),
        hardened: false,
    }
}

const CONCRETE: FunctionSignature = FunctionSignature { returns: ReturnKind::Concrete };
const OPAQUE: FunctionSignature = FunctionSignature { returns: ReturnKind::Opaque };

fn at_entry(index: usize, error: PlanError) -> Diagnostic {
    Diagnostic { origin: Origin::Entry(index), error }
}

fn at_attribute(error: ValidationError) -> Diagnostic {
    Diagnostic { origin: Origin::Attribute, error: PlanError::Validation(error) }
}

fn duplicate(kind: OptionKind) -> PlanError {
    PlanError::Validation(ValidationError::DuplicateOption(kind))
}

fn malformed(index: usize, error: ParseError) -> PlanError {
    PlanError::Target { index, error }
}

#[test]
fn pieces_spell_a_list_of_targets() {
    let pieces = vec![literal("x86_64+avx2+fma"), Piece::Comma, literal("x86+sse2")];
    assert_eq!(targets_from_pieces(&pieces), Ok(targets(&["x86_64+avx2+fma", "x86+sse2"])));
    let ended = vec![literal("arm+neon"), Piece::Comma];
    assert_eq!(targets_from_pieces(&ended), Ok(targets(&["arm+neon"])));
    assert_eq!(targets_from_pieces(&Vec::new()), Ok(Vec::new()));
}

#[test]
fn pieces_out_of_place_are_a_syntax_error() {
    for pieces in [
        vec![Piece::Comma],
        vec![Piece::Other],
        vec![literal("x86+sse2"), literal("x86+avx")],
        vec![literal("x86+sse2"), Piece::Other],
        vec![literal("x86+sse2"), Piece::Comma, Piece::Comma],
        vec![literal("x86+sse2"), Piece::Comma, Piece::Other],
        vec![literal("x86+sse2"), Piece::Comma, literal("x86+avx"), Piece::Other],
    ] {
        assert_eq!(targets_from_pieces(&pieces), Err(PlanError::Syntax));
    }
}

#[test]
fn first_failing_piece_decides() {
    let unknown = malformed(0, ParseError::UnknownArchitecture);
    for pieces in [
        vec![literal("bogus+x")],
        vec![literal("bogus+x"), Piece::Comma, Piece::Other],
        vec![literal("bogus+x"), Piece::Other],
        vec![literal("bogus+x"), literal("x86+sse2")],
        vec![literal("bogus+x"), Piece::Comma, Piece::Comma],
        vec![literal("bogus+x"), Piece::Comma, literal("x86_64")],
    ] {
        assert_eq!(targets_from_pieces(&pieces), Err(unknown));
    }
    let later = vec![
        literal("x86+sse2"),
        Piece::Comma,
        literal("x86_64"),
        Piece::Comma,
        literal("sparc+vis"),
        Piece::Other,
    ];
    assert_eq!(targets_from_pieces(&later), Err(malformed(1, ParseError::MissingFeatures)));
    let syntax_first = vec![Piece::Other, Piece::Comma, literal("bogus+x")];
    assert_eq!(targets_from_pieces(&syntax_first), Err(PlanError::Syntax));
}

#[test]
fn lone_literal_is_one_piece() {
    assert_eq!(literal_from_pieces(&vec![literal("simd")]), Some("simd"));
    assert_eq!(literal_from_pieces(&vec![literal("")]), Some(""));
    assert_eq!(literal_from_pieces(&Vec::new()), None);
    assert_eq!(literal_from_pieces(&vec![Piece::Other]), None);
    assert_eq!(literal_from_pieces(&vec![Piece::Comma]), None);
    assert_eq!(literal_from_pieces(&vec![literal("simd"), Piece::Comma]), None);
    assert_eq!(literal_from_pieces(&vec![literal("simd"), literal("simd")]), None);
}

#[test]
fn targets_from_what_was_read() {
    let list = vec![literal("arm+neon"), Piece::Comma, literal("x86+sse2")];
    assert_eq!(
        targets_from_reading(Form::Parenthesized, &list),
        Ok(targets(&["arm+neon", "x86+sse2"]))
    );
    assert_eq!(targets_from_reading(Form::Assigned, &list), Err(PlanError::Syntax));
    assert_eq!(targets_from_reading(Form::Bare, &list), Err(PlanError::Syntax));
    let preset = vec![literal("simd")];
    assert_eq!(targets_from_reading(Form::Assigned, &preset).map(|list| list.len()), Ok(6));
    assert_eq!(
        targets_from_reading(Form::Parenthesized, &preset),
        Err(malformed(0, ParseError::UnknownArchitecture))
    );
    assert_eq!(
        targets_from_reading(Form::Assigned, &vec![literal("neon")]),
        Err(PlanError::Validation(ValidationError::UnknownPreset))
    );
}

#[test]
fn attrs_from_what_was_read() {
    let read = attrs_from_reading(Form::Parenthesized, Some(metas(&["inline", "cold"])));
    assert_eq!(read.map(|items| printed(&items)), Ok(vec!["inline".to_string(), "cold".to_string()]));
    assert_eq!(attrs_from_reading(Form::Parenthesized, None).err(), Some(PlanError::Syntax));
    assert_eq!(
        attrs_from_reading(Form::Assigned, Some(metas(&["inline"]))).err(),
        Some(PlanError::Syntax)
    );
    assert_eq!(attrs_from_reading(Form::Bare, Some(Vec::new())).err(), Some(PlanError::Syntax));
    assert_eq!(
        attrs_from_reading(Form::Parenthesized, Some(Vec::new())).map(|items| items.len()),
        Ok(0)
    );
}

#[test]
fn dispatcher_from_what_was_read() {
    assert_eq!(
        dispatcher_from_reading(Form::Assigned, &vec![literal("static")]),
        Ok(DispatchMethod::Static)
    );
    assert_eq!(
        dispatcher_from_reading(Form::Assigned, &vec![literal("Static")]),
        Err(PlanError::Validation(ValidationError::UnknownDispatcher))
    );
    assert_eq!(
        dispatcher_from_reading(Form::Parenthesized, &vec![literal("static")]),
        Err(PlanError::Syntax)
    );
    assert_eq!(dispatcher_from_reading(Form::Bare, &Vec::new()), Err(PlanError::Syntax));
    assert_eq!(dispatcher_from_reading(Form::Assigned, &vec![Piece::Other]), Err(PlanError::Syntax));
    assert_eq!(dispatcher_from_reading(Form::Assigned, &Vec::new()), Err(PlanError::Syntax));
    assert_eq!(
        dispatcher_from_name("\"static\""),
        Err(PlanError::Validation(ValidationError::UnknownDispatcher))
    );
    assert_eq!(dispatcher_from_name("static"), Ok(DispatchMethod::Static));
}

#[test]
fn forms_of_values() {
    assert_eq!(parenthesized("a, b").form(), Form::Parenthesized);
    assert_eq!(assigned("\"x\"").form(), Form::Assigned);
    assert_eq!(OptionValue::Bare.form(), Form::Bare);
}

#[test]
fn targets_from_a_list_of_literals() {
    let mut read = None;
    let value = parenthesized(r#""x86_64+avx2+fma", "x86+sse2""#);
    assert_eq!(parse_targets(&value, &mut read), Ok(()));
    assert_eq!(read, Some(targets(&["x86_64+avx2+fma", "x86+sse2"])));
}

#[test]
fn targets_list_may_end_in_a_comma_or_be_empty() {
    let mut read = None;
    assert_eq!(parse_targets(&parenthesized(r#""arm+neon","#), &mut read), Ok(()));
    assert_eq!(read, Some(targets(&["arm+neon"])));
    let mut none = None;
    assert_eq!(parse_targets(&parenthesized(""), &mut none), Ok(()));
    assert_eq!(none, Some(Vec::new()));
}

#[test]
fn target_literals_are_unescaped() {
    let mut read = None;
    let value = parenthesized(r##""x86\u{5f}64+avx2", r"x86+sse2", r#"arm+neon"#"##);
    assert_eq!(parse_targets(&value, &mut read), Ok(()));
    assert_eq!(read, Some(targets(&["x86_64+avx2", "x86+sse2", "arm+neon"])));
}

#[test]
fn targets_from_the_preset() {
    let mut read = None;
    assert_eq!(parse_targets(&assigned(r#""simd""#), &mut read), Ok(()));
    assert_eq!(
        read,
        Some(targets(&[
            "x86_64+avx2+fma",
            "x86_64+sse4.2",
            "x86+avx2+fma",
            "x86+sse4.2",
            "x86+sse2",
            "aarch64+neon",
        ]))
    );
}

#[test]
fn targets_reject_an_unknown_preset() {
    let mut read = None;
    assert_eq!(
        parse_targets(&assigned(r#""neon""#), &mut read),
        Err(PlanError::Validation(ValidationError::UnknownPreset))
    );
    assert_eq!(read, None);
}

#[test]
fn targets_reject_what_is_no_string_literal() {
    for value in [
        assigned("simd"),
        assigned("1"),
        assigned(r#"b"simd""#),
        assigned(r#""simd" "simd""#),
        assigned(r#""simd","#),
        assigned(""),
        parenthesized("x86_64"),
        parenthesized(r#""x86+sse2" "x86+avx""#),
        parenthesized(r#""x86+sse2"; "x86+avx""#),
        parenthesized(r#"("x86+sse2")"#),
        parenthesized(r#", "x86+sse2""#),
        parenthesized(r#""x86+sse2",, "x86+avx""#),
        parenthesized(r#""x86+sse2", 1"#),
        parenthesized(r#""x86+sse2", 'c', "bogus+x""#),
        OptionValue::Bare,
    ] {
        let mut read = None;
        assert_eq!(parse_targets(&value, &mut read), Err(PlanError::Syntax));
        assert_eq!(read, None);
    }
}

#[test]
fn targets_name_the_malformed_target() {
    let mut read = None;
    let value = parenthesized(r#""x86+sse2", "x86_64", "sparc+vis""#);
    assert_eq!(parse_targets(&value, &mut read), Err(malformed(1, ParseError::MissingFeatures)));
    assert_eq!(read, None);
    let value = parenthesized(r#""x86+sse2", "x86+avx", "sparc+vis""#);
    assert_eq!(parse_targets(&value, &mut read), Err(malformed(2, ParseError::UnknownArchitecture)));
    assert_eq!(read, None);
}

#[test]
fn malformed_target_before_a_non_literal_item_decides() {
    for text in [
        r#""bogus+x", 1"#,
        r#""bogus+x" 1"#,
        r#""bogus+x", x86_64"#,
        r#""bogus+x",, "x86+sse2""#,
        r#""bogus+x" "x86+sse2""#,
        r#""bogus+x"; 2"#,
        r#""bogus+x", ("x86+sse2")"#,
    ] {
        let mut read = None;
        assert_eq!(
            parse_targets(&parenthesized(text), &mut read),
            Err(malformed(0, ParseError::UnknownArchitecture))
        );
        assert_eq!(read, None);
    }
    let mut read = None;
    let value = parenthesized(r#""x86+sse2", "x86_64+", 1, "sparc""#);
    assert_eq!(parse_targets(&value, &mut read), Err(malformed(1, ParseError::EmptyFeature)));
    assert_eq!(read, None);
}

#[test]
fn targets_given_twice_are_rejected() {
    let mut read = Some(targets(&["x86+sse2"]));
    for value in [
        parenthesized(r#""arm+neon""#),
        parenthesized("1 2 3"),
        assigned(r#""simd""#),
        assigned("?"),
        OptionValue::Bare,
    ] {
        assert_eq!(parse_targets(&value, &mut read), Err(duplicate(OptionKind::Targets)));
        assert_eq!(read, Some(targets(&["x86+sse2"])));
    }
}

#[test]
fn attrs_are_read_in_order() {
    let mut read = None;
    assert_eq!(parse_attrs(&parenthesized("inline , cold"), &mut read), Ok(()));
    assert_eq!(read.map(|items| printed(&items)), Some(printed(&metas(&["inline", "cold"]))));
    let mut read = None;
    let value = parenthesized(r#"inline(always),track_caller,doc="fast path","#);
    assert_eq!(parse_attrs(&value, &mut read), Ok(()));
    let items = read.unwrap();
    assert_eq!(items.len(), 3);
    assert_eq!(
        printed(&items),
        printed(&metas(&["inline(always)", "track_caller", "doc = \"fast path\""]))
    );
    assert!(items[0].path().is_ident("inline"));
    assert!(items[1].path().is_ident("track_caller"));
    assert!(items[2].path().is_ident("doc"));
}

#[test]
fn attrs_may_be_empty() {
    let mut read = None;
    assert_eq!(parse_attrs(&parenthesized(""), &mut read), Ok(()));
    assert_eq!(read.map(|items| items.len()), Some(0));
}

#[test]
fn attrs_reject_other_forms_and_leave_no_decorations() {
    for value in [
        assigned("inline"),
        OptionValue::Bare,
        parenthesized("\"inline\""),
        parenthesized("inline cold"),
        parenthesized("inline,, cold"),
        parenthesized("doc ="),
        parenthesized("1"),
    ] {
        let mut read = None;
        assert_eq!(parse_attrs(&value, &mut read), Err(PlanError::Syntax));
        assert_eq!(read.map(|items| items.len()), Some(0));
    }
}

#[test]
fn attrs_given_twice_are_rejected() {
    let mut read = Some(metas(&["inline"]));
    for value in [parenthesized("cold"), parenthesized("1"), OptionValue::Bare] {
        assert_eq!(parse_attrs(&value, &mut read), Err(duplicate(OptionKind::Attrs)));
        assert_eq!(read.as_ref().map(|items| printed(items)), Some(printed(&metas(&["inline"]))));
    }
}

#[test]
fn dispatcher_from_a_literal() {
    for (text, method) in [
        (r#""default""#, DispatchMethod::Default),
        (r#""static""#, DispatchMethod::Static),
        (r#""direct""#, DispatchMethod::Direct),
        (r#""indirect""#, DispatchMethod::Indirect),
        (r#""in\x64irect""#, DispatchMethod::Indirect),
    ] {
        let mut read = None;
        assert_eq!(parse_dispatcher(&assigned(text), &mut read), Ok(()));
        assert_eq!(read, Some(method));
    }
}

#[test]
fn dispatcher_rejects_unknown_names() {
    for text in [r#""Static""#, r#""""#, r#""pointer""#, r#"" static""#] {
        let mut read = None;
        assert_eq!(
            parse_dispatcher(&assigned(text), &mut read),
            Err(PlanError::Validation(ValidationError::UnknownDispatcher))
        );
        assert_eq!(read, None);
    }
}

#[test]
fn dispatcher_rejects_other_forms() {
    for value in [
        assigned("static"),
        assigned(r#""static" "static""#),
        assigned(""),
        parenthesized(r#""static""#),
        OptionValue::Bare,
    ] {
        let mut read = None;
        assert_eq!(parse_dispatcher(&value, &mut read), Err(PlanError::Syntax));
        assert_eq!(read, None);
    }
}

#[test]
fn dispatcher_given_twice_is_rejected() {
    let mut read = Some(DispatchMethod::Direct);
    for value in [assigned(r#""static""#), assigned("1"), OptionValue::Bare] {
        assert_eq!(parse_dispatcher(&value, &mut read), Err(duplicate(OptionKind::Dispatcher)));
        assert_eq!(read, Some(DispatchMethod::Direct));
    }
}

#[test]
fn accept_tells_the_options_apart() {
    let mut options = Options::new();
    assert_eq!(options.accept(&entry("dispatcher", assigned(r#""direct""#))), Ok(()));
    assert_eq!(options.accept(&entry("targets", assigned(r#""simd""#))), Ok(()));
    assert_eq!(options.accept(&entry("attrs", parenthesized("inline"))), Ok(()));
    assert_eq!(options.dispatcher, Some(DispatchMethod::Direct));
    assert_eq!(options.targets.as_ref().map(|list| list.len()), Some(6));
    assert_eq!(
        options.inner_attrs.as_ref().map(|items| printed(items)),
        Some(vec!["inline".to_string()])
    );
    assert_eq!(
        options.accept(&entry("target", assigned(r#""simd""#))),
        Err(PlanError::Validation(ValidationError::UnrecognizedOption))
    );
    assert_eq!(
        options.accept(&entry("Targets", OptionValue::Bare)),
        Err(PlanError::Validation(ValidationError::UnrecognizedOption))
    );
    assert_eq!(
        options.accept(&entry("attrs", parenthesized("cold"))),
        Err(duplicate(OptionKind::Attrs))
    );
    assert_eq!(options.dispatcher, Some(DispatchMethod::Direct));
    assert_eq!(options.targets.as_ref().map(|list| list.len()), Some(6));
}

#[test]
fn plan_from_all_options() {
    let entries = vec![
        entry("targets", parenthesized(r#""x86_64+sse2", "x86_64+avx2+fma", "aarch64+neon""#)),
        entry("attrs", parenthesized("inline, cold")),
        entry("dispatcher", assigned(r#""direct""#)),
    ];
    let plan = make_multiversioned_fn(&entries, CONCRETE, &config()).unwrap();
    assert_eq!(plan.strategy(), Strategy::Direct);
    assert_eq!(plan.variants(), &targets(&["x86_64+avx2+fma", "x86_64+sse2", "aarch64+neon"]));
    assert_eq!(printed(plan.inner_attrs()), vec!["inline".to_string(), "cold".to_string()]);
}

#[test]
fn options_have_defaults() {
    let entries = vec![entry("targets", assigned(r#""simd""#))];
    let plan = make_multiversioned_fn(&entries, CONCRETE, &config()).unwrap();
    assert_eq!(plan.strategy(), Strategy::Indirect);
    assert_eq!(plan.variants().len(), 6);
    assert!(plan.inner_attrs().is_empty());
    let mut hardened = config();
    hardened.hardened = true;
    let plan = make_multiversioned_fn(&entries, CONCRETE, &hardened).unwrap();
    assert_eq!(plan.strategy(), Strategy::Direct);
}

#[test]
fn targets_are_required() {
    let none: Vec<OptionEntry> = Vec::new();
    assert_eq!(
        make_multiversioned_fn(&none, CONCRETE, &config()).err(),
        Some(at_attribute(ValidationError::MissingTargets))
    );
    let entries = vec![entry("dispatcher", assigned(r#""static""#))];
    assert_eq!(
        make_multiversioned_fn(&entries, CONCRETE, &config()).err(),
        Some(at_attribute(ValidationError::MissingTargets))
    );
}

#[test]
fn empty_target_list_is_rejected_at_the_end() {
    let entries = vec![entry("targets", parenthesized(""))];
    assert_eq!(
        make_multiversioned_fn(&entries, CONCRETE, &config()).err(),
        Some(at_attribute(ValidationError::EmptyTargetList))
    );
}

#[test]
fn first_error_among_the_options_wins() {
    let entries = vec![
        entry("targets", assigned(r#""simd""#)),
        entry("dispatcher", assigned(r#""fastest""#)),
        entry("targets", assigned(r#""simd""#)),
        entry("unknown", OptionValue::Bare),
    ];
    assert_eq!(
        make_multiversioned_fn(&entries, CONCRETE, &config()).err(),
        Some(at_entry(1, PlanError::Validation(ValidationError::UnknownDispatcher)))
    );
    let entries = vec![
        entry("targets", assigned(r#""simd""#)),
        entry("targets", assigned(r#""simd""#)),
        entry("dispatcher", assigned(r#""fastest""#)),
    ];
    assert_eq!(
        make_multiversioned_fn(&entries, CONCRETE, &config()).err(),
        Some(at_entry(1, duplicate(OptionKind::Targets)))
    );
}

#[test]
fn static_dispatch_through_the_options() {
    let entries = vec![
        entry("targets", parenthesized(r#""x86_64+sse2", "x86_64+avx2""#)),
        entry("dispatcher", assigned(r#""static""#)),
    ];
    assert_eq!(
        make_multiversioned_fn(&entries, CONCRETE, &config()).err(),
        Some(at_attribute(ValidationError::AmbiguousTarget { index: 0 }))
    );
    let mut known = config();
    known.enabled = vec!["sse2".to_string()];
    known.disabled = vec!["avx2".to_string()];
    let plan = make_multiversioned_fn(&entries, CONCRETE, &known).unwrap();
    assert_eq!(plan.strategy(), Strategy::Static);
    assert_eq!(plan.variants(), &targets(&["x86_64+sse2"]));
}

#[test]
fn opaque_return_type_is_rejected_before_the_options() {
    let opaque = Diagnostic {
        origin: Origin::ReturnType,
        error: PlanError::Validation(ValidationError::OpaqueReturnType),
    };
    let valid = vec![entry("targets", assigned(r#""simd""#))];
    assert_eq!(make_multiversioned_fn(&valid, OPAQUE, &config()).err(), Some(opaque));
    let invalid = || {
        vec![entry("targets", parenthesized("not a list")), entry("unknown", OptionValue::Bare)]
    };
    assert_eq!(make_multiversioned_fn(&invalid(), OPAQUE, &config()).err(), Some(opaque));
    let none: Vec<OptionEntry> = Vec::new();
    assert_eq!(make_multiversioned_fn(&none, OPAQUE, &config()).err(), Some(opaque));
    assert_eq!(
        make_multiversioned_fn(&invalid(), CONCRETE, &config()).err(),
        Some(at_entry(0, PlanError::Syntax))
    );
}

#[test]
fn malformed_target_is_located() {
    let entries = vec![
        entry("dispatcher", assigned(r#""direct""#)),
        entry("attrs", parenthesized("inline")),
        entry("targets", parenthesized(r#""x86_64+avx2", "x86_64+avx2+avx2", 7"#)),
    ];
    assert_eq!(
        make_multiversioned_fn(&entries, CONCRETE, &config()).err(),
        Some(at_entry(2, malformed(1, ParseError::DuplicateFeature)))
    );
    let entries = vec![entry("nothing", OptionValue::Bare)];
    assert_eq!(
        make_multiversioned_fn(&entries, CONCRETE, &config()).err(),
        Some(at_entry(0, PlanError::Validation(ValidationError::UnrecognizedOption)))
    );
}

#[test]
fn finish_rejects_a_target_without_features() {
    let options = Options {
        targets: Some(vec![
            Target::parse("x86_64+avx2").unwrap(),
            Target::new(Architecture::X86_64, Vec::new()).unwrap(),
        ]),
        inner_attrs: None,
        dispatcher: None,
    };
    assert_eq!(
        options.finish(CONCRETE, &config()).err(),
        Some(PlanError::Validation(ValidationError::TargetWithoutFeatures { index: 1 }))
    );
}

#[test]
fn finish_uses_what_was_read() {
    let options = Options {
        targets: Some(targets(&["x86_64+sse2", "x86_64+avx2+fma"])),
        inner_attrs: Some(metas(&["cold"])),
        dispatcher: Some(DispatchMethod::Indirect),
    };
    let plan = options.finish(CONCRETE, &config()).unwrap();
    assert_eq!(plan.strategy(), Strategy::Indirect);
    assert_eq!(plan.variants(), &targets(&["x86_64+avx2+fma", "x86_64+sse2"]));
    assert_eq!(printed(plan.inner_attrs()), vec!["cold".to_string()]);
}

#[test]
fn plan_error_messages() {
    assert_eq!(PlanError::Syntax.message(), "unexpected token");
    assert_eq!(
        PlanError::Target { index: 0, error: ParseError::UnknownArchitecture }.message(),
        "unrecognized architecture"
    );
    assert_eq!(duplicate(OptionKind::Targets).message(), "can't specify `targets` multiple times");
    assert_eq!(duplicate(OptionKind::Attrs).message(), "can't specify `attrs` multiple times");
    assert_eq!(
        duplicate(OptionKind::Dispatcher).message(),
        "can't specify `dispatcher` multiple times"
    );
    assert_eq!(
        PlanError::Validation(ValidationError::UnknownPreset).message(),
        "expected a list of features or \"simd\""
    );
    assert_eq!(
        PlanError::Validation(ValidationError::UnknownDispatcher).message(),
        "expected `default`, `static`, `direct`, or `indirect`"
    );
    assert_eq!(
        PlanError::Validation(ValidationError::MissingTargets).message(),
        "expected `targets`"
    );
    assert_eq!(
        PlanError::Validation(ValidationError::UnrecognizedOption).message(),
        "unrecognized option"
    );
}
