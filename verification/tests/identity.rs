//! The identity field among the fields of a record.

use avocado_core::schema::case::RenameRule;
use avocado_core::schema::error::{err_msg, Error, Failure};
use avocado_core::schema::identity::{resolve, FieldDescriptor};
use avocado_core::schema::doc::ensure_only_lifetime_params;

fn plain(name: &str) -> FieldDescriptor {
    FieldDescriptor {
        identifier: name.to_string(),
        skip_serializing: false,
        skip_deserializing: false,
        explicit_rename: None,
    }
}

fn renamed(name: &str, to: &str) -> FieldDescriptor {
    FieldDescriptor { explicit_rename: Some(to.to_string()), ..plain(name) }
}

fn skipped(field: FieldDescriptor) -> FieldDescriptor {
    FieldDescriptor { skip_serializing: true, skip_deserializing: true, ..field }
}

fn kind(result: Result<usize, Error>) -> Failure {
    result.unwrap_err().kind
}

#[test]
fn identity_skipped_then_renamed() {
    let fields = vec![skipped(plain("a")), renamed("b", "_id")];
    assert_eq!(resolve(&fields, None), Ok(1));
    let fields = vec![skipped(renamed("a", "_id")), renamed("b", "_id")];
    assert_eq!(resolve(&fields, None), Ok(1));
    let fields = vec![skipped(plain("_id")), renamed("b", "_id")];
    assert_eq!(resolve(&fields, None), Ok(1));
}

#[test]
fn identity_two_renamed_is_ambiguous() {
    let fields = vec![renamed("a", "_id"), renamed("b", "_id")];
    assert_eq!(kind(resolve(&fields, None)), Failure::AmbiguousIdentityField);
    let fields = vec![plain("_id"), plain("x"), renamed("b", "_id")];
    assert_eq!(kind(resolve(&fields, None)), Failure::AmbiguousIdentityField);
    let fields = vec![plain("_id"), plain("_id")];
    assert_eq!(kind(resolve(&fields, None)), Failure::AmbiguousIdentityField);
    let fields = vec![plain("_id"), plain("_id"), plain("_id")];
    assert_eq!(kind(resolve(&fields, Some(RenameRule::SnakeCase))), Failure::AmbiguousIdentityField);
}

#[test]
fn identity_none_named() {
    let fields = vec![plain("a"), plain("b")];
    assert_eq!(kind(resolve(&fields, None)), Failure::NoIdentityField);
    assert_eq!(kind(resolve(&fields, Some(RenameRule::PascalCase))), Failure::NoIdentityField);
    assert_eq!(kind(resolve(&vec![], None)), Failure::NoIdentityField);
    assert_eq!(kind(resolve(&vec![skipped(plain("_id"))], None)), Failure::NoIdentityField);
    assert_eq!(kind(resolve(&vec![plain("id")], None)), Failure::NoIdentityField);
    assert_eq!(kind(resolve(&vec![plain("_ID")], None)), Failure::NoIdentityField);
    assert_eq!(kind(resolve(&vec![renamed("_id", "key")], None)), Failure::NoIdentityField);
}

#[test]
fn identity_under_the_rule_of_the_type() {
    let fields = vec![plain("_id")];
    for (rule, found) in [
        (RenameRule::LowerCase, true),
        (RenameRule::SnakeCase, true),
        (RenameRule::Uppercase, false),
        (RenameRule::ScreamingSnakeCase, false),
        (RenameRule::PascalCase, false),
        (RenameRule::CamelCase, false),
        (RenameRule::KebabCase, false),
        (RenameRule::ScreamingKebabCase, false),
    ] {
        let result = resolve(&fields, Some(rule));
        if found {
            assert_eq!(result, Ok(0));
        } else {
            assert_eq!(kind(result), Failure::NoIdentityField);
        }
    }
    // the renaming of the field itself goes before the rule of the type
    let fields = vec![plain("_id"), renamed("key", "_id")];
    assert_eq!(resolve(&fields, Some(RenameRule::Uppercase)), Ok(1));
    assert_eq!(kind(resolve(&fields, Some(RenameRule::SnakeCase))), Failure::AmbiguousIdentityField);
}

#[test]
fn identity_partial_skips_do_not_suppress() {
    let write_only = FieldDescriptor { skip_deserializing: true, ..plain("_id") };
    let read_only = FieldDescriptor { skip_serializing: true, ..plain("_id") };
    assert_eq!(resolve(&vec![plain("x"), write_only.clone()], None), Ok(1));
    assert_eq!(resolve(&vec![read_only.clone()], None), Ok(0));
    assert_eq!(kind(resolve(&vec![read_only, write_only], None)), Failure::AmbiguousIdentityField);
}

#[test]
fn field_descriptor_names() {
    let field = renamed("wat_bar", "_id");
    assert_eq!(field.effective_name(Some(RenameRule::PascalCase)), "_id");
    assert!(field.is_candidate(Some(RenameRule::PascalCase)));
    let field = plain("lol_foo");
    assert_eq!(field.effective_name(Some(RenameRule::PascalCase)), "LolFoo");
    assert_eq!(field.effective_name(None), "lol_foo");
    assert!(!field.is_candidate(None));
    assert!(!skipped(plain("_id")).is_candidate(None));
}

#[test]
fn generic_parameters() {
    assert_eq!(ensure_only_lifetime_params(0, 0), Ok(()));
    let error = ensure_only_lifetime_params(1, 0).unwrap_err();
    assert_eq!(error.kind, Failure::UnsupportedShape);
    assert!(error.message.contains("type parameters"));
    let error = ensure_only_lifetime_params(0, 1).unwrap_err();
    assert_eq!(error.kind, Failure::UnsupportedShape);
    assert!(error.message.contains("const parameters"));
    assert!(ensure_only_lifetime_params(3, 3).unwrap_err().message.contains("type parameters"));
}

#[test]
fn errors_carry_kind_and_message() {
    let error = Error::new(Failure::TypeMismatch, "wrong");
    assert_eq!(error.description(), "wrong");
    let error = Error::about(Failure::RangeViolation, "value `", "9", "` is too large");
    assert_eq!(error.message, "value `9` is too large");
    assert_eq!(error.kind, Failure::RangeViolation);
    let result: Result<u8, Error> = err_msg(Failure::GrammarViolation, "no");
    assert_eq!(result, Err(Error { kind: Failure::GrammarViolation, message: "no".to_string() }));
}
