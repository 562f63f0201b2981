//! Descriptions of whole annotated types, written as source text and lexed
//! by `proc_macro2` and `syn`.

use std::str::FromStr;

use avocado_core::literal::{IndexType, Order};
use avocado_core::schema::attr::{Attribute, Path};
use avocado_core::schema::doc::{
    describe, describe_field, field_is_always_skipped, Description, Field, Shape, TypeDecl,
};
use avocado_core::schema::identity::FieldDescriptor;
use avocado_core::schema::error::Failure;
use avocado_core::schema::index::Spec;
use avocado_core::schema::option::DocOptions;
use avocado_core::schema::token::{Binary64, Delimiter, Literal, Spacing, Token};

fn number(text: &str) -> Option<Binary64> {
    text.parse::<f64>().ok().map(|x| Binary64 { bits: x.to_bits() })
}

fn literal(lit: proc_macro2::Literal) -> Literal {
    let text = lit.to_string();
    if text.starts_with('/') {
        return Literal::Other(text);
    }
    match syn::Lit::new(lit) {
        syn::Lit::Str(s) => {
            let value = s.value();
            let n = number(&value);
            Literal::Str(value, n)
        }
        syn::Lit::ByteStr(b) => {
            let value = b.value();
            let n = std::str::from_utf8(&value).ok().and_then(number);
            Literal::ByteStr(value, n)
        }
        syn::Lit::Int(i) => {
            let value = i.value();
            Literal::Int(value, Binary64 { bits: (value as f64).to_bits() })
        }
        syn::Lit::Float(x) => Literal::Float(Binary64 { bits: x.value().to_bits() }, text),
        syn::Lit::Bool(b) => Literal::Bool(b.value),
        _ => Literal::Other(text),
    }
}

fn convert(stream: proc_macro2::TokenStream) -> Vec<Token> {
    stream
        .into_iter()
        .map(|tt| match tt {
            proc_macro2::TokenTree::Ident(i) => Token::Ident(i.to_string()),
            proc_macro2::TokenTree::Punct(p) => Token::Punct(
                p.as_char(),
                match p.spacing() {
                    proc_macro2::Spacing::Alone => Spacing::Alone,
                    proc_macro2::Spacing::Joint => Spacing::Joint,
                },
            ),
            proc_macro2::TokenTree::Literal(l) => Token::Literal(literal(l)),
            proc_macro2::TokenTree::Group(g) => Token::Group(
                match g.delimiter() {
                    proc_macro2::Delimiter::Parenthesis => Delimiter::Parenthesis,
                    proc_macro2::Delimiter::Brace => Delimiter::Brace,
                    proc_macro2::Delimiter::Bracket => Delimiter::Bracket,
                    proc_macro2::Delimiter::None => Delimiter::Invisible,
                },
                convert(g.stream()),
            ),
        })
        .collect()
}

/// An annotation from its source text without `#[` and `]`: a single
/// identifier as the path, and everything after it.
fn attr(source: &str) -> Attribute {
    let mut tokens = convert(proc_macro2::TokenStream::from_str(source).unwrap());
    let first = tokens.remove(0);
    let name = match first {
        Token::Ident(name) => name,
        other => panic!("an annotation starts with a name, not {:?}", other),
    };
    Attribute { path: Path { segments: vec![name] }, tokens }
}

fn attrs(sources: &[&str]) -> Vec<Attribute> {
    sources.iter().map(|s| attr(s)).collect()
}

fn field(name: &str, annotations: &[&str]) -> Field {
    Field { ident: name.to_string(), attrs: attrs(annotations) }
}

fn record(name: &str, annotations: &[&str], fields: Vec<Field>) -> TypeDecl {
    TypeDecl {
        ident: name.to_string(),
        attrs: attrs(annotations),
        type_params: 0,
        const_params: 0,
        shape: Shape::Named(fields),
    }
}

fn keys(entries: &[(&str, IndexType)]) -> Vec<(String, IndexType)> {
    entries.iter().map(|(name, ty)| (name.to_string(), *ty)).collect()
}

fn described(decl: &TypeDecl, name: &str, id_type: Option<&str>, id_field: usize, indexes: Vec<Spec>) {
    assert_eq!(
        describe(decl),
        Ok(Description {
            name: name.to_string(),
            id_type: id_type.map(|t| t.to_string()),
            indexes,
            id_field,
        })
    );
}

fn fails(decl: &TypeDecl, kind: Failure) {
    match describe(decl) {
        Ok(d) => panic!("expected {:?}, got {:?}", kind, d),
        Err(e) => assert_eq!(e.kind, kind),
    }
}

#[test]
fn doc_simple() {
    let decl = record("Simple", &["derive(Debug, Clone, Serialize, Deserialize, Doc)"], vec![
        field("_id", &[]),
    ]);
    described(&decl, "Simple", None, 0, vec![]);
}

#[test]
fn doc_simple_with_multiple_fields() {
    let decl = record("MultiField", &[], vec![field("_id", &[]), field("name", &[])]);
    described(&decl, "MultiField", None, 0, vec![]);
}

#[test]
fn doc_renamed_type() {
    let decl = record("Original", &["serde(rename = \"Renamed\")"], vec![
        field("_id", &[]),
        field("other_field", &[]),
    ]);
    described(&decl, "Renamed", None, 0, vec![]);
}

#[test]
fn doc_non_object_id() {
    let decl = record("Foo", &["id_type = \"u64\""], vec![field("_id", &[]), field("stuff", &[])]);
    described(&decl, "Foo", Some("u64"), 0, vec![]);
}

#[test]
fn doc_renamed_id_field() {
    let decl = record("Bar", &["id_type = \"String\""], vec![
        field("qux", &["serde(rename = \"_id\")"]),
    ]);
    described(&decl, "Bar", Some("String"), 0, vec![]);
}

#[test]
fn doc_rename_all_id_field() {
    let decl = record(
        "Renaming",
        &["serde(rename_all = \"PascalCase\")", "id_type = \"u64\""],
        vec![
            field("lol_foo", &[]),
            field("wat_bar", &["serde(rename = \"_id\")"]),
            // this one is renamed to `Id`: no second `_id`
            field("_id", &[]),
        ],
    );
    described(&decl, "Renaming", Some("u64"), 1, vec![]);
}

#[test]
fn doc_id_partial_skip_allowed() {
    let skip_ser = record("SkipSer", &[], vec![field("_id", &["serde(skip_serializing)"])]);
    let skip_de = record("SkipDe", &["id_type = \"String\""], vec![
        field("_id", &["serde(skip_deserializing)"]),
    ]);
    let skip_ser_if = record("SkipSerIf", &["id_type = \"i32\""], vec![
        field("_id", &["serde(skip_serializing_if = \"is_zero\")"]),
    ]);
    described(&skip_ser, "SkipSer", None, 0, vec![]);
    described(&skip_de, "SkipDe", Some("String"), 0, vec![]);
    described(&skip_ser_if, "SkipSerIf", Some("i32"), 0, vec![]);
}

#[test]
fn doc_non_id_field_skip_allowed() {
    let skip_non_id = record("SkipNonId", &[], vec![
        field("_id", &[]),
        field("unimportant", &["serde(skip)"]),
    ]);
    let skip_ser_de = record("SkipSerDeNonId", &["id_type = \"u16\""], vec![
        field("_id", &[]),
        field("dont_care", &["serde(skip_deserializing, skip_serializing)"]),
    ]);
    let skip_multi = record("SkipSerDeNonIdMultiAttr", &["id_type = \"u32\""], vec![
        field("_id", &[]),
        field("dont_care_either", &["serde(skip_serializing)", "serde(skip_deserializing)"]),
    ]);
    described(&skip_non_id, "SkipNonId", None, 0, vec![]);
    described(&skip_ser_de, "SkipSerDeNonId", Some("u16"), 0, vec![]);
    described(&skip_multi, "SkipSerDeNonIdMultiAttr", Some("u32"), 0, vec![]);
}

#[test]
fn doc_optional_id() {
    let decl = record("WithOptionalId", &[], vec![
        field("id", &["serde(rename = \"_id\")"]),
        field("foo", &[]),
    ]);
    described(&decl, "WithOptionalId", None, 0, vec![]);
}

#[test]
fn doc_generic_lifetime_only() {
    // a lifetime parameter counts neither as a type nor as a constant
    let decl = record("GenericLifetime", &["id_type = \"u32\""], vec![
        field("_id", &[]),
        field("dummy", &[]),
    ]);
    described(&decl, "GenericLifetime", Some("u32"), 0, vec![]);
}

#[test]
fn doc_index() {
    let decl = record(
        "Indexed",
        &[
            "index(keys(inner = \"hashed\"))",
            "index(keys(rambling = \"text\"), unique)",
            "index(
                name = \"fluffy\",
                unique = false,
                sparse,
                keys(
                    _id = \"ascending\",
                    inner = \"descending\",
                )
            )",
        ],
        vec![
            field("guid", &["serde(rename = \"_id\")"]),
            field("inner", &[]),
            field("rambling", &[]),
        ],
    );
    described(&decl, "Indexed", None, 0, vec![
        Spec { keys: keys(&[("inner", IndexType::Hashed)]), ..Spec::empty() },
        Spec {
            unique: Some(true),
            keys: keys(&[("rambling", IndexType::Text)]),
            ..Spec::empty()
        },
        Spec {
            name: Some(String::from("fluffy")),
            unique: Some(false),
            sparse: Some(true),
            keys: keys(&[
                ("_id", IndexType::Ordered(Order::Ascending)),
                ("inner", IndexType::Ordered(Order::Descending)),
            ]),
            ..Spec::empty()
        },
    ]);
}

#[test]
fn doc_index_options() {
    let decl = record(
        "Fancy",
        &[
            "id_type = \"u32\"",
            "index(
                default_language = \"french\",
                language_override = \"lang\",
                min = \"-170.3\",
                max = 89.5,
                bits = 28,
                bucket_size = 5,
                keys(_id = \"ascending\")
            )",
        ],
        vec![field("_id", &[])],
    );
    let description = describe(&decl).unwrap();
    assert_eq!(description.indexes, [Spec {
        default_language: Some(String::from("french")),
        language_override: Some(String::from("lang")),
        min: Some(Binary64 { bits: (-170.3f64).to_bits() }),
        max: Some(Binary64 { bits: 89.5f64.to_bits() }),
        bits: Some(28),
        bucket_size: Some(5),
        keys: keys(&[("_id", IndexType::Ordered(Order::Ascending))]),
        ..Spec::empty()
    }]);
    let spec = &description.indexes[0];
    assert_eq!(f64::from_bits(spec.min.unwrap().bits), -170.3);
    assert_eq!(f64::from_bits(spec.max.unwrap().bits), 89.5);
}

#[test]
fn doc_index_embedded_paths() {
    let decl = record(
        "Embedding",
        &["index(
            keys(
                embedded::_id = \"ascending\",
                embedded::nested::deep = \"2d\",
            )
        )"],
        vec![field("_id", &[]), field("embedded", &[])],
    );
    described(&decl, "Embedding", None, 0, vec![Spec {
        keys: keys(&[
            ("embedded._id", IndexType::Ordered(Order::Ascending)),
            ("embedded.nested.deep", IndexType::Geo2D),
        ]),
        ..Spec::empty()
    }]);
}

#[test]
fn doc_index_last_field_overwrites_previous() {
    let decl = record(
        "Indexed",
        &["index(
            keys(
                field_one = \"ascending\",
                field_one = \"descending\",
                field_two = \"2dsphere\",
                field_three = \"hashed\",
                field_two = \"text\"
            )
        )"],
        vec![
            field("_id", &[]),
            field("field_one", &[]),
            field("field_two", &[]),
            field("field_three", &[]),
        ],
    );
    described(&decl, "Indexed", None, 0, vec![Spec {
        keys: keys(&[
            ("field_one", IndexType::Ordered(Order::Descending)),
            ("field_three", IndexType::Hashed),
            ("field_two", IndexType::Text),
        ]),
        ..Spec::empty()
    }]);
}

#[test]
fn doc_enum_is_refused() {
    let decl = TypeDecl {
        ident: "Stuff".to_string(),
        attrs: vec![],
        type_params: 0,
        const_params: 0,
        shape: Shape::Enum,
    };
    fails(&decl, Failure::UnsupportedShape);
}

#[test]
fn doc_union_is_refused() {
    let decl = TypeDecl {
        ident: "Foo".to_string(),
        attrs: vec![],
        type_params: 0,
        const_params: 0,
        shape: Shape::Union,
    };
    fails(&decl, Failure::UnsupportedShape);
}

#[test]
fn doc_tuple_and_unit_records_are_refused() {
    for shape in [Shape::Tuple, Shape::Unit] {
        let decl = TypeDecl {
            ident: "Foo".to_string(),
            attrs: vec![],
            type_params: 0,
            const_params: 0,
            shape,
        };
        fails(&decl, Failure::UnsupportedShape);
    }
}

#[test]
fn doc_generic_type_params_are_refused() {
    let mut decl = record("GenericType", &[], vec![field("_id", &[]), field("dummy", &[])]);
    decl.type_params = 1;
    fails(&decl, Failure::UnsupportedShape);
    decl.type_params = 0;
    decl.const_params = 2;
    fails(&decl, Failure::UnsupportedShape);
    decl.const_params = 0;
    assert!(describe(&decl).is_ok());
}

#[test]
fn doc_id_skipped_in_every_way() {
    let one = record("SkippyOne", &["id_type = \"i64\""], vec![
        field("_id", &["serde(skip_serializing, skip_deserializing)"]),
        field("renamed_field", &["serde(rename = \"_id\", skip)"]),
    ]);
    let two = record("SkippyTwo", &["id_type = \"u64\""], vec![
        field("_id", &["serde(skip)"]),
        field("renamed_field", &["serde(rename = \"_id\", skip_serializing, skip_deserializing)"]),
    ]);
    let three = record("SkippyThree", &["id_type = \"u64\""], vec![
        field("_id", &["serde(skip)"]),
        field("renamed_field", &[
            "serde(rename = \"_id\")",
            "serde(skip_serializing)",
            "serde(skip_deserializing)",
        ]),
    ]);
    fails(&one, Failure::NoIdentityField);
    fails(&two, Failure::NoIdentityField);
    fails(&three, Failure::NoIdentityField);
}

#[test]
fn doc_no_id_field_after_renaming() {
    let decl = record(
        "Bar",
        &["id_type = \"String\"", "serde(rename_all = \"UPPERCASE\")"],
        vec![field("_id", &[])],
    );
    fails(&decl, Failure::NoIdentityField);
}

#[test]
fn doc_two_id_fields_are_ambiguous() {
    let decl = record("Twice", &[], vec![
        field("a", &["serde(rename = \"_id\")"]),
        field("b", &["serde(rename = \"_id\")"]),
    ]);
    fails(&decl, Failure::AmbiguousIdentityField);
}

#[test]
fn doc_unknown_rename_rule_is_refused() {
    let decl = record("Bar", &["serde(rename_all = \"Title Case\")"], vec![field("_id", &[])]);
    fails(&decl, Failure::UnknownRule);
}

#[test]
fn doc_fails_fast_without_partial_output() {
    // the second annotation is at fault; the well-formed first one is not
    // handed out
    let decl = record(
        "Indexed",
        &["index(keys(a = \"text\"))", "index(unique)", "index(keys(b = \"bogus\"))"],
        vec![field("_id", &[])],
    );
    fails(&decl, Failure::MissingRequiredSection);
}

fn refused(decl: &TypeDecl, message: &str) {
    match describe(decl) {
        Ok(d) => panic!("expected a refusal, got {:?}", d),
        Err(e) => assert_eq!(e.message, message),
    }
}

#[test]
fn compile_test() {
    // doc_enum, doc_union
    for shape in [Shape::Enum, Shape::Union] {
        let decl = TypeDecl {
            ident: "Stuff".to_string(),
            attrs: vec![],
            type_params: 0,
            const_params: 0,
            shape,
        };
        refused(
            &decl,
            "only a `struct` can be a top-level `Doc`; consider wrapping this type in a struct",
        );
    }

    // doc_generic_type_params
    let mut generic = record("GenericType", &[], vec![field("_id", &[]), field("dummy", &[])]);
    generic.type_params = 1;
    refused(&generic, "`Doc` can't be derived for a type that is generic over type parameters");

    // doc_id_skipped_1, doc_id_skipped_2, doc_id_skipped_3
    let skippy = [
        record("SkippyOne", &["id_type = \"i64\""], vec![
            field("_id", &["serde(skip_serializing, skip_deserializing)"]),
            field("renamed_field", &["serde(rename = \"_id\", skip)"]),
        ]),
        record("SkippyTwo", &["id_type = \"u64\""], vec![
            field("_id", &["serde(skip)"]),
            field("renamed_field", &[
                "serde(rename = \"_id\", skip_serializing, skip_deserializing)",
            ]),
        ]),
        record("SkippyThree", &["id_type = \"u64\""], vec![
            field("_id", &["serde(skip)"]),
            field("renamed_field", &[
                "serde(rename = \"_id\")",
                "serde(skip_serializing)",
                "serde(skip_deserializing)",
            ]),
        ]),
    ];
    for decl in &skippy {
        refused(decl, "a `Doc` must contain a field serialized as `_id`");
    }

    // doc_no_id_field
    let upper = record(
        "Bar",
        &["id_type = \"String\"", "serde(rename_all = \"UPPERCASE\")"],
        vec![field("_id", &[])],
    );
    refused(&upper, "a `Doc` must contain a field serialized as `_id`");

    // doc_bad_option
    let my_doc = record(
        "MyDoc",
        &["options(nonexistent_options = \"my_options_fn\")"],
        vec![field("_id", &[])],
    );
    assert!(describe(&my_doc).is_ok());
    let error = DocOptions::from_attributes(&my_doc.attrs).unwrap_err();
    assert_eq!(error.message, "no option method named `Doc::nonexistent_options()`");
}

#[test]
fn doc_skipped_field_is_not_read() {
    // an ill-formed renaming on a field that is always skipped is no fault
    let decl = record("Skippy", &[], vec![field("x", &["serde(skip, rename)"]), field("_id", &[])]);
    described(&decl, "Skippy", None, 1, vec![]);
    let decl = record("Skippy", &[], vec![
        field("x", &["serde(skip)", "serde(rename = 5)"]),
        field("_id", &[]),
    ]);
    described(&decl, "Skippy", None, 1, vec![]);
    let decl = record("Skippy", &[], vec![
        field("_id", &[]),
        field("x", &["serde(skip_serializing, skip_deserializing, rename(a, b))"]),
    ]);
    described(&decl, "Skippy", None, 0, vec![]);

    // the reading of the skips stops as soon as it is decided
    let decl = record("Skippy", &[], vec![
        field("x", &["serde(skip, skip_serializing = \"x\")"]),
        field("_id", &[]),
    ]);
    described(&decl, "Skippy", None, 1, vec![]);
    let decl = record("Skippy", &[], vec![
        field("x", &["serde(skip_deserializing = \"x\")"]),
        field("_id", &[]),
    ]);
    described(&decl, "Skippy", None, 1, vec![]);

    // a field that is read must be well-formed
    let decl = record("Read", &[], vec![field("x", &["serde(rename)"]), field("_id", &[])]);
    fails(&decl, Failure::GrammarViolation);
    let decl = record("Read", &[], vec![field("x", &["serde(rename = 5)"]), field("_id", &[])]);
    fails(&decl, Failure::TypeMismatch);
    let decl = record("Read", &[], vec![
        field("x", &["serde(skip_serializing, rename)"]),
        field("_id", &[]),
    ]);
    fails(&decl, Failure::GrammarViolation);
    let decl = record("Read", &[], vec![
        field("x", &["serde(skip_serializing, skip_deserializing = \"x\")"]),
        field("_id", &[]),
    ]);
    fails(&decl, Failure::GrammarViolation);
    let decl = record("Read", &[], vec![field("x", &["serde(skip = true)"]), field("_id", &[])]);
    fails(&decl, Failure::GrammarViolation);
}

#[test]
fn doc_field_descriptors() {
    let skipped = describe_field(&field("x", &["serde(skip, rename = \"_id\")"])).unwrap();
    assert_eq!(skipped, FieldDescriptor {
        identifier: "x".to_string(),
        skip_serializing: true,
        skip_deserializing: true,
        explicit_rename: None,
    });
    let read = describe_field(&field("x", &["serde(skip_serializing, rename = \"_id\")"])).unwrap();
    assert_eq!(read, FieldDescriptor {
        identifier: "x".to_string(),
        skip_serializing: false,
        skip_deserializing: false,
        explicit_rename: Some("_id".to_string()),
    });
    assert_eq!(field_is_always_skipped(&attrs(&["serde(skip)"])), Ok(true));
    assert_eq!(field_is_always_skipped(&attrs(&["serde(skip_serializing)"])), Ok(false));
    assert_eq!(
        field_is_always_skipped(&attrs(&["serde(skip_serializing)", "serde(skip_deserializing)"])),
        Ok(true)
    );
    assert_eq!(field_is_always_skipped(&attrs(&["serde(skip_deserializing)"])), Ok(false));
    assert_eq!(field_is_always_skipped(&attrs(&[])), Ok(false));
}
