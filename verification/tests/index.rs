//! Index specifications from `index(...)` annotations.

use std::str::FromStr;

use avocado_core::literal::{IndexType, Order};
use avocado_core::schema::attr::{Attribute, AttributeExt, ExtMeta, NestedExtMeta, Path};
use avocado_core::schema::error::Failure;
use avocado_core::schema::index::{keys_without, merge_keys, nodes_of, Spec};
use avocado_core::schema::meta::{
    has_meta_word, has_serde_word, list_into_names_and_values, literal_value_for_name, meta,
    name_value, serde_name_value, value_as_str,
};
use avocado_core::schema::option::{
    option_fn_name, option_index, option_return_type, DocOptions, OPTION_COUNT,
};
use avocado_core::schema::token::{Binary64, Delimiter, Literal, Spacing, Token};

fn number(text: &str) -> Option<Binary64> {
    text.parse::<f64>().ok().map(|x| Binary64 { bits: x.to_bits() })
}

fn literal(lit: proc_macro2::Literal) -> Literal {
    let text = lit.to_string();
    if text.starts_with('/') {
        return Literal::Other(text);
    }
    match syn::Lit::new(lit) {
        syn::Lit::Str(s) => {
            let value = s.value();
            let n = number(&value);
            Literal::Str(value, n)
        }
        syn::Lit::ByteStr(b) => {
            let value = b.value();
            let n = std::str::from_utf8(&value).ok().and_then(number);
            Literal::ByteStr(value, n)
        }
        syn::Lit::Int(i) => {
            let value = i.value();
            Literal::Int(value, Binary64 { bits: (value as f64).to_bits() })
        }
        syn::Lit::Float(x) => Literal::Float(Binary64 { bits: x.value().to_bits() }, text),
        syn::Lit::Bool(b) => Literal::Bool(b.value),
        _ => Literal::Other(text),
    }
}

fn convert(stream: proc_macro2::TokenStream) -> Vec<Token> {
    stream
        .into_iter()
        .map(|tt| match tt {
            proc_macro2::TokenTree::Ident(i) => Token::Ident(i.to_string()),
            proc_macro2::TokenTree::Punct(p) => Token::Punct(
                p.as_char(),
                match p.spacing() {
                    proc_macro2::Spacing::Alone => Spacing::Alone,
                    proc_macro2::Spacing::Joint => Spacing::Joint,
                },
            ),
            proc_macro2::TokenTree::Literal(l) => Token::Literal(literal(l)),
            proc_macro2::TokenTree::Group(g) => Token::Group(
                match g.delimiter() {
                    proc_macro2::Delimiter::Parenthesis => Delimiter::Parenthesis,
                    proc_macro2::Delimiter::Brace => Delimiter::Brace,
                    proc_macro2::Delimiter::Bracket => Delimiter::Bracket,
                    proc_macro2::Delimiter::None => Delimiter::Invisible,
                },
                convert(g.stream()),
            ),
        })
        .collect()
}

fn attr(source: &str) -> Attribute {
    let mut tokens = convert(proc_macro2::TokenStream::from_str(source).unwrap());
    let first = tokens.remove(0);
    let name = match first {
        Token::Ident(name) => name,
        other => panic!("an annotation starts with a name, not {:?}", other),
    };
    Attribute { path: Path { segments: vec![name] }, tokens }
}

fn spec(source: &str) -> Spec {
    Spec::from_attribute(&attr(source)).unwrap().unwrap()
}

fn fault(source: &str) -> Failure {
    Spec::from_attribute(&attr(source)).unwrap_err().kind
}

fn keys(entries: &[(&str, IndexType)]) -> Vec<(String, IndexType)> {
    entries.iter().map(|(name, ty)| (name.to_string(), *ty)).collect()
}

const ASCENDING: IndexType = IndexType::Ordered(Order::Ascending);
const DESCENDING: IndexType = IndexType::Ordered(Order::Descending);

#[test]
fn index_single_ascending_key() {
    let spec = spec("index(keys(f = \"ascending\"))");
    assert_eq!(spec.keys, keys(&[("f", ASCENDING)]));
    assert_eq!(spec.name, None);
    assert_eq!(spec.unique, None);
    assert_eq!(spec.sparse, None);
    assert_eq!(spec.default_language, None);
    assert_eq!(spec.language_override, None);
    assert_eq!(spec.bits, None);
    assert_eq!(spec.min, None);
    assert_eq!(spec.max, None);
    assert_eq!(spec.bucket_size, None);
    assert_eq!(spec, Spec { keys: keys(&[("f", ASCENDING)]), ..Spec::empty() });
}

#[test]
fn index_duplicate_key_collapses() {
    let spec = spec("index(keys(a = \"ascending\", a = \"descending\"))");
    assert_eq!(spec.keys, keys(&[("a", DESCENDING)]));
}

#[test]
fn index_later_key_moves_to_the_end() {
    let spec = spec("index(keys(a = \"text\", b = \"hashed\", c = \"2d\", a = \"descending\"))");
    assert_eq!(spec.keys, keys(&[("b", IndexType::Hashed), ("c", IndexType::Geo2D), ("a", DESCENDING)]));
}

#[test]
fn index_without_keys_is_refused() {
    assert_eq!(fault("index(unique)"), Failure::MissingRequiredSection);
    assert_eq!(fault("index()"), Failure::MissingRequiredSection);
    assert_eq!(fault("index(keys())"), Failure::MissingRequiredSection);
    assert_eq!(fault("index(name = \"n\", sparse, bits = 3)"), Failure::MissingRequiredSection);
    // a later, empty statement of the keys takes the earlier one back
    assert_eq!(fault("index(keys(a = \"text\"), keys())"), Failure::MissingRequiredSection);
}

#[test]
fn index_bits_range() {
    assert_eq!(fault("index(bits = 0, keys(a = \"2d\"))"), Failure::RangeViolation);
    assert_eq!(fault("index(bits = 33, keys(a = \"2d\"))"), Failure::RangeViolation);
    assert_eq!(spec("index(bits = 26, keys(a = \"2d\"))").bits, Some(26));
    assert_eq!(spec("index(bits = 1, keys(a = \"2d\"))").bits, Some(1));
    assert_eq!(spec("index(bits = 32, keys(a = \"2d\"))").bits, Some(32));
    assert_eq!(spec("index(bits = \"26\", keys(a = \"2d\"))").bits, Some(26));
    assert_eq!(fault("index(bits = \"-1\", keys(a = \"2d\"))"), Failure::RangeViolation);
    assert_eq!(fault("index(bits = 2.0, keys(a = \"2d\"))"), Failure::TypeMismatch);
    assert_eq!(fault("index(bits = \"many\", keys(a = \"2d\"))"), Failure::TypeMismatch);
    assert_eq!(fault("index(bits = 99999999999, keys(a = \"2d\"))"), Failure::RangeViolation);
}

#[test]
fn index_three_annotations_in_order() {
    let attrs = vec![
        attr("derive(Debug, Doc)"),
        attr("index(keys(inner = \"hashed\"))"),
        attr("serde(rename_all = \"camelCase\")"),
        attr("index(keys(rambling = \"text\"), unique)"),
        attr("index(name = \"fluffy\", unique = false, sparse, keys(_id = \"ascending\", inner = \"descending\"))"),
        attr("doc = \" not ours \""),
    ];
    assert_eq!(Spec::from_attributes(&attrs).unwrap(), vec![
        Spec { keys: keys(&[("inner", IndexType::Hashed)]), ..Spec::empty() },
        Spec { unique: Some(true), keys: keys(&[("rambling", IndexType::Text)]), ..Spec::empty() },
        Spec {
            name: Some("fluffy".to_string()),
            unique: Some(false),
            sparse: Some(true),
            keys: keys(&[("_id", ASCENDING), ("inner", DESCENDING)]),
            ..Spec::empty()
        },
    ]);
}

#[test]
fn index_annotations_fail_fast() {
    let attrs = vec![
        attr("index(keys(a = \"text\"))"),
        attr("index(bits = 40, keys(a = \"2d\"))"),
        attr("index(keys(a = \"nope\"))"),
    ];
    assert_eq!(Spec::from_attributes(&attrs).unwrap_err().kind, Failure::RangeViolation);
    assert_eq!(Spec::from_attributes(&vec![]).unwrap(), vec![]);
    assert_eq!(Spec::from_attributes(&vec![attr("serde(skip)")]).unwrap(), vec![]);
}

#[test]
fn index_other_annotations_are_passed_over() {
    for source in ["serde(rename = \"x\")", "indexes(keys(a = \"text\"))", "doc = \"index\"", "inline", "derive(a b, = c)"] {
        assert_eq!(Spec::from_attribute(&attr(source)), Ok(None), "{}", source);
    }
    let qualified = Attribute {
        path: Path { segments: vec!["avocado".to_string(), "index".to_string()] },
        tokens: vec![],
    };
    assert_eq!(Spec::from_attribute(&qualified), Ok(None));
}

#[test]
fn index_ill_formed_is_a_grammar_violation() {
    for source in [
        "index",
        "index = \"keys\"",
        "index[keys(a = \"text\")]",
        "index(keys(a = \"text\"),,)",
        "index(, keys(a = \"text\"))",
        "index(keys(a = ))",
        "index(keys(a = \"text\") unique)",
        "index(\"keys\")",
        "index(keys(a = \"text\"), 5)",
        "index(keys(a = \"text\")) extra",
        "index(keys(a))",
        "index(keys(\"text\"))",
        "index(keys(a(b)))",
    ] {
        assert_eq!(fault(source), Failure::GrammarViolation, "{}", source);
    }
}

#[test]
fn index_unknown_options() {
    for source in [
        "index(uniq, keys(a = \"text\"))",
        "index(keys, keys(a = \"text\"))",
        "index(name, keys(a = \"text\"))",
        "index(colour = \"red\", keys(a = \"text\"))",
        "index(keys = \"a\")",
        "index(unique(true), keys(a = \"text\"))",
        "index(fields(a = \"text\"))",
        "index(opts::unique, keys(a = \"text\"))",
        "index(opts::bits = 3, keys(a = \"text\"))",
    ] {
        assert_eq!(fault(source), Failure::UnknownOption, "{}", source);
    }
}

#[test]
fn index_type_mismatches() {
    for source in [
        "index(unique = \"true\", keys(a = \"text\"))",
        "index(sparse = 1, keys(a = \"text\"))",
        "index(name = 5, keys(a = \"text\"))",
        "index(name = true, keys(a = \"text\"))",
        "index(default_language = 1.5, keys(a = \"text\"))",
        "index(language_override = 'c', keys(a = \"text\"))",
        "index(min = \"west\", keys(a = \"2d\"))",
        "index(max = false, keys(a = \"2d\"))",
        "index(bucket_size = \"big\", keys(a = \"geoHaystack\"))",
        "index(keys(a = 1))",
        "index(keys(a = true))",
    ] {
        assert_eq!(fault(source), Failure::TypeMismatch, "{}", source);
    }
}

#[test]
fn index_range_violations() {
    for source in [
        "index(min = -181, keys(a = \"2d\"))",
        "index(min = \"-180.5\", keys(a = \"2d\"))",
        "index(max = 180.5, keys(a = \"2d\"))",
        "index(max = 181, keys(a = \"2d\"))",
        "index(bucket_size = 0, keys(a = \"geoHaystack\"))",
        "index(bucket_size = \"-3\", keys(a = \"geoHaystack\"))",
    ] {
        // `-181` is no literal: the sign is a token of its own
        let expected = if source.contains("= -181") {
            Failure::GrammarViolation
        } else {
            Failure::RangeViolation
        };
        assert_eq!(fault(source), expected, "{}", source);
    }
}

#[test]
fn index_unknown_index_kinds() {
    for source in [
        "index(keys(a = \"Ascending\"))",
        "index(keys(a = \"asc\"))",
        "index(keys(a = \"\"))",
        "index(keys(a = \"2D\"))",
        "index(keys(a = \"text\", b = \"geohaystack\"))",
        "index(keys(a = \"1\"))",
    ] {
        assert_eq!(fault(source), Failure::UnknownEnumValue, "{}", source);
    }
}

#[test]
fn index_every_kind_of_key() {
    let spec = spec(
        "index(keys(a = \"ascending\", b = \"descending\", c = \"text\", d = \"hashed\", \
         e = \"2d\", f = \"2dsphere\", g = b\"geoHaystack\"))",
    );
    assert_eq!(spec.keys, keys(&[
        ("a", ASCENDING),
        ("b", DESCENDING),
        ("c", IndexType::Text),
        ("d", IndexType::Hashed),
        ("e", IndexType::Geo2D),
        ("f", IndexType::Geo2DSphere),
        ("g", IndexType::GeoHaystack),
    ]));
}

#[test]
fn index_every_option() {
    let spec = spec(
        "index(unique = true, sparse = false, name = \"n\", min = 0, max = \"90\", bits = 2, \
         bucket_size = \"7\", default_language = b\"fr\", language_override = \"lang\", \
         keys(a::b = \"2d\"))",
    );
    assert_eq!(spec, Spec {
        name: Some("n".to_string()),
        unique: Some(true),
        sparse: Some(false),
        default_language: Some("fr".to_string()),
        language_override: Some("lang".to_string()),
        bits: Some(2),
        max: Some(Binary64 { bits: 90.0f64.to_bits() }),
        min: Some(Binary64 { bits: 0.0f64.to_bits() }),
        bucket_size: Some(7),
        keys: keys(&[("a.b", IndexType::Geo2D)]),
    });
}

#[test]
fn index_later_option_overrides() {
    let spec = spec("index(unique, unique = false, bits = 3, bits = 4, keys(a = \"text\"), keys(b = \"2d\"))");
    assert_eq!(spec.unique, Some(false));
    assert_eq!(spec.bits, Some(4));
    assert_eq!(spec.keys, keys(&[("b", IndexType::Geo2D)]));
}

#[test]
fn index_first_fault_wins() {
    assert_eq!(fault("index(bits = 0, colour, keys(a = \"nope\"))"), Failure::RangeViolation);
    assert_eq!(fault("index(colour, bits = 0)"), Failure::UnknownOption);
    assert_eq!(fault("index(keys(a = \"nope\", b = 1))"), Failure::UnknownEnumValue);
    assert_eq!(fault("index(keys(a = 1, b = \"nope\"))"), Failure::TypeMismatch);
    // a bare literal is found before anything is built
    assert_eq!(fault("index(bits = 0, \"x\")"), Failure::GrammarViolation);
}

#[test]
fn from_metas_on_nodes() {
    let path = |name: &str| Path { segments: vec![name.to_string()] };
    let items = vec![
        ExtMeta::Path(path("sparse")),
        ExtMeta::List(path("keys"), vec![NestedExtMeta::Meta(ExtMeta::KeyValue(
            Path { segments: vec!["a".to_string(), "b".to_string()] },
            Literal::Str("hashed".to_string(), None),
        ))]),
    ];
    assert_eq!(Spec::from_metas(&items), Ok(Spec {
        sparse: Some(true),
        keys: keys(&[("a.b", IndexType::Hashed)]),
        ..Spec::empty()
    }));
    assert_eq!(Spec::from_metas(&vec![]).unwrap_err().kind, Failure::MissingRequiredSection);
}

#[test]
fn merging_keys() {
    assert_eq!(merge_keys(&vec![]), vec![]);
    let entries = keys(&[
        ("field_one", ASCENDING),
        ("field_one", DESCENDING),
        ("field_two", IndexType::Geo2DSphere),
        ("field_three", IndexType::Hashed),
        ("field_two", IndexType::Text),
    ]);
    assert_eq!(merge_keys(&entries), keys(&[
        ("field_one", DESCENDING),
        ("field_three", IndexType::Hashed),
        ("field_two", IndexType::Text),
    ]));
    assert_eq!(keys_without(&entries, "field_one"), keys(&[
        ("field_two", IndexType::Geo2DSphere),
        ("field_three", IndexType::Hashed),
        ("field_two", IndexType::Text),
    ]));
    assert_eq!(keys_without(&entries, "field_four"), entries);
    // merging what is merged changes nothing
    assert_eq!(merge_keys(&merge_keys(&entries)), merge_keys(&entries));
}

#[test]
fn keys_list_reading() {
    let parsed = attr("keys(a = \"text\", b::c = \"2d\")").parse_ext_meta().unwrap();
    let list = match parsed {
        ExtMeta::List(_, list) => list,
        other => panic!("not a list: {:?}", other),
    };
    assert_eq!(
        list_into_names_and_values("keys", &list),
        Ok(keys(&[("a", IndexType::Text), ("b.c", IndexType::Geo2D)]))
    );
    // entries are handed out as they are written: merging comes after
    let parsed = attr("keys(a = \"text\", a = \"2d\")").parse_ext_meta().unwrap();
    let list = match parsed {
        ExtMeta::List(_, list) => list,
        other => panic!("not a list: {:?}", other),
    };
    assert_eq!(
        list_into_names_and_values("keys", &list),
        Ok(keys(&[("a", IndexType::Text), ("a", IndexType::Geo2D)]))
    );
    assert_eq!(nodes_of(list).unwrap().len(), 2);
    assert_eq!(
        nodes_of(vec![NestedExtMeta::Literal(Literal::Bool(true))]).unwrap_err().kind,
        Failure::GrammarViolation
    );
}

#[test]
fn searching_annotations() {
    let attrs = vec![
        attr("derive(Debug)"),
        attr("serde(default, rename = \"first\")"),
        attr("other(rename = \"elsewhere\", skip)"),
        attr("serde(rename = \"second\", skip)"),
        attr("id_type = \"u64\""),
    ];
    let text = |s: &str| Literal::Str(s.to_string(), None);
    assert_eq!(serde_name_value(&attrs, "rename"), Ok(Some(text("first"))));
    assert_eq!(name_value(&attrs, "other", "rename"), Ok(Some(text("elsewhere"))));
    assert_eq!(serde_name_value(&attrs, "rename_all"), Ok(None));
    assert_eq!(serde_name_value(&attrs, "skip").unwrap_err().kind, Failure::GrammarViolation);
    assert_eq!(has_serde_word(&attrs, "skip"), Ok(true));
    assert_eq!(has_serde_word(&attrs, "default"), Ok(true));
    assert_eq!(has_serde_word(&attrs, "flatten"), Ok(false));
    assert_eq!(has_serde_word(&attrs, "rename").unwrap_err().kind, Failure::GrammarViolation);
    assert_eq!(has_meta_word(&attrs, "derive", "Debug"), Ok(true));
    assert_eq!(has_meta_word(&attrs, "derive", "Clone"), Ok(false));
    assert_eq!(
        meta(&attrs, "serde", "rename").map(|m| value_as_str(&m)),
        Some(Ok("first".to_string()))
    );
    assert_eq!(meta(&attrs, "id_type", "u64"), None);
    assert_eq!(literal_value_for_name(&attrs, "id_type"), Ok(Some("u64".to_string())));
    assert_eq!(literal_value_for_name(&attrs, "collection"), Ok(None));
    assert_eq!(literal_value_for_name(&attrs, "serde").unwrap_err().kind, Failure::GrammarViolation);
    let attrs = vec![attr("id_type = 64")];
    assert_eq!(literal_value_for_name(&attrs, "id_type").unwrap_err().kind, Failure::TypeMismatch);
    assert_eq!(
        value_as_str(&ExtMeta::Path(Path { segments: vec!["x".to_string()] })).unwrap_err().kind,
        Failure::TypeMismatch
    );
}

#[test]
fn options_annotation() {
    let none = DocOptions::new();
    assert_eq!(none.callees, vec![None; OPTION_COUNT]);
    assert_eq!(DocOptions::from_attributes(&vec![]), Ok(DocOptions::new()));
    assert_eq!(DocOptions::from_attributes(&vec![attr("index(keys(a = \"text\"))")]), Ok(none));

    let attrs = vec![
        attr("derive(Doc)"),
        attr("options(query_options = \"my::find\", count_options = \"counting\")"),
        attr("options(delete_options = \"never_read\")"),
    ];
    let options = DocOptions::from_attributes(&attrs).unwrap();
    assert_eq!(options.callee(0), Some("counting"));
    assert_eq!(options.callee(3), Some("my::find"));
    assert_eq!(options.callee(5), None);
    assert_eq!(options.callee(OPTION_COUNT), None);
    assert_eq!(options.callees.iter().filter(|callee| callee.is_some()).count(), 2);

    // a later entry for one method overrides the earlier one
    let attrs = vec![attr("options(upsert_options = \"a\", upsert_options = \"b\")")];
    assert_eq!(DocOptions::from_attributes(&attrs).unwrap().callee(7), Some("b"));

    let kind = |source: &str| DocOptions::from_attributes(&vec![attr(source)]).unwrap_err().kind;
    assert_eq!(kind("options(nonexistent_options = \"my_options_fn\")"), Failure::UnknownOption);
    assert_eq!(kind("options(my::query_options = \"f\")"), Failure::UnknownOption);
    assert_eq!(kind("options(query_options)"), Failure::GrammarViolation);
    assert_eq!(kind("options(query_options = 5)"), Failure::GrammarViolation);
    assert_eq!(kind("options(query_options = b\"f\")"), Failure::GrammarViolation);
    assert_eq!(kind("options(\"query_options\")"), Failure::GrammarViolation);
    assert_eq!(kind("options(query_options(f))"), Failure::GrammarViolation);
    assert_eq!(
        kind("options(query_options = \"f\", bogus = \"g\", 7)"),
        Failure::UnknownOption
    );
    let error = DocOptions::from_attributes(&vec![attr(
        "options(nonexistent_options = \"my_options_fn\")",
    )])
    .unwrap_err();
    assert!(error.message.contains("no option method named `Doc::nonexistent_options()`"));
}

#[test]
fn options_table() {
    let names: Vec<&str> = (0..OPTION_COUNT).map(option_fn_name).collect();
    assert_eq!(names, [
        "count_options",
        "distinct_options",
        "aggregate_options",
        "query_options",
        "insert_options",
        "delete_options",
        "update_options",
        "upsert_options",
        "find_and_update_options",
    ]);
    let types: Vec<&str> = (0..OPTION_COUNT).map(option_return_type).collect();
    assert_eq!(types, [
        "::mongodb::coll::options::CountOptions",
        "::mongodb::coll::options::DistinctOptions",
        "::mongodb::coll::options::AggregateOptions",
        "::mongodb::coll::options::FindOptions",
        "::mongodb::coll::options::InsertManyOptions",
        "::mongodb::common::WriteConcern",
        "::mongodb::common::WriteConcern",
        "::mongodb::common::WriteConcern",
        "::mongodb::coll::options::FindOneAndUpdateOptions",
    ]);
    for (position, name) in names.iter().enumerate() {
        let node = ExtMeta::Path(Path { segments: vec![name.to_string()] });
        assert_eq!(option_index(&node), Some(position));
    }
    let node = ExtMeta::Path(Path { segments: vec!["options".to_string()] });
    assert_eq!(option_index(&node), None);
}

#[test]
fn search_messages_name_the_annotation_and_the_key() {
    let attrs = vec![attr("serde(skip = true, rename)")];
    assert_eq!(
        has_serde_word(&attrs, "skip").unwrap_err().message,
        "attribute must have form `#[serde(skip)]`"
    );
    assert_eq!(
        serde_name_value(&attrs, "rename").unwrap_err().message,
        "attribute must have form `#[serde(rename = \"...\")]`"
    );
}
