//! The description of one annotated type: its registered name, the raw type
//! of its identity, its indexes, and its identity field.

use vstd::prelude::*;
use crate::schema::attr::{attributes_view, Attribute, AttributeView};
use crate::schema::case::RenameRule;
use crate::schema::error::{err_msg, Error, Failure};
use crate::schema::identity::{fields_view, resolve, resolved, FieldDescriptor, FieldView};
use crate::schema::index::{described_all, specs_view, Spec, SpecView};
use crate::schema::meta::{
    has_serde_word, lit_value_as_str, literal_value_for_name, named_value, outcome,
    serde_name_value, text_of, text_outcome, value_found, word_found,
};

verus! {

/// A named field as it is declared.
#[derive(Debug, PartialEq, Eq, Hash)]
pub struct Field {
    /// The name of the field.
    pub ident: String,
    /// The annotations on the field.
    pub attrs: Vec<Attribute>,
}

/// The model of a [`Field`].
pub ghost struct FieldDeclView {
    pub ident: Seq<char>,
    pub attrs: Seq<AttributeView>,
}

impl View for Field {
    type V = FieldDeclView;

    open spec fn view(&self) -> FieldDeclView {
        FieldDeclView { ident: self.ident@, attrs: attributes_view(self.attrs@) }
    }
}

/// The models of a sequence of declared fields, in order.
pub open spec fn field_decls_view(fields: Seq<Field>) -> Seq<FieldDeclView> {
    Seq::new(fields.len(), |i: int| fields[i]@)
}

/// The shape of a type declaration.
#[derive(Debug, PartialEq, Eq, Hash)]
pub enum Shape {
    /// A record with named fields.
    Named(Vec<Field>),
    /// A record whose fields have positions, not names.
    Tuple,
    /// A record without fields.
    Unit,
    /// An enumeration.
    Enum,
    /// A union.
    Union,
}

/// An annotated type declaration, as far as the description reads it.
#[derive(Debug, PartialEq, Eq, Hash)]
pub struct TypeDecl {
    /// The name of the type.
    pub ident: String,
    /// The annotations on the type.
    pub attrs: Vec<Attribute>,
    /// How many type parameters the type has.
    pub type_params: usize,
    /// How many constant parameters the type has.
    pub const_params: usize,
    /// The shape of the type.
    pub shape: Shape,
}

/// What is derived for a type.
#[derive(Debug, PartialEq, Eq, Hash)]
pub struct Description {
    /// The name under which the type is registered.
    pub name: String,
    /// The raw type of the identity as the annotation `id_type` writes it,
    /// where it is not the default.
    pub id_type: Option<String>,
    /// The indexes, in source order.
    pub indexes: Vec<Spec>,
    /// The position of the identity field among the fields.
    pub id_field: usize,
}

/// The model of a [`Description`].
pub ghost struct DescriptionView {
    pub name: Seq<char>,
    pub id_type: Option<Seq<char>>,
    pub indexes: Seq<SpecView>,
    pub id_field: int,
}

impl View for Description {
    type V = DescriptionView;

    open spec fn view(&self) -> DescriptionView {
        DescriptionView {
            name: self.name@,
            id_type: match self.id_type {
                Some(t) => Some(t@),
                None => None,
            },
            indexes: specs_view(self.indexes@),
            id_field: self.id_field as int,
        }
    }
}

/// The name that an item is serialized under: the one that its `serde`
/// annotation gives it with `rename`, else its own.
pub open spec fn renamed(attrs: Seq<AttributeView>, ident: Seq<char>) -> Result<
    Seq<char>,
    Failure,
> {
    match value_found(attrs, "serde"@, "rename"@) {
        Err(f) => Err(f),
        Ok(None) => Ok(ident),
        Ok(Some(l)) => text_of(l),
    }
}

/// The renaming that the `serde` annotation of an item gives it, if any.
pub open spec fn renaming(attrs: Seq<AttributeView>) -> Result<Option<Seq<char>>, Failure> {
    match value_found(attrs, "serde"@, "rename"@) {
        Err(f) => Err(f),
        Ok(None) => Ok(None),
        Ok(Some(l)) => match text_of(l) {
            Ok(name) => Ok(Some(name)),
            Err(f) => Err(f),
        },
    }
}

/// Whether the annotations of a field say that it is never written and
/// never read: `skip`, or both `skip_serializing` and `skip_deserializing`.
pub open spec fn always_skipped(attrs: Seq<AttributeView>) -> Result<bool, Failure> {
    match word_found(attrs, "serde"@, "skip"@) {
        Err(f) => Err(f),
        Ok(true) => Ok(true),
        Ok(false) => match word_found(attrs, "serde"@, "skip_serializing"@) {
            Err(f) => Err(f),
            Ok(false) => Ok(false),
            Ok(true) => word_found(attrs, "serde"@, "skip_deserializing"@),
        },
    }
}

/// What the resolver reads of a declared field.
///
/// Whether the field is always skipped is decided first. A field that is
/// always skipped is described as left out both ways, and nothing more is
/// read of it: an ill-formed renaming on it is no fault. Of a field that is
/// not always skipped the renaming is read; which of the two partial skips
/// it may carry is not, and it is described with neither.
pub open spec fn descriptor_of(field: FieldDeclView) -> Result<FieldView, Failure> {
    match always_skipped(field.attrs) {
        Err(f) => Err(f),
        Ok(true) => Ok(
            FieldView {
                identifier: field.ident,
                skip_serializing: true,
                skip_deserializing: true,
                explicit_rename: None,
            },
        ),
        Ok(false) => match renaming(field.attrs) {
            Err(f) => Err(f),
            Ok(rename) => Ok(
                FieldView {
                    identifier: field.ident,
                    skip_serializing: false,
                    skip_deserializing: false,
                    explicit_rename: rename,
                },
            ),
        },
    }
}

/// A field that is always skipped is no candidate, whatever else stands
/// on it.
pub proof fn lemma_skipped_field_takes_no_part(field: FieldDeclView, rule: Option<RenameRule>)
    requires
        always_skipped(field.attrs) == Ok::<bool, Failure>(true),
    ensures
        descriptor_of(field) matches Ok(d) && d.suppressed() && !d.is_candidate(rule),
{
}

/// Of a field that is not always skipped, the name decides alone: it is a
/// candidate exactly when its renaming, or else what the rule of the type
/// makes of its identifier, is the identity name.
pub proof fn lemma_read_field_is_judged_by_name(field: FieldDeclView, rule: Option<RenameRule>)
    requires
        always_skipped(field.attrs) == Ok::<bool, Failure>(false),
    ensures
        match renaming(field.attrs) {
            Err(f) => descriptor_of(field) == Err::<FieldView, _>(f),
            Ok(rename) => descriptor_of(field) matches Ok(d) && (d.is_candidate(rule) <==> (
            match rename {
                Some(name) => name,
                None => match rule {
                    Some(rule) => rule.applied(field.ident),
                    None => field.ident,
                },
            }) == "_id"@),
        },
{
}

/// What the resolver reads of each declared field, in order, or the fault
/// of the first field whose annotations are ill-formed.
pub open spec fn descriptors_of(fields: Seq<FieldDeclView>) -> Result<Seq<FieldView>, Failure>
    decreases fields.len(),
{
    if fields.len() == 0 {
        Ok(Seq::empty())
    } else {
        match descriptors_of(fields.drop_last()) {
            Err(f) => Err(f),
            Ok(front) => match descriptor_of(fields.last()) {
                Err(f) => Err(f),
                Ok(d) => Ok(front.push(d)),
            },
        }
    }
}

/// The renaming rule that the `serde` annotation of a type states with
/// `rename_all`, if any.
pub open spec fn type_rule(attrs: Seq<AttributeView>) -> Result<Option<RenameRule>, Failure> {
    match value_found(attrs, "serde"@, "rename_all"@) {
        Err(f) => Err(f),
        Ok(None) => Ok(None),
        Ok(Some(l)) => match text_of(l) {
            Err(f) => Err(f),
            Ok(text) => match RenameRule::spelled(text) {
                Some(rule) => Ok(Some(rule)),
                None => Err(Failure::UnknownRule),
            },
        },
    }
}

/// The position of the identity field of a record with the given fields
/// and annotations.
pub open spec fn identity(fields: Seq<FieldDeclView>, attrs: Seq<AttributeView>) -> Result<
    int,
    Failure,
> {
    match type_rule(attrs) {
        Err(f) => Err(f),
        Ok(rule) => match descriptors_of(fields) {
            Err(f) => Err(f),
            Ok(descriptors) => resolved(descriptors, rule),
        },
    }
}

/// Once a prefix of the fields fails, all of them fail in the same way.
pub proof fn lemma_descriptors_fail(fields: Seq<FieldDeclView>, n: int)
    requires
        0 <= n <= fields.len(),
        descriptors_of(fields.subrange(0, n)) is Err,
    ensures
        descriptors_of(fields) == descriptors_of(fields.subrange(0, n)),
    decreases fields.len() - n,
{
    if n < fields.len() {
        assert(fields.subrange(0, n + 1).drop_last() == fields.subrange(0, n));
        lemma_descriptors_fail(fields, n + 1);
    } else {
        assert(fields.subrange(0, n) == fields);
    }
}

/// The name of an item, taking the `rename` of its `serde` annotation into
/// account.
pub fn serde_renamed_ident(attrs: &Vec<Attribute>, ident: String) -> (r: Result<String, Error>)
    ensures
        text_outcome(r) == renamed(attributes_view(attrs@), ident@),
{
    match serde_name_value(attrs, "rename") {
        Err(e) => Err(e),
        Ok(None) => Ok(ident),
        Ok(Some(lit)) => lit_value_as_str("rename", &lit),
    }
}

/// Whether the field is never written and never read: it has the `serde`
/// option `skip`, or both `skip_serializing` and `skip_deserializing`.
pub fn field_is_always_skipped(attrs: &Vec<Attribute>) -> (r: Result<bool, Error>)
    ensures
        outcome(r) == always_skipped(attributes_view(attrs@)),
{
    if has_serde_word(attrs, "skip")? {
        return Ok(true);
    }
    if !has_serde_word(attrs, "skip_serializing")? {
        return Ok(false);
    }
    has_serde_word(attrs, "skip_deserializing")
}

/// Reads of a declared field what the resolver needs: first whether it is
/// always skipped, and its renaming only if it is not.
pub fn describe_field(field: &Field) -> (r: Result<FieldDescriptor, Error>)
    ensures
        match r {
            Ok(d) => descriptor_of(field@) == Ok::<_, Failure>(d@),
            Err(e) => descriptor_of(field@) == Err::<FieldView, _>(e.kind),
        },
{
    if field_is_always_skipped(&field.attrs)? {
        return Ok(
            FieldDescriptor {
                identifier: field.ident.clone(),
                skip_serializing: true,
                skip_deserializing: true,
                explicit_rename: None,
            },
        );
    }
    let explicit_rename = match serde_name_value(&field.attrs, "rename") {
        Err(e) => {
            return Err(e);
        },
        Ok(None) => None,
        Ok(Some(lit)) => Some(lit_value_as_str("rename", &lit)?),
    };
    Ok(
        FieldDescriptor {
            identifier: field.ident.clone(),
            skip_serializing: false,
            skip_deserializing: false,
            explicit_rename,
        },
    )
}

/// Reads the renaming rule of a type from its `serde` annotation.
pub fn rename_rule(attrs: &Vec<Attribute>) -> (r: Result<Option<RenameRule>, Error>)
    ensures
        outcome(r) == type_rule(attributes_view(attrs@)),
{
    match serde_name_value(attrs, "rename_all") {
        Err(e) => Err(e),
        Ok(None) => Ok(None),
        Ok(Some(lit)) => {
            let text = lit_value_as_str("rename_all", &lit)?;
            match RenameRule::from_name(text.as_str()) {
                Ok(rule) => Ok(Some(rule)),
                Err(e) => Err(e),
            }
        },
    }
}

/// The text of the `id_type = "..."` annotation: the raw type of the
/// identity, where it is not the default.
pub fn raw_id_type(attrs: &Vec<Attribute>) -> (r: Result<Option<String>, Error>)
    ensures
        match r {
            Ok(Some(text)) => named_value(attributes_view(attrs@), "id_type"@, 0) == Ok::<
                _,
                Failure,
            >(Some(text@)),
            Ok(None) => named_value(attributes_view(attrs@), "id_type"@, 0) == Ok::<
                Option<Seq<char>>,
                Failure,
            >(None),
            Err(e) => named_value(attributes_view(attrs@), "id_type"@, 0) == Err::<
                Option<Seq<char>>,
                _,
            >(e.kind),
        },
{
    literal_value_for_name(attrs, "id_type")
}

/// Checks that exactly one field is serialized as `_id`, and returns its
/// position.
pub fn ensure_id_exists_and_unique(fields: &Vec<Field>, attrs: &Vec<Attribute>) -> (r: Result<
    usize,
    Error,
>)
    ensures
        match r {
            Ok(i) => identity(field_decls_view(fields@), attributes_view(attrs@)) == Ok::<
                _,
                Failure,
            >(i as int),
            Err(e) => identity(field_decls_view(fields@), attributes_view(attrs@)) == Err::<
                int,
                _,
            >(e.kind),
        },
{
    let rule = rename_rule(attrs)?;
    let ghost all = field_decls_view(fields@);
    let mut descriptors: Vec<FieldDescriptor> = Vec::new();
    let n = fields.len();
    let mut i: usize = 0;
    proof {
        assert(fields_view(descriptors@) =~= Seq::empty());
        assert(all.subrange(0, 0).len() == 0);
    }
    while i < n
        invariant
            i <= n == fields.len(),
            all == field_decls_view(fields@),
            type_rule(attributes_view(attrs@)) == Ok::<_, Failure>(rule),
            descriptors_of(all.subrange(0, i as int)) == Ok::<_, Failure>(
                fields_view(descriptors@),
            ),
        decreases n - i,
    {
        let ghost before = descriptors@;
        proof {
            assert(all.subrange(0, i + 1).drop_last() == all.subrange(0, i as int));
            assert(all.subrange(0, i + 1).last() == fields@[i as int]@);
        }
        match describe_field(&fields[i]) {
            Ok(d) => {
                descriptors.push(d);
                proof {
                    assert(fields_view(descriptors@) =~= fields_view(before).push(d@));
                }
            },
            Err(e) => {
                proof {
                    lemma_descriptors_fail(all, i + 1);
                }
                return Err(e);
            },
        }
        i += 1;
    }
    proof {
        assert(all.subrange(0, n as int) == all);
    }
    resolve(&descriptors, rule)
}

/// Checks that a type has no type parameters and no constant parameters.
/// Lifetime parameters are permitted.
pub fn ensure_only_lifetime_params(type_params: usize, const_params: usize) -> (r: Result<
    (),
    Error,
>)
    ensures
        match r {
            Ok(_) => type_params == 0 && const_params == 0,
            Err(e) => (type_params > 0 || const_params > 0) && e.kind == Failure::UnsupportedShape,
        },
{
    if type_params > 0 {
        return err_msg(
            Failure::UnsupportedShape,
            "`Doc` can't be derived for a type that is generic over type parameters",
        );
    }
    if const_params > 0 {
        return err_msg(
            Failure::UnsupportedShape,
            "`Doc` can't be derived for a type that is generic over const parameters",
        );
    }
    Ok(())
}

/// The position of the identity field of a type of the given shape; only a
/// record with named fields has one.
pub open spec fn shape_identity(shape: Shape, attrs: Seq<AttributeView>) -> Result<int, Failure> {
    match shape {
        Shape::Named(fields) => identity(field_decls_view(fields@), attrs),
        _ => Err(Failure::UnsupportedShape),
    }
}

/// What is derived for a type declaration: the first fault among the
/// registered name, the identity type, the indexes, the parameters, the
/// shape and the identity field, or all of them.
pub open spec fn description_of(decl: TypeDecl) -> Result<DescriptionView, Failure> {
    let attrs = attributes_view(decl.attrs@);
    match renamed(attrs, decl.ident@) {
        Err(f) => Err(f),
        Ok(name) => match named_value(attrs, "id_type"@, 0) {
            Err(f) => Err(f),
            Ok(id_type) => match described_all(attrs) {
                Err(f) => Err(f),
                Ok(indexes) => if decl.type_params > 0 || decl.const_params > 0 {
                    Err(Failure::UnsupportedShape)
                } else {
                    match shape_identity(decl.shape, attrs) {
                        Err(f) => Err(f),
                        Ok(id_field) => Ok(DescriptionView { name, id_type, indexes, id_field }),
                    }
                },
            },
        },
    }
}

/// Describes an annotated type. The first fault ends the description:
/// nothing is derived for a type that has one.
pub fn describe(decl: &TypeDecl) -> (r: Result<Description, Error>)
    ensures
        match r {
            Ok(d) => description_of(*decl) == Ok::<_, Failure>(d@),
            Err(e) => description_of(*decl) == Err::<DescriptionView, _>(e.kind),
        },
{
    let name = serde_renamed_ident(&decl.attrs, decl.ident.clone())?;
    let id_type = raw_id_type(&decl.attrs)?;
    let indexes = Spec::from_attributes(&decl.attrs)?;
    match ensure_only_lifetime_params(decl.type_params, decl.const_params) {
        Err(e) => {
            return Err(e);
        },
        Ok(_) => {},
    }
    match &decl.shape {
        Shape::Named(fields) => {
            let id_field = ensure_id_exists_and_unique(fields, &decl.attrs)?;
            Ok(Description { name, id_type, indexes, id_field })
        },
        Shape::Tuple | Shape::Unit => err_msg(
            Failure::UnsupportedShape,
            "a `Doc` must be a struct with named fields",
        ),
        Shape::Enum | Shape::Union => err_msg(
            Failure::UnsupportedShape,
            "only a `struct` can be a top-level `Doc`; consider wrapping this type in a struct",
        ),
    }
}

} // verus!
