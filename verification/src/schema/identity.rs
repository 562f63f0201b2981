//! The identity field: the one field of a record that is serialized under
//! the name `_id`.

use vstd::prelude::*;
use crate::schema::case::RenameRule;
use crate::schema::error::{Error, Failure};
use crate::text::same_text;

verus! {

/// What the resolver reads of a field.
#[derive(Debug, Clone, PartialEq, Eq, Hash)]
pub struct FieldDescriptor {
    /// The name of the field as it is declared.
    pub identifier: String,
    /// Whether the field is left out when the record is written.
    pub skip_serializing: bool,
    /// Whether the field is left out when the record is read.
    pub skip_deserializing: bool,
    /// The name that the field itself asks to be serialized under.
    pub explicit_rename: Option<String>,
}

/// The model of a [`FieldDescriptor`].
pub ghost struct FieldView {
    pub identifier: Seq<char>,
    pub skip_serializing: bool,
    pub skip_deserializing: bool,
    pub explicit_rename: Option<Seq<char>>,
}

impl View for FieldDescriptor {
    type V = FieldView;

    open spec fn view(&self) -> FieldView {
        FieldView {
            identifier: self.identifier@,
            skip_serializing: self.skip_serializing,
            skip_deserializing: self.skip_deserializing,
            explicit_rename: match self.explicit_rename {
                Some(name) => Some(name@),
                None => None,
            },
        }
    }
}

/// The models of a sequence of field descriptors, in order.
pub open spec fn fields_view(fields: Seq<FieldDescriptor>) -> Seq<FieldView> {
    Seq::new(fields.len(), |i: int| fields[i]@)
}

impl FieldView {
    /// A field that is neither written nor read takes no part.
    pub open spec fn suppressed(self) -> bool {
        self.skip_serializing && self.skip_deserializing
    }

    /// The name that the field is serialized under: its own renaming if it
    /// has one, else what the rule of the type makes of its identifier, else
    /// the identifier.
    pub open spec fn effective_name(self, rule: Option<RenameRule>) -> Seq<char> {
        match self.explicit_rename {
            Some(name) => name,
            None => match rule {
                Some(rule) => rule.applied(self.identifier),
                None => self.identifier,
            },
        }
    }

    /// Whether the field is serialized under the identity name.
    pub open spec fn is_candidate(self, rule: Option<RenameRule>) -> bool {
        !self.suppressed() && self.effective_name(rule) == "_id"@
    }
}

/// The position of the first candidate at or after `from`, or the number
/// of fields where there is none.
pub open spec fn candidate_from(fields: Seq<FieldView>, rule: Option<RenameRule>, from: int) -> int
    decreases fields.len() - from,
{
    if from < 0 || from >= fields.len() {
        fields.len() as int
    } else if fields[from].is_candidate(rule) {
        from
    } else {
        candidate_from(fields, rule, from + 1)
    }
}

/// The position of the identity field: that of the only candidate.
pub open spec fn resolved(fields: Seq<FieldView>, rule: Option<RenameRule>) -> Result<
    int,
    Failure,
> {
    let first = candidate_from(fields, rule, 0);
    if first >= fields.len() {
        Err(Failure::NoIdentityField)
    } else if candidate_from(fields, rule, first + 1) < fields.len() {
        Err(Failure::AmbiguousIdentityField)
    } else {
        Ok(first)
    }
}

/// What `candidate_from` finds is a candidate, and nothing before it is.
pub proof fn lemma_candidate_from(fields: Seq<FieldView>, rule: Option<RenameRule>, from: int)
    requires
        0 <= from <= fields.len(),
    ensures
        from <= candidate_from(fields, rule, from) <= fields.len(),
        candidate_from(fields, rule, from) < fields.len() ==> fields[candidate_from(
            fields,
            rule,
            from,
        )].is_candidate(rule),
        forall|k: int|
            from <= k < candidate_from(fields, rule, from) ==> !(#[trigger] fields[k]).is_candidate(
                rule,
            ),
    decreases fields.len() - from,
{
    if from < fields.len() && !fields[from].is_candidate(rule) {
        lemma_candidate_from(fields, rule, from + 1);
    }
}

/// Resolution succeeds exactly when one field, and no other, is a
/// candidate, and then gives its position; it fails for want of a
/// candidate exactly when there is none, and for ambiguity exactly when
/// there are two.
pub proof fn lemma_resolved(fields: Seq<FieldView>, rule: Option<RenameRule>)
    ensures
        match resolved(fields, rule) {
            Ok(i) => {
                &&& 0 <= i < fields.len()
                &&& fields[i].is_candidate(rule)
                &&& forall|k: int|
                    0 <= k < fields.len() && k != i ==> !(#[trigger] fields[k]).is_candidate(rule)
            },
            Err(f) => {
                ||| {
                    &&& f == Failure::NoIdentityField
                    &&& forall|k: int|
                        0 <= k < fields.len() ==> !(#[trigger] fields[k]).is_candidate(rule)
                }
                ||| {
                    &&& f == Failure::AmbiguousIdentityField
                    &&& exists|j: int, k: int|
                        0 <= j < k < fields.len() && (#[trigger] fields[j]).is_candidate(rule) && (
                        #[trigger] fields[k]).is_candidate(rule)
                }
            },
        },
{
    lemma_candidate_from(fields, rule, 0);
    let first = candidate_from(fields, rule, 0);
    if first < fields.len() {
        lemma_candidate_from(fields, rule, first + 1);
        let second = candidate_from(fields, rule, first + 1);
        if second < fields.len() {
            assert(fields[first].is_candidate(rule) && fields[second].is_candidate(rule));
        }
    }
}

impl FieldDescriptor {
    /// The name that the field is serialized under.
    pub fn effective_name(&self, rule: Option<RenameRule>) -> (r: String)
        ensures
            r@ == self@.effective_name(rule),
    {
        match &self.explicit_rename {
            Some(name) => name.clone(),
            None => match rule {
                Some(rule) => rule.apply_to_field(self.identifier.clone()),
                None => self.identifier.clone(),
            },
        }
    }

    /// Whether the field is serialized under the identity name.
    pub fn is_candidate(&self, rule: Option<RenameRule>) -> (r: bool)
        ensures
            r == self@.is_candidate(rule),
    {
        if self.skip_serializing && self.skip_deserializing {
            false
        } else {
            let name = self.effective_name(rule);
            same_text(name.as_str(), "_id")
        }
    }
}

/// Finds the identity field among the fields of a record, taken in the
/// order of their declaration, and returns its position.
pub fn resolve(fields: &Vec<FieldDescriptor>, rule: Option<RenameRule>) -> (r: Result<usize, Error>)
    ensures
        match r {
            Ok(i) => resolved(fields_view(fields@), rule) == Ok::<_, Failure>(i as int),
            Err(e) => resolved(fields_view(fields@), rule) == Err::<int, _>(e.kind),
        },
{
    let ghost all = fields_view(fields@);
    let mut found: Option<usize> = None;
    let n = fields.len();
    let mut i: usize = 0;
    while i < n
        invariant
            i <= n == fields.len(),
            all == fields_view(fields@),
            match found {
                None => candidate_from(all, rule, 0) == candidate_from(all, rule, i as int),
                Some(k) => {
                    &&& k < i
                    &&& candidate_from(all, rule, 0) == k
                    &&& candidate_from(all, rule, k + 1) == candidate_from(all, rule, i as int)
                },
            },
        decreases n - i,
    {
        if fields[i].is_candidate(rule) {
            match found {
                Some(_) => {
                    return Err(
                        Error::new(
                            Failure::AmbiguousIdentityField,
                            "more than one fields serialize as `_id`",
                        ),
                    );
                },
                None => {
                    found = Some(i);
                },
            }
        }
        i += 1;
    }
    match found {
        Some(k) => Ok(k),
        None => Err(
            Error::new(
                Failure::NoIdentityField,
                "a `Doc` must contain a field serialized as `_id`",
            ),
        ),
    }
}

} // verus!
