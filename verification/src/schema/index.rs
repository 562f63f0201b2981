//! Index specifications, and how an `index(...)` annotation spells one.

use vstd::prelude::*;
use crate::literal::IndexType;
use crate::schema::attr::{
    attributes_view, nested_views, Attribute, AttributeExt, AttributeView, ExtMeta, MetaView,
    NestedExtMeta, NestedView,
};
use crate::schema::error::{Error, Failure};
use crate::schema::meta::{
    bool_of, key_entries, keys_view, list_into_names_and_values,
    lit_value_as_str, ranged_integer, ranged_number, text_of, value_as_bool, value_as_f64,
    value_as_i32, Bound, Bounds, NumberRange, RangeBoundsExt,
};
use crate::schema::parse::parsed;
use crate::text::same_text;
use crate::schema::token::{Binary64, LiteralView};

verus! {

/// The parts of an index that an annotation can state.
#[derive(Debug, Clone, PartialEq, Eq, Hash)]
pub struct Spec {
    /// The name of the index, where it is not left to the database.
    pub name: Option<String>,
    /// Whether the index forbids duplicate values.
    pub unique: Option<bool>,
    /// Whether the index leaves out documents that lack the field.
    pub sparse: Option<bool>,
    /// The default language of a text index.
    pub default_language: Option<String>,
    /// The field that names the language of a document.
    pub language_override: Option<String>,
    /// The precision of the geohash of a `2d` index, from 1 to 32 bits.
    pub bits: Option<i32>,
    /// The greatest longitude and latitude, from -180 to 180.
    pub max: Option<Binary64>,
    /// The least longitude and latitude, from -180 to 180.
    pub min: Option<Binary64>,
    /// The cluster size of a `geoHaystack` index, at least 1.
    pub bucket_size: Option<i32>,
    /// The indexed field paths with their kinds, no path twice, never empty.
    pub keys: Vec<(String, IndexType)>,
}

/// The model of a [`Spec`].
pub ghost struct SpecView {
    pub name: Option<Seq<char>>,
    pub unique: Option<bool>,
    pub sparse: Option<bool>,
    pub default_language: Option<Seq<char>>,
    pub language_override: Option<Seq<char>>,
    pub bits: Option<i32>,
    pub max: Option<Binary64>,
    pub min: Option<Binary64>,
    pub bucket_size: Option<i32>,
    pub keys: Seq<(Seq<char>, IndexType)>,
}

/// The characters of an optional text.
pub open spec fn text_option_view(s: Option<String>) -> Option<Seq<char>> {
    match s {
        Some(s) => Some(s@),
        None => None,
    }
}

impl View for Spec {
    type V = SpecView;

    open spec fn view(&self) -> SpecView {
        SpecView {
            name: text_option_view(self.name),
            unique: self.unique,
            sparse: self.sparse,
            default_language: text_option_view(self.default_language),
            language_override: text_option_view(self.language_override),
            bits: self.bits,
            max: self.max,
            min: self.min,
            bucket_size: self.bucket_size,
            keys: keys_view(self.keys@),
        }
    }
}

/// The bit pattern of the double-precision number `180.0`.
pub const DEGREES_180_BITS: u64 = 0x4066_8000_0000_0000;

/// The bit pattern of the double-precision number `-180.0`.
pub const DEGREES_MINUS_180_BITS: u64 = 0xc066_8000_0000_0000;

/// The range of a longitude or latitude: from -180 to 180, ends included.
pub open spec fn degrees() -> Bounds<Binary64> {
    Bounds {
        start: Bound::Included(Binary64 { bits: DEGREES_MINUS_180_BITS }),
        end: Bound::Included(Binary64 { bits: DEGREES_180_BITS }),
    }
}

/// The range of the geohash precision: from 1 to 32, ends included.
pub open spec fn precision_bits() -> Bounds<i32> {
    Bounds { start: Bound::Included(1i32), end: Bound::Included(32i32) }
}

/// The range of a cluster size: from 1 up.
pub open spec fn positive() -> Bounds<i32> {
    Bounds { start: Bound::Included(1i32), end: Bound::Unbounded }
}

/// The keys without the one for the field path `name`.
pub open spec fn without(keys: Seq<(Seq<char>, IndexType)>, name: Seq<char>) -> Seq<
    (Seq<char>, IndexType),
>
    decreases keys.len(),
{
    if keys.len() == 0 {
        Seq::empty()
    } else if keys.last().0 == name {
        without(keys.drop_last(), name)
    } else {
        without(keys.drop_last(), name).push(keys.last())
    }
}

/// The keys after one more is stated: an earlier key for the same field
/// path is dropped, and the new one stands last.
pub open spec fn upserted(keys: Seq<(Seq<char>, IndexType)>, entry: (Seq<char>, IndexType)) -> Seq<
    (Seq<char>, IndexType),
> {
    without(keys, entry.0).push(entry)
}

/// The keys that a list of entries leaves: for each field path its last
/// entry, in the order of these last entries.
pub open spec fn merged(entries: Seq<(Seq<char>, IndexType)>) -> Seq<(Seq<char>, IndexType)>
    decreases entries.len(),
{
    if entries.len() == 0 {
        Seq::empty()
    } else {
        upserted(merged(entries.drop_last()), entries.last())
    }
}

/// A specification that states nothing.
pub open spec fn blank() -> SpecView {
    SpecView {
        name: None,
        unique: None,
        sparse: None,
        default_language: None,
        language_override: None,
        bits: None,
        max: None,
        min: None,
        bucket_size: None,
        keys: Seq::empty(),
    }
}

/// Whether a path is the single name `name`.
pub open spec fn is_name(path: Seq<Seq<char>>, name: Seq<char>) -> bool {
    path == seq![name]
}

/// What a word alone adds to a specification: `unique` and `sparse` set
/// their flag.
pub open spec fn with_word(spec: SpecView, path: Seq<Seq<char>>) -> Result<SpecView, Failure> {
    if is_name(path, "unique"@) {
        Ok(SpecView { unique: Some(true), ..spec })
    } else if is_name(path, "sparse"@) {
        Ok(SpecView { sparse: Some(true), ..spec })
    } else {
        Err(Failure::UnknownOption)
    }
}

/// What a key-value pair adds to a specification.
pub open spec fn with_value(
    spec: SpecView,
    path: Seq<Seq<char>>,
    lit: LiteralView,
) -> Result<SpecView, Failure> {
    if is_name(path, "unique"@) {
        match bool_of(lit) {
            Ok(b) => Ok(SpecView { unique: Some(b), ..spec }),
            Err(f) => Err(f),
        }
    } else if is_name(path, "sparse"@) {
        match bool_of(lit) {
            Ok(b) => Ok(SpecView { sparse: Some(b), ..spec }),
            Err(f) => Err(f),
        }
    } else if is_name(path, "name"@) {
        match text_of(lit) {
            Ok(s) => Ok(SpecView { name: Some(s), ..spec }),
            Err(f) => Err(f),
        }
    } else if is_name(path, "min"@) {
        match ranged_number(lit, degrees()) {
            Ok(x) => Ok(SpecView { min: Some(x), ..spec }),
            Err(f) => Err(f),
        }
    } else if is_name(path, "max"@) {
        match ranged_number(lit, degrees()) {
            Ok(x) => Ok(SpecView { max: Some(x), ..spec }),
            Err(f) => Err(f),
        }
    } else if is_name(path, "bits"@) {
        match ranged_integer(lit, precision_bits()) {
            Ok(n) => Ok(SpecView { bits: Some(n), ..spec }),
            Err(f) => Err(f),
        }
    } else if is_name(path, "bucket_size"@) {
        match ranged_integer(lit, positive()) {
            Ok(n) => Ok(SpecView { bucket_size: Some(n), ..spec }),
            Err(f) => Err(f),
        }
    } else if is_name(path, "default_language"@) {
        match text_of(lit) {
            Ok(s) => Ok(SpecView { default_language: Some(s), ..spec }),
            Err(f) => Err(f),
        }
    } else if is_name(path, "language_override"@) {
        match text_of(lit) {
            Ok(s) => Ok(SpecView { language_override: Some(s), ..spec }),
            Err(f) => Err(f),
        }
    } else {
        Err(Failure::UnknownOption)
    }
}

/// What a list adds to a specification: `keys(...)` states the keys anew.
pub open spec fn with_list(spec: SpecView, path: Seq<Seq<char>>, items: Seq<NestedView>) -> Result<
    SpecView,
    Failure,
> {
    if is_name(path, "keys"@) {
        match key_entries(items) {
            Ok(entries) => Ok(SpecView { keys: merged(entries), ..spec }),
            Err(f) => Err(f),
        }
    } else {
        Err(Failure::UnknownOption)
    }
}

/// What one item of an `index(...)` annotation adds to a specification.
pub open spec fn with_item(spec: SpecView, item: MetaView) -> Result<SpecView, Failure> {
    match item {
        MetaView::Path(path) => with_word(spec, path),
        MetaView::KeyValue(path, lit) => with_value(spec, path, lit),
        MetaView::List(path, items) => with_list(spec, path, items),
    }
}

/// What the items add to a specification, one after the other; the first
/// fault ends it.
pub open spec fn folded(spec: SpecView, items: Seq<MetaView>) -> Result<SpecView, Failure>
    decreases items.len(),
{
    if items.len() == 0 {
        Ok(spec)
    } else {
        match folded(spec, items.drop_last()) {
            Ok(so_far) => with_item(so_far, items.last()),
            Err(f) => Err(f),
        }
    }
}

/// The specification that the items of an `index(...)` annotation state.
/// It must name at least one key.
pub open spec fn built(items: Seq<MetaView>) -> Result<SpecView, Failure> {
    match folded(blank(), items) {
        Ok(spec) => if spec.keys.len() == 0 {
            Err(Failure::MissingRequiredSection)
        } else {
            Ok(spec)
        },
        Err(f) => Err(f),
    }
}

/// The models of a sequence of nodes, in order.
pub open spec fn metas_view(items: Seq<ExtMeta>) -> Seq<MetaView> {
    Seq::new(items.len(), |i: int| items[i]@)
}

/// The nodes among the elements of a list, where all of them are nodes.
pub open spec fn inner_metas(nested: Seq<NestedView>) -> Result<Seq<MetaView>, Failure> {
    if forall|i: int| 0 <= i < nested.len() ==> #[trigger] nested[i] is Meta {
        Ok(Seq::new(nested.len(), |i: int| nested[i]->Meta_0))
    } else {
        Err(Failure::GrammarViolation)
    }
}

/// Takes the nodes out of the elements of a list. A bare literal among
/// them is a fault.
pub fn nodes_of(nested: Vec<NestedExtMeta>) -> (r: Result<Vec<ExtMeta>, Error>)
    ensures
        match r {
            Ok(metas) => inner_metas(nested_views(nested@)) == Ok::<_, Failure>(
                metas_view(metas@),
            ),
            Err(e) => inner_metas(nested_views(nested@)) == Err::<Seq<MetaView>, _>(e.kind),
        },
{
    let ghost all = nested_views(nested@);
    let mut metas: Vec<ExtMeta> = Vec::new();
    for item in iter: nested
        invariant
            all == nested_views(iter.seq()),
            metas.len() == iter.index(),
            forall|k: int| 0 <= k < metas.len() ==> all[k] == NestedView::Meta(#[trigger] metas@[k]@),
    {
        match item {
            NestedExtMeta::Meta(meta) => {
                proof {
                    assert(all[iter.index() as int] == item@);
                }
                metas.push(meta);
            },
            NestedExtMeta::Literal(_) => {
                proof {
                    assert(all[iter.index() as int] == item@);
                    assert(!(all[iter.index() as int] is Meta));
                }
                return Err(
                    Error::new(Failure::GrammarViolation, "expected a meta item, found a literal"),
                );
            },
        }
    }
    proof {
        assert forall|i: int| 0 <= i < all.len() implies #[trigger] all[i] is Meta by {
            assert(all[i] == NestedView::Meta(metas@[i]@));
        }
        assert(metas_view(metas@) =~= Seq::new(all.len(), |i: int| all[i]->Meta_0));
    }
    Ok(metas)
}

/// Once a prefix of the items fails, all of them fail in the same way.
pub proof fn lemma_folded_fail(spec: SpecView, items: Seq<MetaView>, n: int)
    requires
        0 <= n <= items.len(),
        folded(spec, items.subrange(0, n)) is Err,
    ensures
        folded(spec, items) == folded(spec, items.subrange(0, n)),
    decreases items.len() - n,
{
    if n < items.len() {
        assert(items.subrange(0, n + 1).drop_last() == items.subrange(0, n));
        lemma_folded_fail(spec, items, n + 1);
    } else {
        assert(items.subrange(0, n) == items);
    }
}

/// The keys without the one for the field path `name`.
pub fn keys_without(keys: &Vec<(String, IndexType)>, name: &str) -> (r: Vec<(String, IndexType)>)
    ensures
        keys_view(r@) == without(keys_view(keys@), name@),
{
    let ghost all = keys_view(keys@);
    let mut out: Vec<(String, IndexType)> = Vec::new();
    let n = keys.len();
    let mut i: usize = 0;
    proof {
        assert(keys_view(out@) =~= Seq::empty());
        assert(all.subrange(0, 0).len() == 0);
    }
    while i < n
        invariant
            i <= n == keys.len(),
            all == keys_view(keys@),
            keys_view(out@) == without(all.subrange(0, i as int), name@),
        decreases n - i,
    {
        let ghost before = out@;
        proof {
            assert(all.subrange(0, i + 1).drop_last() == all.subrange(0, i as int));
            assert(all.subrange(0, i + 1).last() == (keys@[i as int].0@, keys@[i as int].1));
        }
        if !same_text(keys[i].0.as_str(), name) {
            out.push((keys[i].0.clone(), keys[i].1));
            proof {
                assert(keys_view(out@) =~= keys_view(before).push(
                    (keys@[i as int].0@, keys@[i as int].1),
                ));
            }
        }
        i += 1;
    }
    proof {
        assert(all.subrange(0, n as int) == all);
    }
    out
}

/// The keys that a list of entries leaves: a later entry for a field path
/// replaces the earlier one and stands where the later one stood.
pub fn merge_keys(entries: &Vec<(String, IndexType)>) -> (r: Vec<(String, IndexType)>)
    ensures
        keys_view(r@) == merged(keys_view(entries@)),
{
    let ghost all = keys_view(entries@);
    let mut out: Vec<(String, IndexType)> = Vec::new();
    let n = entries.len();
    let mut i: usize = 0;
    proof {
        assert(keys_view(out@) =~= Seq::empty());
        assert(all.subrange(0, 0).len() == 0);
    }
    while i < n
        invariant
            i <= n == entries.len(),
            all == keys_view(entries@),
            keys_view(out@) == merged(all.subrange(0, i as int)),
        decreases n - i,
    {
        proof {
            assert(all.subrange(0, i + 1).drop_last() == all.subrange(0, i as int));
            assert(all.subrange(0, i + 1).last() == (entries@[i as int].0@, entries@[i as int].1));
        }
        let mut next = keys_without(&out, entries[i].0.as_str());
        let ghost kept = next@;
        next.push((entries[i].0.clone(), entries[i].1));
        proof {
            assert(keys_view(next@) =~= keys_view(kept).push(
                (entries@[i as int].0@, entries@[i as int].1),
            ));
        }
        out = next;
        i += 1;
    }
    proof {
        assert(all.subrange(0, n as int) == all);
    }
    out
}

impl Spec {
    /// A specification that states nothing.
    pub fn empty() -> (r: Spec)
        ensures
            r@ == blank(),
    {
        let r = Spec {
            name: None,
            unique: None,
            sparse: None,
            default_language: None,
            language_override: None,
            bits: None,
            max: None,
            min: None,
            bucket_size: None,
            keys: Vec::new(),
        };
        proof {
            assert(keys_view(r.keys@) =~= Seq::empty());
        }
        r
    }

    /// Builds a specification from the items of an `index(...)` annotation.
    ///
    /// The items are taken in order, a later one overriding an earlier one
    /// for the same option; the first faulty item ends the building. The
    /// result names at least one key.
    pub fn from_metas(inner_metas: &Vec<ExtMeta>) -> (r: Result<Spec, Error>)
        ensures
            match r {
                Ok(spec) => built(metas_view(inner_metas@)) == Ok::<_, Failure>(spec@),
                Err(e) => built(metas_view(inner_metas@)) == Err::<SpecView, _>(e.kind),
            },
            r matches Ok(spec) ==> spec@.well_formed(),
    {
        let ghost items = metas_view(inner_metas@);
        proof {
            lemma_built_well_formed(items);
        }
        let degrees = NumberRange {
            bounds: Bounds {
                start: Bound::Included(Binary64 { bits: DEGREES_MINUS_180_BITS }),
                end: Bound::Included(Binary64 { bits: DEGREES_180_BITS }),
            },
            shown: "-180.0..=180.0",
        };
        let precision_bits = Bounds { start: Bound::Included(1i32), end: Bound::Included(32i32) };
        let positive = Bounds { start: Bound::Included(1i32), end: Bound::Unbounded };
        let mut spec = Spec::empty();
        let n = inner_metas.len();
        let mut i: usize = 0;
        proof {
            assert(items.subrange(0, 0).len() == 0);
        }
        while i < n
            invariant
                i <= n == inner_metas.len(),
                items == metas_view(inner_metas@),
                degrees.bounds == self::degrees(),
                precision_bits == self::precision_bits(),
                positive == self::positive(),
                folded(blank(), items.subrange(0, i as int)) == Ok::<_, Failure>(spec@),
            decreases n - i,
        {
            let inner_meta = &inner_metas[i];
            let path_str = inner_meta.path_str();
            let key = path_str.as_str();
            let ghost before = spec@;
            proof {
                assert(items.subrange(0, i + 1).drop_last() == items.subrange(0, i as int));
                assert(items.subrange(0, i + 1).last() == inner_meta@);
            }
            let step: Result<(), Error> = match inner_meta {
                ExtMeta::Path(path) => {
                    if path.is_name("unique") {
                        spec.unique = Some(true);
                        Ok(())
                    } else if path.is_name("sparse") {
                        spec.sparse = Some(true);
                        Ok(())
                    } else {
                        Err(Error::about(Failure::UnknownOption, "bad path attribute: ", key, ""))
                    }
                },
                ExtMeta::KeyValue(path, lit) => {
                    if path.is_name("unique") {
                        match value_as_bool(key, lit) {
                            Ok(b) => {
                                spec.unique = Some(b);
                                Ok(())
                            },
                            Err(e) => Err(e),
                        }
                    } else if path.is_name("sparse") {
                        match value_as_bool(key, lit) {
                            Ok(b) => {
                                spec.sparse = Some(b);
                                Ok(())
                            },
                            Err(e) => Err(e),
                        }
                    } else if path.is_name("name") {
                        match lit_value_as_str(key, lit) {
                            Ok(s) => {
                                spec.name = Some(s);
                                Ok(())
                            },
                            Err(e) => Err(e),
                        }
                    } else if path.is_name("min") {
                        match value_as_f64(key, lit, &degrees) {
                            Ok(x) => {
                                spec.min = Some(x);
                                Ok(())
                            },
                            Err(e) => Err(e),
                        }
                    } else if path.is_name("max") {
                        match value_as_f64(key, lit, &degrees) {
                            Ok(x) => {
                                spec.max = Some(x);
                                Ok(())
                            },
                            Err(e) => Err(e),
                        }
                    } else if path.is_name("bits") {
                        match value_as_i32(key, lit, &precision_bits) {
                            Ok(v) => {
                                spec.bits = Some(v);
                                Ok(())
                            },
                            Err(e) => Err(e),
                        }
                    } else if path.is_name("bucket_size") {
                        match value_as_i32(key, lit, &positive) {
                            Ok(v) => {
                                spec.bucket_size = Some(v);
                                Ok(())
                            },
                            Err(e) => Err(e),
                        }
                    } else if path.is_name("default_language") {
                        match lit_value_as_str(key, lit) {
                            Ok(s) => {
                                spec.default_language = Some(s);
                                Ok(())
                            },
                            Err(e) => Err(e),
                        }
                    } else if path.is_name("language_override") {
                        match lit_value_as_str(key, lit) {
                            Ok(s) => {
                                spec.language_override = Some(s);
                                Ok(())
                            },
                            Err(e) => Err(e),
                        }
                    } else {
                        Err(
                            Error::about(
                                Failure::UnknownOption,
                                "bad name-value attribute: ",
                                key,
                                "",
                            ),
                        )
                    }
                },
                ExtMeta::List(path, list) => {
                    if path.is_name("keys") {
                        match list_into_names_and_values(key, list) {
                            Ok(pairs) => {
                                spec.keys = merge_keys(&pairs);
                                Ok(())
                            },
                            Err(e) => Err(e),
                        }
                    } else {
                        Err(Error::about(Failure::UnknownOption, "bad list attribute: ", key, ""))
                    }
                },
            };
            match step {
                Ok(()) => {
                    assert(with_item(before, inner_meta@) == Ok::<_, Failure>(spec@));
                },
                Err(e) => {
                    assert(with_item(before, inner_meta@) == Err::<SpecView, _>(e.kind));
                    proof {
                        lemma_folded_fail(blank(), items, i + 1);
                    }
                    return Err(e);
                },
            }
            i += 1;
        }
        proof {
            assert(items.subrange(0, n as int) == items);
        }
        if spec.keys.len() == 0 {
            Err(
                Error::new(
                    Failure::MissingRequiredSection,
                    "at least one field must be specified for indexing",
                ),
            )
        } else {
            Ok(spec)
        }
    }
}

/// The specification that one annotation states. An annotation that is
/// not called `index` states none, which is no fault; one that is called
/// `index` must be a list of well-formed items.
pub open spec fn described(attr: AttributeView) -> Result<Option<SpecView>, Failure> {
    if !is_name(attr.path, "index"@) {
        Ok(None)
    } else {
        match parsed(attr.path, attr.tokens) {
            Some(MetaView::List(_, nested)) => match inner_metas(nested) {
                Ok(items) => match built(items) {
                    Ok(spec) => Ok(Some(spec)),
                    Err(f) => Err(f),
                },
                Err(f) => Err(f),
            },
            _ => Err(Failure::GrammarViolation),
        }
    }
}

/// The specifications that the annotations of a type state, in source
/// order; the first faulty `index` annotation ends it.
pub open spec fn described_all(attrs: Seq<AttributeView>) -> Result<Seq<SpecView>, Failure>
    decreases attrs.len(),
{
    if attrs.len() == 0 {
        Ok(Seq::empty())
    } else {
        match described_all(attrs.drop_last()) {
            Err(f) => Err(f),
            Ok(front) => match described(attrs.last()) {
                Err(f) => Err(f),
                Ok(None) => Ok(front),
                Ok(Some(spec)) => Ok(front.push(spec)),
            },
        }
    }
}

/// The models of a sequence of specifications, in order.
pub open spec fn specs_view(specs: Seq<Spec>) -> Seq<SpecView> {
    Seq::new(specs.len(), |i: int| specs[i]@)
}

/// Once a prefix of the annotations fails, all of them fail in the same
/// way.
pub proof fn lemma_described_all_fail(attrs: Seq<AttributeView>, n: int)
    requires
        0 <= n <= attrs.len(),
        described_all(attrs.subrange(0, n)) is Err,
    ensures
        described_all(attrs) == described_all(attrs.subrange(0, n)),
    decreases attrs.len() - n,
{
    if n < attrs.len() {
        assert(attrs.subrange(0, n + 1).drop_last() == attrs.subrange(0, n));
        lemma_described_all_fail(attrs, n + 1);
    } else {
        assert(attrs.subrange(0, n) == attrs);
    }
}

impl Spec {
    /// Reads one annotation.
    ///
    /// Returns `Ok(None)` for an annotation that is not called `index`,
    /// `Ok(Some(..))` for a well-formed `index(...)`, and an error for an
    /// `index` annotation that is ill-formed.
    pub fn from_attribute(attr: &Attribute) -> (r: Result<Option<Spec>, Error>)
        ensures
            match r {
                Ok(Some(spec)) => described(attr@) == Ok::<_, Failure>(Some(spec@)),
                Ok(None) => described(attr@) == Ok::<Option<SpecView>, Failure>(None),
                Err(e) => described(attr@) == Err::<Option<SpecView>, _>(e.kind),
            },
    {
        if !attr.path.is_name("index") {
            return Ok(None);
        }
        match attr.parse_ext_meta() {
            Some(ExtMeta::List(_, nested)) => {
                let metas = match nodes_of(nested) {
                    Ok(metas) => metas,
                    Err(e) => {
                        return Err(e);
                    },
                };
                match Spec::from_metas(&metas) {
                    Ok(spec) => Ok(Some(spec)),
                    Err(e) => Err(e),
                }
            },
            _ => Err(
                Error::new(
                    Failure::GrammarViolation,
                    "attribute must be of the form `#[index(...)]`",
                ),
            ),
        }
    }

    /// Reads all the annotations of a type: one specification for each
    /// `index(...)` among them, in source order. Other annotations are
    /// passed over; the first ill-formed `index` annotation ends the
    /// reading, and nothing is returned but its error.
    pub fn from_attributes(attrs: &Vec<Attribute>) -> (r: Result<Vec<Spec>, Error>)
        ensures
            match r {
                Ok(specs) => described_all(attributes_view(attrs@)) == Ok::<_, Failure>(
                    specs_view(specs@),
                ),
                Err(e) => described_all(attributes_view(attrs@)) == Err::<Seq<SpecView>, _>(
                    e.kind,
                ),
            },
    {
        let ghost all = attributes_view(attrs@);
        let mut specs: Vec<Spec> = Vec::new();
        let n = attrs.len();
        let mut i: usize = 0;
        proof {
            assert(specs_view(specs@) =~= Seq::empty());
            assert(all.subrange(0, 0).len() == 0);
        }
        while i < n
            invariant
                i <= n == attrs.len(),
                all == attributes_view(attrs@),
                described_all(all.subrange(0, i as int)) == Ok::<_, Failure>(specs_view(specs@)),
            decreases n - i,
        {
            let ghost before = specs@;
            proof {
                assert(all.subrange(0, i + 1).drop_last() == all.subrange(0, i as int));
                assert(all.subrange(0, i + 1).last() == attrs@[i as int]@);
            }
            match Spec::from_attribute(&attrs[i]) {
                Ok(Some(spec)) => {
                    specs.push(spec);
                    proof {
                        assert(specs_view(specs@) =~= specs_view(before).push(spec@));
                    }
                },
                Ok(None) => {},
                Err(e) => {
                    proof {
                        lemma_described_all_fail(all, i + 1);
                    }
                    return Err(e);
                },
            }
            i += 1;
        }
        proof {
            assert(all.subrange(0, n as int) == all);
        }
        Ok(specs)
    }
}

/// Whether an item states the keys of the index.
pub open spec fn states_keys(item: MetaView) -> bool {
    item matches MetaView::List(path, _) && is_name(path, "keys"@)
}

/// Items that state no keys leave the keys as they were.
pub proof fn lemma_keys_untouched(spec: SpecView, items: Seq<MetaView>)
    requires
        forall|i: int| 0 <= i < items.len() ==> !states_keys(#[trigger] items[i]),
    ensures
        folded(spec, items) matches Ok(after) ==> after.keys == spec.keys,
    decreases items.len(),
{
    if items.len() > 0 {
        let front = items.drop_last();
        assert forall|i: int| 0 <= i < front.len() implies !states_keys(#[trigger] front[i]) by {
            assert(front[i] == items[i]);
        }
        lemma_keys_untouched(spec, front);
        assert(!states_keys(items[items.len() - 1]));
    }
}

/// An annotation that never states its keys specifies no index: where no
/// item is at fault, the keys are what is found missing.
pub proof fn lemma_no_keys_no_spec(items: Seq<MetaView>)
    requires
        forall|i: int| 0 <= i < items.len() ==> !states_keys(#[trigger] items[i]),
    ensures
        built(items) is Err,
        folded(blank(), items) is Ok ==> built(items) == Err::<SpecView, _>(
            Failure::MissingRequiredSection,
        ),
{
    lemma_keys_untouched(blank(), items);
}

/// An annotation whose last statement of the keys is `keys()` specifies no
/// index either.
pub proof fn lemma_empty_keys_no_spec(items: Seq<MetaView>, path: Seq<Seq<char>>)
    requires
        is_name(path, "keys"@),
    ensures
        built(items.push(MetaView::List(path, Seq::empty()))) is Err,
        folded(blank(), items) is Ok ==> built(items.push(MetaView::List(path, Seq::empty())))
            == Err::<SpecView, _>(Failure::MissingRequiredSection),
{
    let all = items.push(MetaView::List(path, Seq::empty()));
    assert(all.drop_last() == items);
    assert(key_entries(Seq::<NestedView>::empty()) == Ok::<_, Failure>(
        Seq::<(Seq<char>, IndexType)>::empty(),
    ));
}

/// The geohash precision is accepted from 1 to 32 and stored as it is
/// written; any other integer is outside the range.
pub proof fn lemma_bits_range(spec: SpecView, v: u64, widened: Binary64)
    ensures
        with_value(spec, seq!["bits"@], LiteralView::Int(v, widened)) == (if 1
            <= v <= 32 {
            Ok::<_, Failure>(SpecView { bits: Some(v as i32), ..spec })
        } else {
            Err::<SpecView, _>(Failure::RangeViolation)
        }),
{
    reveal_strlit("bits");
    reveal_strlit("unique");
    reveal_strlit("sparse");
    reveal_strlit("name");
    reveal_strlit("min");
    reveal_strlit("max");
    let path = seq!["bits"@];
    assert(path[0] == "bits"@);
    assert(seq!["unique"@][0] == "unique"@);
    assert(seq!["sparse"@][0] == "sparse"@);
    assert(seq!["name"@][0] == "name"@);
    assert(seq!["min"@][0] == "min"@);
    assert(seq!["max"@][0] == "max"@);
    assert("bits"@.len() == 4);
    assert("min"@.len() == 3);
    assert("max"@.len() == 3);
    assert("unique"@.len() == 6);
    assert("sparse"@.len() == 6);
    assert("name"@[0] == 'n');
    assert("bits"@[0] == 'b');
}

/// No field path stands twice among the keys.
pub open spec fn distinct_paths(keys: Seq<(Seq<char>, IndexType)>) -> bool {
    forall|i: int, j: int| 0 <= i < j < keys.len() ==> keys[i].0 != keys[j].0
}

/// The key stands among the keys.
pub open spec fn holds_key(keys: Seq<(Seq<char>, IndexType)>, key: (Seq<char>, IndexType)) -> bool {
    exists|i: int| 0 <= i < keys.len() && keys[i] == key
}

/// A key for the field path stands among the keys.
pub open spec fn holds_path(keys: Seq<(Seq<char>, IndexType)>, name: Seq<char>) -> bool {
    exists|i: int| 0 <= i < keys.len() && keys[i].0 == name
}

/// Removing a field path removes it, and adds nothing.
pub proof fn lemma_without_absent(keys: Seq<(Seq<char>, IndexType)>, name: Seq<char>)
    ensures
        !holds_path(without(keys, name), name),
        without(keys, name).len() <= keys.len(),
        forall|i: int|
            0 <= i < without(keys, name).len() ==> holds_key(
                keys,
                #[trigger] without(keys, name)[i],
            ),
    decreases keys.len(),
{
    if keys.len() > 0 {
        let front = keys.drop_last();
        lemma_without_absent(front, name);
        let w = without(keys, name);
        let wf = without(front, name);
        assert forall|i: int| 0 <= i < w.len() implies holds_key(keys, #[trigger] w[i]) by {
            if i < wf.len() {
                assert(holds_key(front, wf[i]));
                let k = choose|k: int| 0 <= k < front.len() && front[k] == wf[i];
                assert(keys[k] == w[i]);
            } else {
                assert(keys[keys.len() - 1] == w[i]);
            }
        }
        if holds_path(w, name) {
            let i = choose|i: int| 0 <= i < w.len() && w[i].0 == name;
            if i < wf.len() {
                assert(wf[i].0 == name);
                assert(holds_path(wf, name));
            }
        }
    }
}

/// Removing a field path keeps every key for another field path.
pub proof fn lemma_without_keeps(keys: Seq<(Seq<char>, IndexType)>, name: Seq<char>, k: int)
    requires
        0 <= k < keys.len(),
        keys[k].0 != name,
    ensures
        holds_key(without(keys, name), keys[k]),
    decreases keys.len(),
{
    let front = keys.drop_last();
    let w = without(keys, name);
    if k < front.len() {
        lemma_without_keeps(front, name, k);
        let i = choose|i: int| 0 <= i < without(front, name).len() && without(front, name)[i]
            == front[k];
        assert(w[i] == keys[k]);
    } else {
        assert(w[w.len() - 1] == keys[k]);
    }
}

/// Removing a field path keeps apart what was apart.
pub proof fn lemma_without_distinct(keys: Seq<(Seq<char>, IndexType)>, name: Seq<char>)
    requires
        distinct_paths(keys),
    ensures
        distinct_paths(without(keys, name)),
    decreases keys.len(),
{
    if keys.len() > 0 {
        let front = keys.drop_last();
        assert(distinct_paths(front)) by {
            assert forall|i: int, j: int| 0 <= i < j < front.len() implies front[i].0
                != front[j].0 by {
                assert(front[i] == keys[i] && front[j] == keys[j]);
            }
        }
        lemma_without_distinct(front, name);
        lemma_without_absent(front, name);
        let w = without(keys, name);
        let wf = without(front, name);
        assert forall|i: int, j: int| 0 <= i < j < w.len() implies w[i].0 != w[j].0 by {
            if j < wf.len() {
                assert(w[i] == wf[i] && w[j] == wf[j]);
            } else {
                assert(w[i] == wf[i]);
                assert(holds_key(front, wf[i]));
                let k = choose|k: int| 0 <= k < front.len() && front[k] == wf[i];
                assert(keys[k].0 != keys[keys.len() - 1].0);
            }
        }
    }
}

/// Merging leaves no field path twice.
pub proof fn lemma_merged_distinct(entries: Seq<(Seq<char>, IndexType)>)
    ensures
        distinct_paths(merged(entries)),
    decreases entries.len(),
{
    if entries.len() > 0 {
        let front = entries.drop_last();
        let last = entries.last();
        lemma_merged_distinct(front);
        lemma_without_distinct(merged(front), last.0);
        lemma_without_absent(merged(front), last.0);
        let w = without(merged(front), last.0);
        let m = merged(entries);
        assert forall|i: int, j: int| 0 <= i < j < m.len() implies m[i].0 != m[j].0 by {
            if j < w.len() {
                assert(m[i] == w[i] && m[j] == w[j]);
            } else {
                assert(m[i] == w[i]);
                if w[i].0 == last.0 {
                    assert(holds_path(w, last.0));
                }
            }
        }
    }
}

/// Merging keeps the last entry of the list, and puts it last.
pub proof fn lemma_merged_last(entries: Seq<(Seq<char>, IndexType)>)
    requires
        entries.len() > 0,
    ensures
        merged(entries).len() > 0,
        merged(entries).last() == entries.last(),
        merged(entries).len() <= entries.len(),
    decreases entries.len(),
{
    let front = entries.drop_last();
    if front.len() > 0 {
        lemma_merged_last(front);
    }
    lemma_without_absent(merged(front), entries.last().0);
}

/// Every key that merging leaves is an entry of the list.
pub proof fn lemma_merged_from_entries(entries: Seq<(Seq<char>, IndexType)>, i: int)
    requires
        0 <= i < merged(entries).len(),
    ensures
        holds_key(entries, merged(entries)[i]),
    decreases entries.len(),
{
    let front = entries.drop_last();
    let last = entries.last();
    let w = without(merged(front), last.0);
    if i < w.len() {
        lemma_without_absent(merged(front), last.0);
        assert(holds_key(merged(front), w[i]));
        let a = choose|a: int| 0 <= a < merged(front).len() && merged(front)[a] == w[i];
        lemma_merged_from_entries(front, a);
        let k = choose|k: int| 0 <= k < front.len() && front[k] == merged(front)[a];
        assert(entries[k] == merged(entries)[i]);
    } else {
        assert(entries[entries.len() - 1] == merged(entries)[i]);
    }
}

/// Every field path that the entries name has a key after merging.
pub proof fn lemma_merged_covers(entries: Seq<(Seq<char>, IndexType)>, k: int)
    requires
        0 <= k < entries.len(),
    ensures
        holds_path(merged(entries), entries[k].0),
    decreases entries.len(),
{
    let front = entries.drop_last();
    let last = entries.last();
    let w = without(merged(front), last.0);
    let m = merged(entries);
    if k < front.len() && entries[k].0 != last.0 {
        assert(front[k] == entries[k]);
        lemma_merged_covers(front, k);
        let a = choose|a: int| 0 <= a < merged(front).len() && merged(front)[a].0 == front[k].0;
        lemma_without_keeps(merged(front), last.0, a);
        let i = choose|i: int| 0 <= i < w.len() && w[i] == merged(front)[a];
        assert(m[i].0 == entries[k].0);
    } else {
        assert(m[m.len() - 1].0 == entries[k].0);
    }
}

/// The entry at `k` is the key, and no later entry names its field path.
pub open spec fn is_last_entry(
    entries: Seq<(Seq<char>, IndexType)>,
    key: (Seq<char>, IndexType),
    k: int,
) -> bool {
    &&& 0 <= k < entries.len()
    &&& entries[k] == key
    &&& forall|later: int| k < later < entries.len() ==> (#[trigger] entries[later]).0 != key.0
}

/// Every key that merging leaves is the last entry for its field path: a
/// later entry overrides an earlier one.
pub proof fn lemma_merged_latest(entries: Seq<(Seq<char>, IndexType)>, i: int)
    requires
        0 <= i < merged(entries).len(),
    ensures
        exists|k: int| is_last_entry(entries, merged(entries)[i], k),
    decreases entries.len(),
{
    let front = entries.drop_last();
    let last = entries.last();
    let w = without(merged(front), last.0);
    let key = merged(entries)[i];
    if i < w.len() {
        lemma_without_absent(merged(front), last.0);
        assert(holds_key(merged(front), w[i]));
        let a = choose|a: int| 0 <= a < merged(front).len() && merged(front)[a] == w[i];
        lemma_merged_latest(front, a);
        let k = choose|k: int| is_last_entry(front, merged(front)[a], k);
        if key.0 == last.0 {
            assert(w[i].0 == last.0);
            assert(holds_path(w, last.0));
        }
        assert forall|later: int| k < later < entries.len() implies (#[trigger] entries[later]).0
            != key.0 by {
            if later < front.len() {
                assert(front[later] == entries[later]);
            }
        }
        assert(is_last_entry(entries, key, k));
    } else {
        assert(is_last_entry(entries, key, entries.len() - 1));
    }
}

/// Two entries for one field path collapse into the later one.
pub proof fn lemma_merged_twice(name: Seq<char>, first: IndexType, second: IndexType)
    ensures
        merged(seq![(name, first), (name, second)]) == seq![(name, second)],
{
    let both = seq![(name, first), (name, second)];
    let one = seq![(name, first)];
    assert(both.drop_last() == one);
    assert(one.drop_last() == Seq::<(Seq<char>, IndexType)>::empty());
    assert(merged(one.drop_last()) == Seq::<(Seq<char>, IndexType)>::empty());
    assert(merged(one) == one);
    assert(without(one, name) == Seq::<(Seq<char>, IndexType)>::empty()) by {
        assert(one.last().0 == name);
    }
    assert(merged(both) == Seq::<(Seq<char>, IndexType)>::empty().push((name, second)));
}

impl SpecView {
    /// What holds of every option that a specification states: numbers
    /// lie in their ranges, and no field path has two keys.
    pub open spec fn options_in_range(self) -> bool {
        &&& distinct_paths(self.keys)
        &&& self.bits matches Some(bits) ==> 1 <= bits <= 32
        &&& self.bucket_size matches Some(size) ==> size >= 1
        &&& self.min matches Some(x) ==> degrees().holds(x)
        &&& self.max matches Some(x) ==> degrees().holds(x)
    }

    /// What holds of every specification that is built: it names at least
    /// one key, and its options are in range.
    pub open spec fn well_formed(self) -> bool {
        self.keys.len() > 0 && self.options_in_range()
    }
}

/// Items keep the options of a specification in range.
pub proof fn lemma_folded_in_range(spec: SpecView, items: Seq<MetaView>)
    requires
        spec.options_in_range(),
    ensures
        folded(spec, items) matches Ok(after) ==> after.options_in_range(),
    decreases items.len(),
{
    if items.len() > 0 {
        lemma_folded_in_range(spec, items.drop_last());
        match folded(spec, items.drop_last()) {
            Ok(so_far) => {
                match items.last() {
                    MetaView::List(path, nested) => {
                        match key_entries(nested) {
                            Ok(entries) => {
                                lemma_merged_distinct(entries);
                            },
                            Err(_) => {},
                        }
                    },
                    _ => {},
                }
            },
            Err(_) => {},
        }
    }
}

/// Every specification that is built is well-formed.
pub proof fn lemma_built_well_formed(items: Seq<MetaView>)
    ensures
        built(items) matches Ok(spec) ==> spec.well_formed(),
{
    lemma_folded_in_range(blank(), items);
}

} // verus!
