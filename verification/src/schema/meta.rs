//! Typed, range-checked readers of literal values, and the search for an
//! option among the annotations of an item.

use vstd::prelude::*;
use vstd::utf8::{decode_utf8, valid_utf8};
use crate::literal::IndexType;
use crate::schema::attr::{
    attributes_view, meta_option_view, nested_views, separated, Attribute, AttributeExt,
    AttributeView, ExtMeta, MetaView, NestedExtMeta, NestedView, PathExt,
};
use crate::schema::error::{Error, Failure};
use crate::schema::parse::parsed;
use crate::schema::token::{Binary64, Literal, LiteralView};
use crate::text::{decimal_text, i128_to_string, parse_i32, parsed_i32, utf8_to_string};

verus! {

/// One end of a range.
#[derive(Debug, Clone, Copy, PartialEq, Eq, Hash)]
pub enum Bound<T> {
    /// The range goes up to the value and holds it.
    Included(T),
    /// The range goes up to the value and does not hold it.
    Excluded(T),
    /// The range has no end on this side.
    Unbounded,
}

/// A range, by its two ends.
#[derive(Debug, Clone, Copy, PartialEq, Eq, Hash)]
pub struct Bounds<T> {
    /// The lower end.
    pub start: Bound<T>,
    /// The upper end.
    pub end: Bound<T>,
}

/// A range of double-precision numbers, and how it is written: the
/// numbers are held by their bits, which do not say how to print them.
#[derive(Debug, Clone, Copy, PartialEq, Eq, Hash)]
pub struct NumberRange {
    /// The two ends.
    pub bounds: Bounds<Binary64>,
    /// The range as a message shows it, like `-180.0..=180.0`.
    pub shown: &'static str,
}

/// Membership in a range.
pub trait RangeBoundsExt<T> {
    /// Whether the range holds the value.
    spec fn holds(&self, value: T) -> bool;

    /// Whether the range holds the value.
    fn contains_value(&self, value: &T) -> (r: bool)
        ensures
            r == self.holds(*value),
    ;
}

impl RangeBoundsExt<i32> for Bounds<i32> {
    open spec fn holds(&self, value: i32) -> bool {
        &&& match self.start {
            Bound::Included(start) => start <= value,
            Bound::Excluded(start) => start < value,
            Bound::Unbounded => true,
        }
        &&& match self.end {
            Bound::Included(end) => value <= end,
            Bound::Excluded(end) => value < end,
            Bound::Unbounded => true,
        }
    }

    fn contains_value(&self, value: &i32) -> (r: bool) {
        let above = match self.start {
            Bound::Included(start) => start <= *value,
            Bound::Excluded(start) => start < *value,
            Bound::Unbounded => true,
        };
        let below = match self.end {
            Bound::Included(end) => *value <= end,
            Bound::Excluded(end) => *value < end,
            Bound::Unbounded => true,
        };
        above && below
    }
}

impl RangeBoundsExt<Binary64> for Bounds<Binary64> {
    open spec fn holds(&self, value: Binary64) -> bool {
        &&& match self.start {
            Bound::Included(start) => start.at_most(value),
            Bound::Excluded(start) => start.below(value),
            Bound::Unbounded => true,
        }
        &&& match self.end {
            Bound::Included(end) => value.at_most(end),
            Bound::Excluded(end) => value.below(end),
            Bound::Unbounded => true,
        }
    }

    fn contains_value(&self, value: &Binary64) -> (r: bool) {
        let above = match self.start {
            Bound::Included(start) => start.le(value),
            Bound::Excluded(start) => start.lt(value),
            Bound::Unbounded => true,
        };
        let below = match self.end {
            Bound::Included(end) => value.le(&end),
            Bound::Excluded(end) => value.lt(&end),
            Bound::Unbounded => true,
        };
        above && below
    }
}

/// A result with its error reduced to the reason.
pub open spec fn outcome<T>(r: Result<T, Error>) -> Result<T, Failure> {
    match r {
        Ok(v) => Ok(v),
        Err(e) => Err(e.kind),
    }
}

/// A text result by its characters, with its error reduced to the reason.
pub open spec fn text_outcome(r: Result<String, Error>) -> Result<Seq<char>, Failure> {
    match r {
        Ok(v) => Ok(v@),
        Err(e) => Err(e.kind),
    }
}

/// The truth value that a literal holds.
pub open spec fn bool_of(l: LiteralView) -> Result<bool, Failure> {
    match l {
        LiteralView::Bool(b) => Ok(b),
        _ => Err(Failure::TypeMismatch),
    }
}

/// The text that a literal holds: a string's own, or the one that a byte
/// string encodes in UTF-8.
pub open spec fn text_of(l: LiteralView) -> Result<Seq<char>, Failure> {
    match l {
        LiteralView::Str(s, _) => Ok(s),
        LiteralView::ByteStr(b, _) => if valid_utf8(b) {
            Ok(decode_utf8(b))
        } else {
            Err(Failure::TypeMismatch)
        },
        _ => Err(Failure::TypeMismatch),
    }
}

/// The 32-bit integer that a literal holds: an integer literal's own, or
/// the one that a text spells. An integer literal too large for 32 bits is
/// outside every range.
pub open spec fn integer_of(l: LiteralView) -> Result<i32, Failure> {
    match l {
        LiteralView::Int(v, _) => if v <= i32::MAX {
            Ok(v as i32)
        } else {
            Err(Failure::RangeViolation)
        },
        LiteralView::Str(_, _) | LiteralView::ByteStr(_, _) => match text_of(l) {
            Ok(text) => match parsed_i32(text) {
                Some(v) => Ok(v),
                None => Err(Failure::TypeMismatch),
            },
            Err(f) => Err(f),
        },
        _ => Err(Failure::TypeMismatch),
    }
}

/// The double-precision number that a literal holds: a floating-point
/// literal's own, an integer literal's widened, or the one that the host
/// read from a text.
pub open spec fn number_of(l: LiteralView) -> Result<Binary64, Failure> {
    match l {
        LiteralView::Float(x, _) => Ok(x),
        LiteralView::Int(_, x) => Ok(x),
        LiteralView::Str(_, Some(x)) => Ok(x),
        LiteralView::ByteStr(_, Some(x)) => Ok(x),
        _ => Err(Failure::TypeMismatch),
    }
}

/// The value, if the range holds it.
pub open spec fn within_i32(value: i32, range: Bounds<i32>) -> Result<i32, Failure> {
    if range.holds(value) {
        Ok(value)
    } else {
        Err(Failure::RangeViolation)
    }
}

/// The value, if the range holds it.
pub open spec fn within_binary64(value: Binary64, range: Bounds<Binary64>) -> Result<
    Binary64,
    Failure,
> {
    if range.holds(value) {
        Ok(value)
    } else {
        Err(Failure::RangeViolation)
    }
}

/// The 32-bit integer that a literal holds, if the range holds it.
pub open spec fn ranged_integer(l: LiteralView, range: Bounds<i32>) -> Result<i32, Failure> {
    match integer_of(l) {
        Ok(v) => within_i32(v, range),
        Err(f) => Err(f),
    }
}

/// The double-precision number that a literal holds, if the range holds
/// it.
pub open spec fn ranged_number(l: LiteralView, range: Bounds<Binary64>) -> Result<
    Binary64,
    Failure,
> {
    match number_of(l) {
        Ok(v) => within_binary64(v, range),
        Err(f) => Err(f),
    }
}

/// Reads a truth value. Only a boolean literal holds one.
pub fn value_as_bool(key: &str, lit: &Literal) -> (r: Result<bool, Error>)
    ensures
        outcome(r) == bool_of(lit@),
{
    match lit {
        Literal::Bool(b) => Ok(*b),
        _ => Err(Error::about(Failure::TypeMismatch, "value for key `", key, "` must be a bool")),
    }
}

/// Reads a text: a string literal, or a byte string that is valid UTF-8.
pub fn lit_value_as_str(key: &str, lit: &Literal) -> (r: Result<String, Error>)
    ensures
        text_outcome(r) == text_of(lit@),
{
    match lit {
        Literal::Str(s, _) => Ok(s.clone()),
        Literal::ByteStr(b, _) => match utf8_to_string(b.clone()) {
            Some(text) => Ok(text),
            None => Err(
                Error::about(
                    Failure::TypeMismatch,
                    "value for key `",
                    key,
                    "`: byte string is not valid UTF-8",
                ),
            ),
        },
        _ => Err(
            Error::about(
                Failure::TypeMismatch,
                "value for key `",
                key,
                "` must be a valid UTF-8 string",
            ),
        ),
    }
}

/// Reads the text of a key-value node. Any other node holds none.
pub fn value_as_str(nv: &ExtMeta) -> (r: Result<String, Error>)
    ensures
        text_outcome(r) == (match nv@ {
            MetaView::KeyValue(_, l) => text_of(l),
            _ => Err(Failure::TypeMismatch),
        }),
{
    let key = nv.path_str();
    match nv {
        ExtMeta::KeyValue(_, lit) => lit_value_as_str(key.as_str(), lit),
        _ => Err(
            Error::about(Failure::TypeMismatch, "`", key.as_str(), "` must be a key-value pair"),
        ),
    }
}

/// How a range of integers is written: the lower end, `..`, and the upper
/// end, with `=` before an upper end that belongs to the range and `<`
/// behind a lower end that does not.
pub open spec fn bounds_text(range: Bounds<i32>) -> Seq<char> {
    (match range.start {
        Bound::Included(start) => decimal_text(start as int),
        Bound::Excluded(start) => decimal_text(start as int) + "<"@,
        Bound::Unbounded => Seq::empty(),
    }) + ".."@ + (match range.end {
        Bound::Included(end) => "="@ + decimal_text(end as int),
        Bound::Excluded(end) => decimal_text(end as int),
        Bound::Unbounded => Seq::empty(),
    })
}

/// The message for a value outside its range: the value, the key and the
/// range.
pub open spec fn range_message(value: Seq<char>, key: Seq<char>, range: Seq<char>) -> Seq<char> {
    "value `"@ + value + "` for key `"@ + key + "` exceeds range "@ + range
}

/// The message for an integer literal too large for 32 bits: the value and
/// the key.
pub open spec fn overflow_message(value: Seq<char>, key: Seq<char>) -> Seq<char> {
    "integer value `"@ + value + "` for key `"@ + key + "` overflows i32"@
}

/// How a literal that holds a number writes it: a text as it stands, an
/// integer in decimal notation, a floating-point literal as it is spelled.
pub open spec fn number_spelling(l: LiteralView) -> Seq<char> {
    match l {
        LiteralView::Float(_, spelled) => spelled,
        LiteralView::Int(v, _) => decimal_text(v as int),
        LiteralView::Str(text, _) => text,
        LiteralView::ByteStr(bytes, _) => if valid_utf8(bytes) {
            decode_utf8(bytes)
        } else {
            Seq::empty()
        },
        _ => Seq::empty(),
    }
}

/// Writes a range of integers.
pub fn bounds_to_text(range: &Bounds<i32>) -> (r: String)
    ensures
        r@ == bounds_text(*range),
{
    let mut out = String::new();
    match range.start {
        Bound::Included(start) => {
            let digits = i128_to_string(start as i128);
            out.append(digits.as_str());
        },
        Bound::Excluded(start) => {
            let digits = i128_to_string(start as i128);
            out.append(digits.as_str());
            out.append("<");
        },
        Bound::Unbounded => {},
    }
    out.append("..");
    match range.end {
        Bound::Included(end) => {
            let digits = i128_to_string(end as i128);
            out.append("=");
            out.append(digits.as_str());
        },
        Bound::Excluded(end) => {
            let digits = i128_to_string(end as i128);
            out.append(digits.as_str());
        },
        Bound::Unbounded => {},
    }
    proof {
        assert(out@ =~= bounds_text(*range));
    }
    out
}

/// The error for a value outside its range.
pub fn range_violation(value: &str, key: &str, range: &str) -> (r: Error)
    ensures
        r.kind == Failure::RangeViolation,
        r.message@ == range_message(value@, key@, range@),
{
    let mut message = String::from_str("value `");
    message.append(value);
    message.append("` for key `");
    message.append(key);
    message.append("` exceeds range ");
    message.append(range);
    Error { kind: Failure::RangeViolation, message }
}

/// Accepts a 32-bit integer that the range holds. The message for one
/// that it does not hold names the value, the key and the range.
pub fn check_range_i32(key: &str, value: i32, range: &Bounds<i32>) -> (r: Result<i32, Error>)
    ensures
        outcome(r) == within_i32(value, *range),
        r matches Err(e) ==> e.message@ == range_message(
            decimal_text(value as int),
            key@,
            bounds_text(*range),
        ),
{
    if range.contains_value(&value) {
        Ok(value)
    } else {
        let digits = i128_to_string(value as i128);
        let shown = bounds_to_text(range);
        Err(range_violation(digits.as_str(), key, shown.as_str()))
    }
}

/// Accepts a double-precision number that the range holds. The message
/// for one that it does not hold names the value as it is spelled, the key
/// and the range as it is shown.
pub fn check_range_binary64(key: &str, value: Binary64, spelled: &str, range: &NumberRange) -> (r:
    Result<Binary64, Error>)
    ensures
        outcome(r) == within_binary64(value, range.bounds),
        r matches Err(e) ==> e.message@ == range_message(spelled@, key@, range.shown@),
{
    if range.bounds.contains_value(&value) {
        Ok(value)
    } else {
        Err(range_violation(spelled, key, range.shown))
    }
}

/// Accepts the integer that a text spells, where it spells one.
pub fn integer_from_text(key: &str, spelled: Option<i32>) -> (r: Result<i32, Error>)
    ensures
        outcome(r) == (match spelled {
            Some(v) => Ok(v),
            None => Err(Failure::TypeMismatch),
        }),
{
    match spelled {
        Some(v) => Ok(v),
        None => Err(
            Error::about(
                Failure::TypeMismatch,
                "value for key `",
                key,
                "`: string does not represent an integer",
            ),
        ),
    }
}

/// The message with which a literal fails for its range as an integer.
pub open spec fn integer_range_message(l: LiteralView, key: Seq<char>, range: Bounds<i32>) -> Seq<
    char,
> {
    match integer_of(l) {
        Ok(v) => range_message(decimal_text(v as int), key, bounds_text(range)),
        Err(_) => overflow_message(number_spelling(l), key),
    }
}

/// Reads a 32-bit integer and checks it against a range.
///
/// A text is accepted as well as an integer literal: there is no other way
/// to write a negative number. The message for a number outside the range,
/// or too large for 32 bits, names the number.
pub fn value_as_i32(key: &str, lit: &Literal, range: &Bounds<i32>) -> (r: Result<i32, Error>)
    ensures
        outcome(r) == ranged_integer(lit@, *range),
        r matches Err(e) ==> (e.kind == Failure::RangeViolation ==> e.message@
            == integer_range_message(lit@, key@, *range)),
{
    let value: i32 = match lit {
        Literal::Int(v, _) => {
            if *v <= 0x7fff_ffff {
                *v as i32
            } else {
                let digits = i128_to_string(*v as i128);
                let mut message = String::from_str("integer value `");
                message.append(digits.as_str());
                message.append("` for key `");
                message.append(key);
                message.append("` overflows i32");
                return Err(Error { kind: Failure::RangeViolation, message });
            }
        },
        Literal::Str(_, _) | Literal::ByteStr(_, _) => {
            let text = lit_value_as_str(key, lit)?;
            integer_from_text(key, parse_i32(text.as_str()))?
        },
        _ => {
            return Err(
                Error::about(Failure::TypeMismatch, "value for key `", key, "` must be an i32"),
            );
        },
    };
    check_range_i32(key, value, range)
}

/// Writes the number of a literal as the literal has it.
pub fn spell_number(lit: &Literal) -> (r: String)
    ensures
        r@ == number_spelling(lit@),
{
    match lit {
        Literal::Float(_, spelled) => spelled.clone(),
        Literal::Int(v, _) => i128_to_string(*v as i128),
        Literal::Str(text, _) => text.clone(),
        Literal::ByteStr(bytes, _) => match utf8_to_string(bytes.clone()) {
            Some(text) => text,
            None => String::new(),
        },
        _ => String::new(),
    }
}

/// Reads a double-precision number and checks it against a range.
///
/// An integer literal is accepted and widened; a text is accepted where
/// the host read a number from it. The message for a number outside the
/// range names it as the literal spells it.
pub fn value_as_f64(key: &str, lit: &Literal, range: &NumberRange) -> (r: Result<Binary64, Error>)
    ensures
        outcome(r) == ranged_number(lit@, range.bounds),
        r matches Err(e) ==> (e.kind == Failure::RangeViolation ==> e.message@ == range_message(
            number_spelling(lit@),
            key@,
            range.shown@,
        )),
{
    let value: Binary64 = match lit {
        Literal::Float(x, _) => *x,
        Literal::Int(_, x) => *x,
        Literal::Str(_, Some(x)) => *x,
        Literal::ByteStr(_, Some(x)) => *x,
        _ => {
            return Err(
                Error::about(
                    Failure::TypeMismatch,
                    "value for key `",
                    key,
                    "` must be a floating-point number",
                ),
            );
        },
    };
    let spelled = spell_number(lit);
    check_range_binary64(key, value, spelled.as_str(), range)
}

/// The characters of each field path of a list of index keys.
pub open spec fn keys_view(keys: Seq<(String, IndexType)>) -> Seq<(Seq<char>, IndexType)> {
    Seq::new(keys.len(), |i: int| (keys[i].0@, keys[i].1))
}

/// The index key that an element of a `keys(...)` list spells: the path
/// joined by dots, and the kind that the text after `=` names.
pub open spec fn key_entry(item: NestedView) -> Result<(Seq<char>, IndexType), Failure> {
    match item {
        NestedView::Meta(MetaView::KeyValue(path, lit)) => match text_of(lit) {
            Err(f) => Err(f),
            Ok(text) => match IndexType::annotated(text) {
                Some(ty) => Ok((separated(path, "."@), ty)),
                None => Err(Failure::UnknownEnumValue),
            },
        },
        _ => Err(Failure::GrammarViolation),
    }
}

/// The index keys that the elements of a `keys(...)` list spell, in order,
/// or the fault of the first element that spells none.
pub open spec fn key_entries(items: Seq<NestedView>) -> Result<
    Seq<(Seq<char>, IndexType)>,
    Failure,
>
    decreases items.len(),
{
    if items.len() == 0 {
        Ok(Seq::empty())
    } else {
        match key_entries(items.drop_last()) {
            Err(f) => Err(f),
            Ok(front) => match key_entry(items.last()) {
                Err(f) => Err(f),
                Ok(entry) => Ok(front.push(entry)),
            },
        }
    }
}

/// Reads one element of a `keys(...)` list.
pub fn name_and_value(outer_name: &str, item: &NestedExtMeta) -> (r: Result<
    (String, IndexType),
    Error,
>)
    ensures
        match r {
            Ok(entry) => key_entry(item@) == Ok::<_, Failure>((entry.0@, entry.1)),
            Err(e) => key_entry(item@) == Err::<(Seq<char>, IndexType), _>(e.kind),
        },
{
    match item {
        NestedExtMeta::Meta(ExtMeta::KeyValue(path, lit)) => {
            let key = path.colon_sep_str();
            let text = lit_value_as_str(key.as_str(), lit)?;
            match IndexType::from_annotation(text.as_str()) {
                Some(ty) => Ok((path.dot_sep_str(), ty)),
                None => Err(
                    Error::about(
                        Failure::UnknownEnumValue,
                        "unknown index type '",
                        text.as_str(),
                        "'",
                    ),
                ),
            }
        },
        _ => Err(
            Error::about(
                Failure::GrammarViolation,
                "attribute `",
                outer_name,
                "` must contain key-value pairs only",
            ),
        ),
    }
}

/// Reads a list as pairs of a field path and an index kind. Every element
/// must be a key-value pair whose value is a text from the vocabulary of
/// index kinds; the first one that is not ends the reading.
pub fn list_into_names_and_values(outer_name: &str, list: &Vec<NestedExtMeta>) -> (r: Result<
    Vec<(String, IndexType)>,
    Error,
>)
    ensures
        match r {
            Ok(pairs) => key_entries(nested_views(list@)) == Ok::<_, Failure>(keys_view(pairs@)),
            Err(e) => key_entries(nested_views(list@)) == Err::<
                Seq<(Seq<char>, IndexType)>,
                _,
            >(e.kind),
        },
{
    let ghost items = nested_views(list@);
    let mut pairs: Vec<(String, IndexType)> = Vec::new();
    let n = list.len();
    let mut i: usize = 0;
    proof {
        assert(keys_view(pairs@) =~= Seq::empty());
        assert(items.subrange(0, 0).len() == 0);
    }
    while i < n
        invariant
            i <= n == list.len(),
            items == nested_views(list@),
            key_entries(items.subrange(0, i as int)) == Ok::<_, Failure>(keys_view(pairs@)),
        decreases n - i,
    {
        let ghost before = pairs@;
        proof {
            assert(items.subrange(0, i + 1).drop_last() == items.subrange(0, i as int));
            assert(items.subrange(0, i + 1).last() == list@[i as int]@);
        }
        match name_and_value(outer_name, &list[i]) {
            Ok(entry) => {
                pairs.push(entry);
                proof {
                    assert(keys_view(pairs@) =~= keys_view(before).push((entry.0@, entry.1)));
                }
            },
            Err(e) => {
                proof {
                    lemma_key_entries_fail(items, i + 1);
                    assert(items.subrange(0, n as int) == items);
                }
                return Err(e);
            },
        }
        i += 1;
    }
    proof {
        assert(items.subrange(0, n as int) == items);
    }
    Ok(pairs)
}

/// Once a prefix of a list fails, the whole list fails in the same way.
pub proof fn lemma_key_entries_fail(items: Seq<NestedView>, n: int)
    requires
        0 <= n <= items.len(),
        key_entries(items.subrange(0, n)) is Err,
    ensures
        key_entries(items) == key_entries(items.subrange(0, n)),
    decreases items.len() - n,
{
    if n < items.len() {
        assert(items.subrange(0, n + 1).drop_last() == items.subrange(0, n));
        lemma_key_entries_fail(items, n + 1);
    } else {
        assert(items.subrange(0, n) == items);
    }
}

/// Whether a list element is a node whose path is the single name `key`.
pub open spec fn item_named(item: NestedView, key: Seq<char>) -> bool {
    item matches NestedView::Meta(m) && m.path() == seq![key]
}

/// The first node called `key` among the elements from `from` on.
pub open spec fn first_named(items: Seq<NestedView>, key: Seq<char>, from: int) -> Option<
    MetaView,
>
    decreases items.len() - from,
{
    if from < 0 || from >= items.len() {
        None
    } else if item_named(items[from], key) {
        Some(items[from]->Meta_0)
    } else {
        first_named(items, key, from + 1)
    }
}

/// The first node called `key` inside an annotation, where the annotation
/// is a list called `name`.
pub open spec fn found_in(attr: AttributeView, name: Seq<char>, key: Seq<char>) -> Option<
    MetaView,
> {
    match parsed(attr.path, attr.tokens) {
        Some(MetaView::List(path, items)) => if path == seq![name] {
            first_named(items, key, 0)
        } else {
            None
        },
        _ => None,
    }
}

/// The first node called `key` inside the lists called `name` among the
/// annotations from `from` on.
pub open spec fn found(
    attrs: Seq<AttributeView>,
    name: Seq<char>,
    key: Seq<char>,
    from: int,
) -> Option<MetaView>
    decreases attrs.len() - from,
{
    if from < 0 || from >= attrs.len() {
        None
    } else {
        match found_in(attrs[from], name, key) {
            Some(m) => Some(m),
            None => found(attrs, name, key, from + 1),
        }
    }
}

/// Finds `key` inside one annotation of the form `name(...)`.
pub fn meta_in(attr: &Attribute, name: &str, key: &str) -> (r: Option<ExtMeta>)
    ensures
        meta_option_view(r) == found_in(attr@, name@, key@),
{
    match attr.parse_ext_meta() {
        Some(ExtMeta::List(path, items)) => {
            if !path.is_name(name) {
                return None;
            }
            let mut items = items;
            let ghost all = nested_views(items@);
            let n = items.len();
            let mut i: usize = 0;
            while i < n
                invariant
                    i <= n == items.len(),
                    all == nested_views(items@),
                    found_in(attr@, name@, key@) == first_named(all, key@, 0),
                    first_named(all, key@, 0) == first_named(all, key@, i as int),
                decreases n - i,
            {
                let hit = match &items[i] {
                    NestedExtMeta::Meta(m) => m.path().is_name(key),
                    NestedExtMeta::Literal(_) => false,
                };
                if hit {
                    proof {
                        assert(all[i as int] == items@[i as int]@);
                        assert(item_named(all[i as int], key@));
                    }
                    let item = items.remove(i);
                    assert(item@ == all[i as int]);
                    return match item {
                        NestedExtMeta::Meta(m) => Some(m),
                        NestedExtMeta::Literal(_) => None,
                    };
                }
                i += 1;
            }
            None
        },
        _ => None,
    }
}

/// Finds the first `key` inside the annotations of the form `name(...)`,
/// like the `rename = "foo"` of `#[serde(rename = "foo")]`.
pub fn meta(attrs: &Vec<Attribute>, name: &str, key: &str) -> (r: Option<ExtMeta>)
    ensures
        meta_option_view(r) == found(attributes_view(attrs@), name@, key@, 0),
{
    let ghost all = attributes_view(attrs@);
    let n = attrs.len();
    let mut i: usize = 0;
    while i < n
        invariant
            i <= n == attrs.len(),
            all == attributes_view(attrs@),
            found(all, name@, key@, 0) == found(all, name@, key@, i as int),
        decreases n - i,
    {
        match meta_in(&attrs[i], name, key) {
            Some(m) => {
                return Some(m);
            },
            None => {},
        }
        i += 1;
    }
    None
}

/// The value of the first `key` inside the annotations `name(...)`, where
/// that node is a key-value pair; it is a fault for it to be anything else.
pub open spec fn value_found(attrs: Seq<AttributeView>, name: Seq<char>, key: Seq<char>) -> Result<
    Option<LiteralView>,
    Failure,
> {
    match found(attrs, name, key, 0) {
        Some(MetaView::KeyValue(_, l)) => Ok(Some(l)),
        Some(_) => Err(Failure::GrammarViolation),
        None => Ok(None),
    }
}

/// Whether the first `key` inside the annotations `name(...)` is there, as
/// a word alone; it is a fault for it to be anything else.
pub open spec fn word_found(attrs: Seq<AttributeView>, name: Seq<char>, key: Seq<char>) -> Result<
    bool,
    Failure,
> {
    match found(attrs, name, key, 0) {
        Some(MetaView::Path(_)) => Ok(true),
        Some(_) => Err(Failure::GrammarViolation),
        None => Ok(false),
    }
}

/// Searches for an option that must be a key-value pair.
pub fn name_value(attrs: &Vec<Attribute>, name: &str, key: &str) -> (r: Result<
    Option<Literal>,
    Error,
>)
    ensures
        match r {
            Ok(Some(l)) => value_found(attributes_view(attrs@), name@, key@) == Ok::<_, Failure>(
                Some(l@),
            ),
            Ok(None) => value_found(attributes_view(attrs@), name@, key@) == Ok::<
                Option<LiteralView>,
                Failure,
            >(None),
            Err(e) => value_found(attributes_view(attrs@), name@, key@) == Err::<
                Option<LiteralView>,
                _,
            >(e.kind),
        },
{
    match meta(attrs, name, key) {
        Some(ExtMeta::KeyValue(_, lit)) => Ok(Some(lit)),
        Some(_) => Err(
            Error::about_two(
                Failure::GrammarViolation,
                "attribute must have form `#[",
                name,
                "(",
                key,
                " = \"...\")]`",
            ),
        ),
        None => Ok(None),
    }
}

/// Searches for an option that must be a single word.
pub fn has_meta_word(attrs: &Vec<Attribute>, name: &str, key: &str) -> (r: Result<bool, Error>)
    ensures
        outcome(r) == word_found(attributes_view(attrs@), name@, key@),
{
    match meta(attrs, name, key) {
        Some(ExtMeta::Path(_)) => Ok(true),
        Some(_) => Err(
            Error::about_two(
                Failure::GrammarViolation,
                "attribute must have form `#[",
                name,
                "(",
                key,
                ")]`",
            ),
        ),
        None => Ok(false),
    }
}

/// Searches the `serde(...)` annotations for an option that must be a
/// key-value pair.
pub fn serde_name_value(attrs: &Vec<Attribute>, key: &str) -> (r: Result<Option<Literal>, Error>)
    ensures
        match r {
            Ok(Some(l)) => value_found(attributes_view(attrs@), "serde"@, key@) == Ok::<
                _,
                Failure,
            >(Some(l@)),
            Ok(None) => value_found(attributes_view(attrs@), "serde"@, key@) == Ok::<
                Option<LiteralView>,
                Failure,
            >(None),
            Err(e) => value_found(attributes_view(attrs@), "serde"@, key@) == Err::<
                Option<LiteralView>,
                _,
            >(e.kind),
        },
{
    name_value(attrs, "serde", key)
}

/// Searches the `serde(...)` annotations for an option that must be a
/// single word.
pub fn has_serde_word(attrs: &Vec<Attribute>, key: &str) -> (r: Result<bool, Error>)
    ensures
        outcome(r) == word_found(attributes_view(attrs@), "serde"@, key@),
{
    has_meta_word(attrs, "serde", key)
}

/// The text after `name =` in the first annotation called `name`, from
/// `from` on. An annotation called `name` of another form is a fault.
pub open spec fn named_value(attrs: Seq<AttributeView>, name: Seq<char>, from: int) -> Result<
    Option<Seq<char>>,
    Failure,
>
    decreases attrs.len() - from,
{
    if from < 0 || from >= attrs.len() {
        Ok(None)
    } else {
        match parsed(attrs[from].path, attrs[from].tokens) {
            Some(m) => if m.path() == seq![name] {
                match m {
                    MetaView::KeyValue(_, l) => match text_of(l) {
                        Ok(text) => Ok(Some(text)),
                        Err(f) => Err(f),
                    },
                    _ => Err(Failure::GrammarViolation),
                }
            } else {
                named_value(attrs, name, from + 1)
            },
            None => named_value(attrs, name, from + 1),
        }
    }
}

/// The text of the first top-level annotation of the form `name = "..."`.
pub fn literal_value_for_name(attrs: &Vec<Attribute>, name: &str) -> (r: Result<
    Option<String>,
    Error,
>)
    ensures
        match r {
            Ok(Some(text)) => named_value(attributes_view(attrs@), name@, 0) == Ok::<_, Failure>(
                Some(text@),
            ),
            Ok(None) => named_value(attributes_view(attrs@), name@, 0) == Ok::<
                Option<Seq<char>>,
                Failure,
            >(None),
            Err(e) => named_value(attributes_view(attrs@), name@, 0) == Err::<
                Option<Seq<char>>,
                _,
            >(e.kind),
        },
{
    let ghost all = attributes_view(attrs@);
    let n = attrs.len();
    let mut i: usize = 0;
    while i < n
        invariant
            i <= n == attrs.len(),
            all == attributes_view(attrs@),
            named_value(all, name@, 0) == named_value(all, name@, i as int),
        decreases n - i,
    {
        match attrs[i].parse_ext_meta() {
            Some(m) => {
                if m.path().is_name(name) {
                    return match m {
                        ExtMeta::KeyValue(_, lit) => {
                            match lit_value_as_str(name, &lit) {
                                Ok(text) => Ok(Some(text)),
                                Err(e) => Err(e),
                            }
                        },
                        _ => Err(
                            Error::about(
                                Failure::GrammarViolation,
                                "attribute must have form `#[",
                                name,
                                " = ...]`",
                            ),
                        ),
                    };
                }
            },
            None => {},
        }
        i += 1;
    }
    Ok(None)
}

} // verus!
