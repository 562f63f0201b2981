//! Typed stand-ins for the small constants of the database's query language.

use vstd::prelude::*;
use crate::schema::token::Binary64;
use crate::text::same_text;

verus! {

/// The order in which a query sorts its results, or an index its keys.
#[derive(Debug, Clone, Copy, PartialEq, Eq, Structural, PartialOrd, Ord, Hash)]
pub enum Order {
    /// Smaller values first. The database writes it `1`.
    Ascending,
    /// Greater values first. The database writes it `-1`.
    Descending,
}

/// The bit pattern of the double-precision number `1.0`.
pub const ONE_BITS: u64 = 0x3ff0_0000_0000_0000;

/// The bit pattern of the double-precision number `-1.0`.
pub const MINUS_ONE_BITS: u64 = 0xbff0_0000_0000_0000;

impl Order {
    /// The integer that the database writes for the order.
    pub open spec fn number(self) -> int {
        match self {
            Order::Ascending => 1,
            Order::Descending => -1,
        }
    }

    /// The order that an integer stands for.
    pub open spec fn of_number(v: int) -> Option<Order> {
        if v == 1 {
            Some(Order::Ascending)
        } else if v == -1 {
            Some(Order::Descending)
        } else {
            None
        }
    }

    /// The integer that the database writes for the order.
    pub fn to_i32(self) -> (r: i32)
        ensures
            r == self.number(),
    {
        match self {
            Order::Ascending => 1,
            Order::Descending => -1,
        }
    }

    /// The order that a signed integer stands for, if it is `1` or `-1`.
    pub fn from_i64(v: i64) -> (r: Option<Order>)
        ensures
            r == Order::of_number(v as int),
    {
        if v == 1 {
            Some(Order::Ascending)
        } else if v == -1 {
            Some(Order::Descending)
        } else {
            None
        }
    }

    /// The order that an unsigned integer stands for, if it is `1`.
    pub fn from_u64(v: u64) -> (r: Option<Order>)
        ensures
            r == Order::of_number(v as int),
    {
        if v == 1 {
            Some(Order::Ascending)
        } else {
            None
        }
    }

    /// The order that a double-precision number stands for, if it is `1.0`
    /// or `-1.0`.
    pub fn from_binary64(v: Binary64) -> (r: Option<Order>)
        ensures
            r == (if v.bits == ONE_BITS {
                Some(Order::Ascending)
            } else if v.bits == MINUS_ONE_BITS {
                Some(Order::Descending)
            } else {
                None
            }),
    {
        if v.bits == ONE_BITS {
            Some(Order::Ascending)
        } else if v.bits == MINUS_ONE_BITS {
            Some(Order::Descending)
        } else {
            None
        }
    }
}

impl Default for Order {
    /// The default order is ascending.
    fn default() -> (r: Order)
        ensures
            r == Order::Ascending,
    {
        Order::Ascending
    }
}

/// The kind of index kept on one field.
#[derive(Debug, Clone, Copy, PartialEq, Eq, Structural, Hash)]
pub enum IndexType {
    /// An ordered index.
    Ordered(Order),
    /// A language-specific index for free-text search.
    Text,
    /// A hashed index, for hash-based sharding.
    Hashed,
    /// A geospatial index with planar geometry.
    Geo2D,
    /// A geospatial index with spherical geometry.
    Geo2DSphere,
    /// A geospatial index for very small areas.
    GeoHaystack,
}

impl IndexType {
    /// The kind that the database calls `name`. Ordered kinds have no name
    /// there: they are written as numbers.
    pub open spec fn named(name: Seq<char>) -> Option<IndexType> {
        if name == "text"@ {
            Some(IndexType::Text)
        } else if name == "hashed"@ {
            Some(IndexType::Hashed)
        } else if name == "2d"@ {
            Some(IndexType::Geo2D)
        } else if name == "2dsphere"@ {
            Some(IndexType::Geo2DSphere)
        } else if name == "geoHaystack"@ {
            Some(IndexType::GeoHaystack)
        } else {
            None
        }
    }

    /// The kind that an annotation calls `name`: `ascending`, `descending`,
    /// or one of the database's own names.
    pub open spec fn annotated(name: Seq<char>) -> Option<IndexType> {
        if name == "ascending"@ {
            Some(IndexType::Ordered(Order::Ascending))
        } else if name == "descending"@ {
            Some(IndexType::Ordered(Order::Descending))
        } else {
            IndexType::named(name)
        }
    }

    /// The name that the database gives the kind, where it has one.
    pub open spec fn name(self) -> Option<Seq<char>> {
        match self {
            IndexType::Ordered(_) => None,
            IndexType::Text => Some("text"@),
            IndexType::Hashed => Some("hashed"@),
            IndexType::Geo2D => Some("2d"@),
            IndexType::Geo2DSphere => Some("2dsphere"@),
            IndexType::GeoHaystack => Some("geoHaystack"@),
        }
    }

    /// The kind that the database calls `name`.
    pub fn from_name(name: &str) -> (r: Option<IndexType>)
        ensures
            r == IndexType::named(name@),
    {
        if same_text(name, "text") {
            Some(IndexType::Text)
        } else if same_text(name, "hashed") {
            Some(IndexType::Hashed)
        } else if same_text(name, "2d") {
            Some(IndexType::Geo2D)
        } else if same_text(name, "2dsphere") {
            Some(IndexType::Geo2DSphere)
        } else if same_text(name, "geoHaystack") {
            Some(IndexType::GeoHaystack)
        } else {
            None
        }
    }

    /// The kind that an annotation calls `name`.
    pub fn from_annotation(name: &str) -> (r: Option<IndexType>)
        ensures
            r == IndexType::annotated(name@),
    {
        if same_text(name, "ascending") {
            Some(IndexType::Ordered(Order::Ascending))
        } else if same_text(name, "descending") {
            Some(IndexType::Ordered(Order::Descending))
        } else {
            IndexType::from_name(name)
        }
    }

    /// The name that the database gives the kind, or the order of an
    /// ordered kind.
    pub fn as_name(self) -> (r: Result<&'static str, Order>)
        ensures
            match r {
                Ok(s) => self.name() == Some(s@),
                Err(order) => self == IndexType::Ordered(order),
            },
    {
        match self {
            IndexType::Ordered(order) => Err(order),
            IndexType::Text => Ok("text"),
            IndexType::Hashed => Ok("hashed"),
            IndexType::Geo2D => Ok("2d"),
            IndexType::Geo2DSphere => Ok("2dsphere"),
            IndexType::GeoHaystack => Ok("geoHaystack"),
        }
    }
}

/// Tells the current-date operator which kind of value to store.
#[derive(Debug, Clone, Copy, PartialEq, Eq, Structural, PartialOrd, Ord, Hash)]
pub enum DateTimeType {
    /// Store a timestamp.
    Timestamp,
    /// Store a date.
    Date,
}

impl DateTimeType {
    /// The name that the database gives the kind.
    pub open spec fn name(self) -> Seq<char> {
        match self {
            DateTimeType::Timestamp => "timestamp"@,
            DateTimeType::Date => "date"@,
        }
    }

    /// The name that the database gives the kind.
    pub fn as_str(self) -> (r: &'static str)
        ensures
            r@ == self.name(),
    {
        match self {
            DateTimeType::Timestamp => "timestamp",
            DateTimeType::Date => "date",
        }
    }

    /// The kind that the database calls `name`.
    pub fn from_name(name: &str) -> (r: Option<DateTimeType>)
        ensures
            r == (if name@ == "timestamp"@ {
                Some(DateTimeType::Timestamp)
            } else if name@ == "date"@ {
                Some(DateTimeType::Date)
            } else {
                None
            }),
    {
        if same_text(name, "timestamp") {
            Some(DateTimeType::Timestamp)
        } else if same_text(name, "date") {
            Some(DateTimeType::Date)
        } else {
            None
        }
    }
}

/// Case-insensitive matching; the letter `i`.
pub const IGNORE_CASE: u8 = 0b0000_0001;

/// `^` and `$` match at line breaks; the letter `m`.
pub const LINE_ANCHOR: u8 = 0b0000_0010;

/// Extended syntax with white space and comments; the letter `x`.
pub const EXTENDED: u8 = 0b0000_0100;

/// `.` matches line breaks too; the letter `s`.
pub const DOT_NEWLINE: u8 = 0b0000_1000;

/// The flag that a letter stands for among the options of a regular
/// expression.
pub open spec fn regex_flag(letter: char) -> Option<u8> {
    if letter == 'i' {
        Some(IGNORE_CASE)
    } else if letter == 'm' {
        Some(LINE_ANCHOR)
    } else if letter == 'x' {
        Some(EXTENDED)
    } else if letter == 's' {
        Some(DOT_NEWLINE)
    } else {
        None
    }
}

/// The flags that a text of letters stands for, or nothing where a letter
/// stands for none.
pub open spec fn regex_flags(letters: Seq<char>) -> Option<u8>
    decreases letters.len(),
{
    if letters.len() == 0 {
        Some(0u8)
    } else {
        match (regex_flags(letters.drop_last()), regex_flag(letters.last())) {
            (Some(flags), Some(flag)) => Some(flags | flag),
            _ => None,
        }
    }
}

/// The letter of a flag if the flag is set, nothing if it is not.
pub open spec fn letter_if(bits: u8, flag: u8, letter: char) -> Seq<char> {
    if bits & flag != 0 {
        seq![letter]
    } else {
        Seq::empty()
    }
}

/// The letters of the flags that are set, in the order `i`, `m`, `x`, `s`.
pub open spec fn regex_letters(bits: u8) -> Seq<char> {
    letter_if(bits, IGNORE_CASE, 'i') + letter_if(bits, LINE_ANCHOR, 'm') + letter_if(
        bits,
        EXTENDED,
        'x',
    ) + letter_if(bits, DOT_NEWLINE, 's')
}

/// The options of a regular expression, as flags.
#[derive(Debug, Clone, Copy, PartialEq, Eq, Structural, Hash)]
pub struct RegexOpts {
    /// The flags that are set.
    pub bits: u8,
}

impl RegexOpts {
    /// No option.
    pub fn empty() -> (r: RegexOpts)
        ensures
            r.bits == 0,
    {
        RegexOpts { bits: 0 }
    }

    /// The option that a letter stands for.
    pub fn from_letter(letter: char) -> (r: Option<RegexOpts>)
        ensures
            match r {
                Some(options) => regex_flag(letter) == Some(options.bits),
                None => regex_flag(letter) is None,
            },
    {
        if letter == 'i' {
            Some(RegexOpts { bits: IGNORE_CASE })
        } else if letter == 'm' {
            Some(RegexOpts { bits: LINE_ANCHOR })
        } else if letter == 'x' {
            Some(RegexOpts { bits: EXTENDED })
        } else if letter == 's' {
            Some(RegexOpts { bits: DOT_NEWLINE })
        } else {
            None
        }
    }

    /// The options that a text of letters stands for; a letter that stands
    /// for none makes the whole text stand for none.
    pub fn from_letters(letters: &str) -> (r: Option<RegexOpts>)
        ensures
            match r {
                Some(options) => regex_flags(letters@) == Some(options.bits),
                None => regex_flags(letters@) is None,
            },
    {
        let mut bits: u8 = 0;
        let n = letters.unicode_len();
        let mut i: usize = 0;
        proof {
            assert(letters@.subrange(0, 0).len() == 0);
        }
        while i < n
            invariant
                i <= n == letters@.len(),
                regex_flags(letters@.subrange(0, i as int)) == Some(bits),
            decreases n - i,
        {
            proof {
                assert(letters@.subrange(0, i + 1).drop_last() == letters@.subrange(0, i as int));
                assert(letters@.subrange(0, i + 1).last() == letters@[i as int]);
            }
            match RegexOpts::from_letter(letters.get_char(i)) {
                Some(option) => {
                    bits = bits | option.bits;
                },
                None => {
                    proof {
                        lemma_regex_flags_fail(letters@, i + 1);
                    }
                    return None;
                },
            }
            i += 1;
        }
        proof {
            assert(letters@.subrange(0, n as int) == letters@);
        }
        Some(RegexOpts { bits })
    }

    /// The letters of the options that are set, in the order `i`, `m`,
    /// `x`, `s`.
    pub fn letters(&self) -> (r: String)
        ensures
            r@ == regex_letters(self.bits),
    {
        let mut out = String::new();
        if self.bits & IGNORE_CASE != 0 {
            out.push('i');
        }
        if self.bits & LINE_ANCHOR != 0 {
            out.push('m');
        }
        if self.bits & EXTENDED != 0 {
            out.push('x');
        }
        if self.bits & DOT_NEWLINE != 0 {
            out.push('s');
        }
        proof {
            assert(out@ =~= regex_letters(self.bits));
        }
        out
    }
}

/// Once a prefix of the letters stands for nothing, so does the whole text.
pub proof fn lemma_regex_flags_fail(letters: Seq<char>, n: int)
    requires
        0 <= n <= letters.len(),
        regex_flags(letters.subrange(0, n)) is None,
    ensures
        regex_flags(letters) is None,
    decreases letters.len() - n,
{
    if n < letters.len() {
        assert(letters.subrange(0, n + 1).drop_last() == letters.subrange(0, n));
        lemma_regex_flags_fail(letters, n + 1);
    } else {
        assert(letters.subrange(0, n) == letters);
    }
}

/// Reading the letters of a set of options gives the options back.
pub proof fn lemma_regex_letters_read_back(bits: u8)
    requires
        bits < 16,
    ensures
        regex_flags(regex_letters(bits)) == Some(bits),
{
    let i = letter_if(bits, IGNORE_CASE, 'i');
    let m = letter_if(bits, LINE_ANCHOR, 'm');
    let x = letter_if(bits, EXTENDED, 'x');
    let s = letter_if(bits, DOT_NEWLINE, 's');
    let b1: u8 = bits & 1;
    let b2: u8 = bits & 3;
    let b3: u8 = bits & 7;
    assert(regex_flags(i) == Some(b1)) by {
        if bits & 1 != 0 {
            assert(i.drop_last() =~= Seq::<char>::empty());
            assert(regex_flags(i.drop_last()) == Some(0u8));
            assert(0u8 | 1u8 == 1u8) by (bit_vector);
            assert(bits & 1 != 0 ==> bits & 1 == 1) by (bit_vector);
        }
    }
    assert(regex_flags(i + m) == Some(b2)) by {
        if bits & 2 != 0 {
            assert((i + m).drop_last() =~= i);
            assert(bits & 2 != 0 ==> (bits & 1) | 2 == bits & 3) by (bit_vector);
        } else {
            assert(i + m =~= i);
            assert(bits & 2 == 0 ==> bits & 1 == bits & 3) by (bit_vector);
        }
    }
    assert(regex_flags(i + m + x) == Some(b3)) by {
        if bits & 4 != 0 {
            assert((i + m + x).drop_last() =~= i + m);
            assert(bits & 4 != 0 ==> (bits & 3) | 4 == bits & 7) by (bit_vector);
        } else {
            assert(i + m + x =~= i + m);
            assert(bits & 4 == 0 ==> bits & 3 == bits & 7) by (bit_vector);
        }
    }
    if bits & 8 != 0 {
        assert((i + m + x + s).drop_last() =~= i + m + x);
        assert(bits & 8 != 0 && bits < 16 ==> (bits & 7) | 8 == bits) by (bit_vector);
    } else {
        assert(i + m + x + s =~= i + m + x);
        assert(bits & 8 == 0 && bits < 16 ==> bits & 7 == bits) by (bit_vector);
    }
}

/// The `null` value.
pub const TYPE_NULL: u16 = 0x1;

/// `true` or `false`.
pub const TYPE_BOOL: u16 = 0x2;

/// Double-precision floating-point number.
pub const TYPE_DOUBLE: u16 = 0x4;

/// 32-bit signed integer.
pub const TYPE_INT: u16 = 0x8;

/// 64-bit signed integer.
pub const TYPE_LONG: u16 = 0x10;

/// 128-bit decimal number.
pub const TYPE_DECIMAL: u16 = 0x20;

/// An object identifier.
pub const TYPE_OBJECT_ID: u16 = 0x40;

/// Timestamp.
pub const TYPE_TIMESTAMP: u16 = 0x80;

/// Date and time.
pub const TYPE_DATE: u16 = 0x100;

/// String.
pub const TYPE_STRING: u16 = 0x200;

/// Regular expression and its matching options.
pub const TYPE_REGEX: u16 = 0x400;

/// Binary data.
pub const TYPE_BINARY: u16 = 0x800;

/// Array.
pub const TYPE_ARRAY: u16 = 0x1000;

/// Document or object.
pub const TYPE_DOCUMENT: u16 = 0x2000;

/// JavaScript code.
pub const TYPE_JAVASCRIPT: u16 = 0x4000;

/// JavaScript code with scope.
pub const TYPE_JAVASCRIPT_WITH_SCOPE: u16 = 0x8000;

/// Any of the four numeric types.
pub const TYPE_NUMBER: u16 = 0x3c;

/// How many types have a flag and a name.
pub const TYPE_COUNT: usize = 16;

/// The flag at a position of the table of types.
pub open spec fn type_flag(i: int) -> u16 {
    if i == 0 {
        TYPE_NULL
    } else if i == 1 {
        TYPE_BOOL
    } else if i == 2 {
        TYPE_DOUBLE
    } else if i == 3 {
        TYPE_INT
    } else if i == 4 {
        TYPE_LONG
    } else if i == 5 {
        TYPE_DECIMAL
    } else if i == 6 {
        TYPE_OBJECT_ID
    } else if i == 7 {
        TYPE_TIMESTAMP
    } else if i == 8 {
        TYPE_DATE
    } else if i == 9 {
        TYPE_STRING
    } else if i == 10 {
        TYPE_REGEX
    } else if i == 11 {
        TYPE_BINARY
    } else if i == 12 {
        TYPE_ARRAY
    } else if i == 13 {
        TYPE_DOCUMENT
    } else if i == 14 {
        TYPE_JAVASCRIPT
    } else {
        TYPE_JAVASCRIPT_WITH_SCOPE
    }
}

/// The name that the database gives the type at a position of the table.
/// Both integer types go by the name `int`.
pub open spec fn alias(i: int) -> Seq<char> {
    if i == 0 {
        "null"@
    } else if i == 1 {
        "bool"@
    } else if i == 2 {
        "double"@
    } else if i == 3 {
        "int"@
    } else if i == 4 {
        "int"@
    } else if i == 5 {
        "decimal"@
    } else if i == 6 {
        "objectId"@
    } else if i == 7 {
        "timestamp"@
    } else if i == 8 {
        "date"@
    } else if i == 9 {
        "string"@
    } else if i == 10 {
        "regex"@
    } else if i == 11 {
        "binData"@
    } else if i == 12 {
        "array"@
    } else if i == 13 {
        "object"@
    } else if i == 14 {
        "javascript"@
    } else {
        "javascriptWithScope"@
    }
}

/// The names of the types among the first `n` of the table whose flags are
/// set, in the order of the table.
pub open spec fn aliases(bits: u16, n: int) -> Seq<Seq<char>>
    decreases n,
{
    if n <= 0 {
        Seq::empty()
    } else if bits & type_flag(n - 1) == type_flag(n - 1) {
        aliases(bits, n - 1).push(alias(n - 1))
    } else {
        aliases(bits, n - 1)
    }
}

/// The flag of the first type among the first `n` of the table that goes
/// by a name.
pub open spec fn type_with_alias(name: Seq<char>, n: int) -> Option<u16>
    decreases n,
{
    if n <= 0 {
        None
    } else {
        match type_with_alias(name, n - 1) {
            Some(flag) => Some(flag),
            None => if name == alias(n - 1) {
                Some(type_flag(n - 1))
            } else {
                None
            },
        }
    }
}

/// The flags of the types that a list of names stands for, or nothing
/// where a name stands for none.
pub open spec fn types_with_aliases(names: Seq<Seq<char>>) -> Option<u16>
    decreases names.len(),
{
    if names.len() == 0 {
        Some(0u16)
    } else {
        match (types_with_aliases(names.drop_last()), type_with_alias(names.last(), TYPE_COUNT as int)) {
            (Some(flags), Some(flag)) => Some(flags | flag),
            _ => None,
        }
    }
}

/// The characters of each of a sequence of texts.
pub open spec fn texts_view(texts: Seq<&'static str>) -> Seq<Seq<char>> {
    Seq::new(texts.len(), |i: int| texts[i]@)
}

/// The characters of each of a sequence of strings.
pub open spec fn strings_view(texts: Seq<String>) -> Seq<Seq<char>> {
    Seq::new(texts.len(), |i: int| texts[i]@)
}

/// The flag at a position of the table of types.
pub fn type_flag_at(i: usize) -> (r: u16)
    ensures
        r == type_flag(i as int),
{
    if i == 0 {
        TYPE_NULL
    } else if i == 1 {
        TYPE_BOOL
    } else if i == 2 {
        TYPE_DOUBLE
    } else if i == 3 {
        TYPE_INT
    } else if i == 4 {
        TYPE_LONG
    } else if i == 5 {
        TYPE_DECIMAL
    } else if i == 6 {
        TYPE_OBJECT_ID
    } else if i == 7 {
        TYPE_TIMESTAMP
    } else if i == 8 {
        TYPE_DATE
    } else if i == 9 {
        TYPE_STRING
    } else if i == 10 {
        TYPE_REGEX
    } else if i == 11 {
        TYPE_BINARY
    } else if i == 12 {
        TYPE_ARRAY
    } else if i == 13 {
        TYPE_DOCUMENT
    } else if i == 14 {
        TYPE_JAVASCRIPT
    } else {
        TYPE_JAVASCRIPT_WITH_SCOPE
    }
}

/// The name of the type at a position of the table of types.
pub fn alias_at(i: usize) -> (r: &'static str)
    ensures
        r@ == alias(i as int),
{
    if i == 0 {
        "null"
    } else if i == 1 {
        "bool"
    } else if i == 2 {
        "double"
    } else if i == 3 {
        "int"
    } else if i == 4 {
        "int"
    } else if i == 5 {
        "decimal"
    } else if i == 6 {
        "objectId"
    } else if i == 7 {
        "timestamp"
    } else if i == 8 {
        "date"
    } else if i == 9 {
        "string"
    } else if i == 10 {
        "regex"
    } else if i == 11 {
        "binData"
    } else if i == 12 {
        "array"
    } else if i == 13 {
        "object"
    } else if i == 14 {
        "javascript"
    } else {
        "javascriptWithScope"
    }
}

/// How a set of types is written for the database.
#[derive(Debug, Clone, PartialEq, Eq, Hash)]
pub enum TypeNames {
    /// A single type, written as its name.
    One(&'static str),
    /// Several types, written as the list of their names.
    Many(Vec<&'static str>),
}

/// A set of the types that the database knows, as flags. It is what the
/// `$type` operator takes.
#[derive(Debug, Clone, Copy, PartialEq, Eq, Structural, Hash)]
pub struct BsonType {
    /// The flags that are set.
    pub bits: u16,
}

impl BsonType {
    /// The names of the types in the set, in the order of the table.
    pub fn names(&self) -> (r: Vec<&'static str>)
        ensures
            texts_view(r@) == aliases(self.bits, TYPE_COUNT as int),
    {
        let mut out: Vec<&'static str> = Vec::new();
        let mut i: usize = 0;
        proof {
            assert(texts_view(out@) =~= Seq::empty());
        }
        while i < TYPE_COUNT
            invariant
                i <= TYPE_COUNT,
                texts_view(out@) == aliases(self.bits, i as int),
            decreases TYPE_COUNT - i,
        {
            let flag = type_flag_at(i);
            let ghost before = out@;
            if self.bits & flag == flag {
                let name = alias_at(i);
                out.push(name);
                proof {
                    assert(texts_view(out@) =~= texts_view(before).push(name@));
                }
            }
            i += 1;
        }
        out
    }

    /// How the set is written for the database: a single name, a list of
    /// names, or not at all where the set holds no type.
    pub fn written(&self) -> (r: Option<TypeNames>)
        ensures
            match r {
                None => aliases(self.bits, TYPE_COUNT as int).len() == 0,
                Some(TypeNames::One(name)) => aliases(self.bits, TYPE_COUNT as int) == seq![
                    name@,
                ],
                Some(TypeNames::Many(names)) => names.len() > 1 && texts_view(names@)
                    == aliases(self.bits, TYPE_COUNT as int),
            },
    {
        let names = self.names();
        if names.len() == 0 {
            None
        } else if names.len() == 1 {
            proof {
                assert(texts_view(names@) =~= seq![names@[0]@]);
            }
            Some(TypeNames::One(names[0]))
        } else {
            Some(TypeNames::Many(names))
        }
    }

    /// The type that goes by a name: the first one of the table.
    pub fn from_name(name: &str) -> (r: Option<BsonType>)
        ensures
            match r {
                Some(ty) => type_with_alias(name@, TYPE_COUNT as int) == Some(ty.bits),
                None => type_with_alias(name@, TYPE_COUNT as int) is None,
            },
    {
        let mut i: usize = 0;
        while i < TYPE_COUNT
            invariant
                i <= TYPE_COUNT,
                type_with_alias(name@, i as int) is None,
            decreases TYPE_COUNT - i,
        {
            if same_text(alias_at(i), name) {
                proof {
                    lemma_type_named_found(name@, i as int, TYPE_COUNT as int);
                }
                return Some(BsonType { bits: type_flag_at(i) });
            }
            i += 1;
        }
        None
    }

    /// The set of the types that go by the names of a list; a name that no
    /// type goes by makes the whole list stand for none.
    pub fn from_names(names: &Vec<String>) -> (r: Option<BsonType>)
        ensures
            match r {
                Some(ty) => types_with_aliases(strings_view(names@)) == Some(ty.bits),
                None => types_with_aliases(strings_view(names@)) is None,
            },
    {
        let ghost all = strings_view(names@);
        let mut bits: u16 = 0;
        let n = names.len();
        let mut i: usize = 0;
        proof {
            assert(all.subrange(0, 0).len() == 0);
        }
        while i < n
            invariant
                i <= n == names.len(),
                all == strings_view(names@),
                types_with_aliases(all.subrange(0, i as int)) == Some(bits),
            decreases n - i,
        {
            proof {
                assert(all.subrange(0, i + 1).drop_last() == all.subrange(0, i as int));
                assert(all.subrange(0, i + 1).last() == names@[i as int]@);
            }
            match BsonType::from_name(names[i].as_str()) {
                Some(ty) => {
                    bits = bits | ty.bits;
                },
                None => {
                    proof {
                        lemma_types_named_fail(all, i + 1);
                    }
                    return None;
                },
            }
            i += 1;
        }
        proof {
            assert(all.subrange(0, n as int) == all);
        }
        Some(BsonType { bits })
    }
}

impl Default for BsonType {
    /// The default type is `null`.
    fn default() -> (r: BsonType)
        ensures
            r.bits == TYPE_NULL,
    {
        BsonType { bits: TYPE_NULL }
    }
}

/// A name that is found first stays the one that is found.
pub proof fn lemma_type_named_found(name: Seq<char>, i: int, n: int)
    requires
        0 <= i < n,
        type_with_alias(name, i) is None,
        name == alias(i),
    ensures
        type_with_alias(name, n) == Some(type_flag(i)),
    decreases n - i,
{
    if i + 1 < n {
        lemma_type_named_found(name, i, n - 1);
    }
}

/// Once a prefix of the names stands for nothing, so does the whole list.
pub proof fn lemma_types_named_fail(names: Seq<Seq<char>>, n: int)
    requires
        0 <= n <= names.len(),
        types_with_aliases(names.subrange(0, n)) is None,
    ensures
        types_with_aliases(names) is None,
    decreases names.len() - n,
{
    if n < names.len() {
        assert(names.subrange(0, n + 1).drop_last() == names.subrange(0, n));
        lemma_types_named_fail(names, n + 1);
    } else {
        assert(names.subrange(0, n) == names);
    }
}

} // verus!
