//! The lexical units an annotation is made of, as the host syntax hands them
//! over, and their mathematical models.

use vstd::prelude::*;

verus! {

/// A double-precision number, held as its IEEE 754 binary64 bit pattern.
///
/// Numbers are carried, compared and range-checked by their bits; no
/// arithmetic is done on them.
#[derive(Debug, Clone, Copy, PartialEq, Eq, Structural, Hash)]
pub struct Binary64 {
    /// Sign bit, eleven exponent bits, fifty-two fraction bits.
    pub bits: u64,
}

/// The value of the sign bit of a binary64 pattern.
pub const SIGN_BIT: u64 = 0x8000_0000_0000_0000;

/// The bit pattern of positive infinity; a larger magnitude is not a number.
pub const INFINITY_BITS: u64 = 0x7ff0_0000_0000_0000;

impl Binary64 {
    /// Whether the sign bit is set.
    pub open spec fn negative(self) -> bool {
        self.bits >= SIGN_BIT
    }

    /// The pattern without its sign bit.
    pub open spec fn magnitude(self) -> int {
        if self.negative() {
            self.bits - SIGN_BIT
        } else {
            self.bits as int
        }
    }

    /// Whether the pattern encodes "not a number".
    pub open spec fn is_nan(self) -> bool {
        self.magnitude() > INFINITY_BITS
    }

    /// An integer that orders the numbers as IEEE 754 does: among patterns
    /// that are numbers, `a` is at most `b` exactly when `a.rank() <=
    /// b.rank()`. Both zeros have rank 0.
    pub open spec fn rank(self) -> int {
        if self.negative() {
            -self.magnitude()
        } else {
            self.magnitude()
        }
    }

    /// IEEE 754 `<=`: false as soon as one side is not a number.
    pub open spec fn at_most(self, other: Binary64) -> bool {
        !self.is_nan() && !other.is_nan() && self.rank() <= other.rank()
    }

    /// IEEE 754 `<`: false as soon as one side is not a number.
    pub open spec fn below(self, other: Binary64) -> bool {
        !self.is_nan() && !other.is_nan() && self.rank() < other.rank()
    }

    /// Wraps a bit pattern.
    pub fn from_bits(bits: u64) -> (r: Binary64)
        ensures
            r.bits == bits,
    {
        Binary64 { bits }
    }

    /// The bit pattern.
    pub fn to_bits(&self) -> (r: u64)
        ensures
            r == self.bits,
    {
        self.bits
    }

    /// Whether this pattern is not a number.
    pub fn not_a_number(&self) -> (r: bool)
        ensures
            r == self.is_nan(),
    {
        let magnitude: u64 = if self.bits >= SIGN_BIT {
            self.bits - SIGN_BIT
        } else {
            self.bits
        };
        magnitude > INFINITY_BITS
    }

    /// The rank as a machine integer.
    fn rank_of(&self) -> (r: i128)
        ensures
            r == self.rank(),
    {
        if self.bits >= SIGN_BIT {
            let magnitude: u64 = self.bits - SIGN_BIT;
            let wide: i128 = magnitude as i128;
            -wide
        } else {
            self.bits as i128
        }
    }

    /// Whether `self <= other` as numbers.
    pub fn le(&self, other: &Binary64) -> (r: bool)
        ensures
            r == self.at_most(*other),
    {
        !self.not_a_number() && !other.not_a_number() && self.rank_of() <= other.rank_of()
    }

    /// Whether `self < other` as numbers.
    pub fn lt(&self, other: &Binary64) -> (r: bool)
        ensures
            r == self.below(*other),
    {
        !self.not_a_number() && !other.not_a_number() && self.rank_of() < other.rank_of()
    }
}

/// How a group of tokens is enclosed.
#[derive(Debug, Clone, Copy, PartialEq, Eq, Structural, Hash)]
pub enum Delimiter {
    /// `( ... )`
    Parenthesis,
    /// `{ ... }`
    Brace,
    /// `[ ... ]`
    Bracket,
    /// A group without visible delimiters.
    Invisible,
}

/// Whether a punctuation character is directly followed by another one.
#[derive(Debug, Clone, Copy, PartialEq, Eq, Structural, Hash)]
pub enum Spacing {
    /// Followed by something that is not punctuation, or by a space.
    Alone,
    /// Immediately followed by another punctuation character.
    Joint,
}

/// A literal value, tagged by its kind.
///
/// The host reads numbers: where a literal can stand for a double-precision
/// number, it carries that number.
#[derive(Debug, Clone, PartialEq, Eq, Hash)]
pub enum Literal {
    /// A string, with the number that its text spells, if it spells one.
    Str(String, Option<Binary64>),
    /// A byte string, with the number that its bytes spell as UTF-8 text, if
    /// they spell one.
    ByteStr(Vec<u8>, Option<Binary64>),
    /// An unsigned integer, with the nearest double-precision number.
    Int(u64, Binary64),
    /// A floating-point number, and how it is written.
    Float(Binary64, String),
    /// `true` or `false`.
    Bool(bool),
    /// Any other literal (a character, a byte, a number too large, a
    /// documentation comment), as its source text.
    Other(String),
}

/// The model of a [`Literal`].
pub ghost enum LiteralView {
    Str(Seq<char>, Option<Binary64>),
    ByteStr(Seq<u8>, Option<Binary64>),
    Int(u64, Binary64),
    Float(Binary64, Seq<char>),
    Bool(bool),
    Other(Seq<char>),
}

impl View for Literal {
    type V = LiteralView;

    open spec fn view(&self) -> LiteralView {
        match *self {
            Literal::Str(s, n) => LiteralView::Str(s@, n),
            Literal::ByteStr(b, n) => LiteralView::ByteStr(b@, n),
            Literal::Int(v, n) => LiteralView::Int(v, n),
            Literal::Float(n, s) => LiteralView::Float(n, s@),
            Literal::Bool(b) => LiteralView::Bool(b),
            Literal::Other(s) => LiteralView::Other(s@),
        }
    }
}

impl Literal {
    /// A copy of the literal.
    pub fn duplicate(&self) -> (r: Literal)
        ensures
            r@ == self@,
    {
        match self {
            Literal::Str(s, n) => Literal::Str(s.clone(), *n),
            Literal::ByteStr(b, n) => Literal::ByteStr(b.clone(), *n),
            Literal::Int(v, n) => Literal::Int(*v, *n),
            Literal::Float(n, s) => Literal::Float(*n, s.clone()),
            Literal::Bool(b) => Literal::Bool(*b),
            Literal::Other(s) => Literal::Other(s.clone()),
        }
    }
}

/// One token of an annotation.
#[derive(Debug, PartialEq, Eq, Hash)]
pub enum Token {
    /// An identifier.
    Ident(String),
    /// One punctuation character.
    Punct(char, Spacing),
    /// A literal.
    Literal(Literal),
    /// A delimited group of tokens.
    Group(Delimiter, Vec<Token>),
}

/// The model of a [`Token`].
pub ghost enum TokenView {
    Ident(Seq<char>),
    Punct(char, Spacing),
    Literal(LiteralView),
    Group(Delimiter, Seq<TokenView>),
}

impl View for Token {
    type V = TokenView;

    open spec fn view(&self) -> TokenView
        decreases self,
    {
        match *self {
            Token::Ident(s) => TokenView::Ident(s@),
            Token::Punct(c, spacing) => TokenView::Punct(c, spacing),
            Token::Literal(l) => TokenView::Literal(l@),
            Token::Group(d, inner) => TokenView::Group(d, tokens_view(inner@)),
        }
    }
}

/// The models of a sequence of tokens, in order.
pub open spec fn tokens_view(tokens: Seq<Token>) -> Seq<TokenView>
    decreases tokens,
{
    Seq::new(
        tokens.len(),
        |i: int|
            if 0 <= i < tokens.len() {
                tokens[i]@
            } else {
                TokenView::Punct(' ', Spacing::Alone)
            },
    )
}

} // verus!
