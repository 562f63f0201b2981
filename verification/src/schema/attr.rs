//! The annotation grammar: a path, then nothing, a parenthesized list, or
//! `=` and a literal.

use vstd::prelude::*;
use crate::schema::token::{tokens_view, Literal, LiteralView, Token, TokenView};
use crate::text::same_text;

verus! {

/// A possibly multi-component name: `a`, or `a::b::c`.
#[derive(Debug, Clone, PartialEq, Eq, Hash)]
pub struct Path {
    /// The components, in order.
    pub segments: Vec<String>,
}

/// The characters of each of a sequence of strings.
pub open spec fn names_view(names: Seq<String>) -> Seq<Seq<char>> {
    Seq::new(names.len(), |i: int| names[i]@)
}

impl View for Path {
    type V = Seq<Seq<char>>;

    open spec fn view(&self) -> Seq<Seq<char>> {
        names_view(self.segments@)
    }
}

/// The names one after the other, with `sep` between each two.
pub open spec fn separated(names: Seq<Seq<char>>, sep: Seq<char>) -> Seq<char>
    decreases names.len(),
{
    if names.len() == 0 {
        Seq::empty()
    } else if names.len() == 1 {
        names[0]
    } else {
        separated(names.drop_last(), sep) + sep + names.last()
    }
}

/// The two ways to print a path.
pub trait PathExt {
    /// The components of the path.
    spec fn names(&self) -> Seq<Seq<char>>;

    /// The components joined by `::`.
    fn colon_sep_str(&self) -> (r: String)
        ensures
            r@ == separated(self.names(), "::"@),
    ;

    /// The components joined by `.`, which is how a database names a field
    /// inside an embedded document.
    fn dot_sep_str(&self) -> (r: String)
        ensures
            r@ == separated(self.names(), "."@),
    ;
}

impl Path {
    /// The components joined by `sep`.
    pub fn join(&self, sep: &str) -> (r: String)
        ensures
            r@ == separated(self@, sep@),
    {
        let mut out = String::new();
        let n = self.segments.len();
        let mut i: usize = 0;
        while i < n
            invariant
                n == self.segments.len(),
                i <= n,
                out@ == separated(self@.subrange(0, i as int), sep@),
            decreases n - i,
        {
            if i > 0 {
                out.append(sep);
            }
            out.append(self.segments[i].as_str());
            proof {
                let before = self@.subrange(0, i as int);
                let now = self@.subrange(0, i + 1);
                assert(now.drop_last() == before);
                assert(now.last() == self.segments@[i as int]@);
                if i == 0 {
                    assert(out@ == now[0]);
                }
            }
            i += 1;
        }
        assert(self@.subrange(0, n as int) == self@);
        out
    }

    /// A copy of the path.
    pub fn duplicate(&self) -> (r: Path)
        ensures
            r@ == self@,
    {
        let mut segments: Vec<String> = Vec::new();
        let n = self.segments.len();
        let mut i: usize = 0;
        while i < n
            invariant
                n == self.segments.len(),
                i <= n,
                segments.len() == i,
                forall|k: int| 0 <= k < i ==> segments@[k]@ == self.segments@[k]@,
            decreases n - i,
        {
            segments.push(self.segments[i].clone());
            i += 1;
        }
        let r = Path { segments };
        assert(r@ =~= self@);
        r
    }

    /// Whether the path is the single component `name`.
    pub fn is_name(&self, name: &str) -> (r: bool)
        ensures
            r == (self@ == seq![name@]),
    {
        if self.segments.len() == 1 {
            let same = same_text(self.segments[0].as_str(), name);
            proof {
                if same {
                    assert(self@ =~= seq![name@]);
                } else {
                    assert(self@[0] == self.segments@[0]@);
                    assert(seq![name@][0] == name@);
                }
            }
            same
        } else {
            proof {
                assert(self@.len() != seq![name@].len());
            }
            false
        }
    }
}

impl PathExt for Path {
    open spec fn names(&self) -> Seq<Seq<char>> {
        self@
    }

    fn colon_sep_str(&self) -> (r: String) {
        self.join("::")
    }

    fn dot_sep_str(&self) -> (r: String) {
        self.join(".")
    }
}

/// One parsed node of the annotation grammar.
#[derive(Debug, PartialEq, Eq, Hash)]
pub enum ExtMeta {
    /// A path alone, like `unique`.
    Path(Path),
    /// A path and a parenthesized list, like `keys(a = "text")`.
    List(Path, Vec<NestedExtMeta>),
    /// A path, `=` and a literal, like `bits = 26`.
    KeyValue(Path, Literal),
}

/// An element of a list: a node, or a bare literal.
#[derive(Debug, PartialEq, Eq, Hash)]
pub enum NestedExtMeta {
    /// A node.
    Meta(ExtMeta),
    /// A literal.
    Literal(Literal),
}

/// The model of an [`ExtMeta`].
pub ghost enum MetaView {
    Path(Seq<Seq<char>>),
    List(Seq<Seq<char>>, Seq<NestedView>),
    KeyValue(Seq<Seq<char>>, LiteralView),
}

/// The model of a [`NestedExtMeta`].
pub ghost enum NestedView {
    Meta(MetaView),
    Literal(LiteralView),
}

impl MetaView {
    /// The path that the node starts with.
    pub open spec fn path(self) -> Seq<Seq<char>> {
        match self {
            MetaView::Path(p) => p,
            MetaView::List(p, _) => p,
            MetaView::KeyValue(p, _) => p,
        }
    }
}

impl View for ExtMeta {
    type V = MetaView;

    open spec fn view(&self) -> MetaView
        decreases self,
    {
        match *self {
            ExtMeta::Path(p) => MetaView::Path(p@),
            ExtMeta::List(p, items) => MetaView::List(p@, nested_views(items@)),
            ExtMeta::KeyValue(p, l) => MetaView::KeyValue(p@, l@),
        }
    }
}

impl View for NestedExtMeta {
    type V = NestedView;

    open spec fn view(&self) -> NestedView
        decreases self,
    {
        match *self {
            NestedExtMeta::Meta(m) => NestedView::Meta(m@),
            NestedExtMeta::Literal(l) => NestedView::Literal(l@),
        }
    }
}

/// The models of a sequence of list elements, in order.
pub open spec fn nested_views(items: Seq<NestedExtMeta>) -> Seq<NestedView>
    decreases items,
{
    Seq::new(
        items.len(),
        |i: int|
            if 0 <= i < items.len() {
                items[i]@
            } else {
                NestedView::Literal(LiteralView::Bool(false))
            },
    )
}

/// The model of a parse result.
pub open spec fn meta_option_view(r: Option<ExtMeta>) -> Option<MetaView> {
    match r {
        Some(m) => Some(m@),
        None => None,
    }
}

impl ExtMeta {
    /// The path that the node starts with.
    pub fn path(&self) -> (r: &Path)
        ensures
            r@ == self@.path(),
    {
        match self {
            ExtMeta::Path(path) => path,
            ExtMeta::List(path, _) => path,
            ExtMeta::KeyValue(path, _) => path,
        }
    }

    /// The path that the node starts with, its components joined by `::`.
    pub fn path_str(&self) -> (r: String)
        ensures
            r@ == separated(self@.path(), "::"@),
    {
        self.path().colon_sep_str()
    }
}

/// One annotation as the host hands it over: the path it starts with, and
/// the tokens after the path.
#[derive(Debug, PartialEq, Eq, Hash)]
pub struct Attribute {
    /// The path, like `index` or `serde`.
    pub path: Path,
    /// Everything after the path.
    pub tokens: Vec<Token>,
}

/// The model of an [`Attribute`].
pub ghost struct AttributeView {
    pub path: Seq<Seq<char>>,
    pub tokens: Seq<TokenView>,
}

impl View for Attribute {
    type V = AttributeView;

    open spec fn view(&self) -> AttributeView {
        AttributeView { path: self.path@, tokens: tokens_view(self.tokens@) }
    }
}

/// The models of a sequence of annotations, in order.
pub open spec fn attributes_view(attrs: Seq<Attribute>) -> Seq<AttributeView> {
    Seq::new(attrs.len(), |i: int| attrs[i]@)
}

/// Parsing of an annotation into a node of the grammar.
pub trait AttributeExt {
    /// The node that the annotation spells, if it follows the grammar.
    spec fn meaning(&self) -> Option<MetaView>;

    /// Parses the annotation. Paths are accepted as keys, not only single
    /// identifiers.
    fn parse_ext_meta(&self) -> (r: Option<ExtMeta>)
        ensures
            meta_option_view(r) == self.meaning(),
    ;
}

} // verus!
