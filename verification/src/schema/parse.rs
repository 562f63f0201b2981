//! The parser for the annotation grammar.
//!
//! The grammar is stated over a window `lo..hi` of a token sequence, so that
//! a slice of a list is named without being copied.

use vstd::prelude::*;
use crate::schema::attr::{
    meta_option_view, names_view, nested_views, Attribute, AttributeExt, ExtMeta, MetaView,
    NestedExtMeta, NestedView, Path,
};
use crate::schema::token::{
    tokens_view, Delimiter, Literal, LiteralView, Spacing, Token, TokenView,
};
use crate::text::same_text;

verus! {

/// A comma that separates two elements of a list.
pub open spec fn is_comma(t: TokenView) -> bool {
    t == TokenView::Punct(',', Spacing::Alone)
}

/// The `=` between a key and its value.
pub open spec fn is_assign(t: TokenView) -> bool {
    t == TokenView::Punct('=', Spacing::Alone)
}

/// Whether a `::` stands at `i` and `i + 1`, inside the window that ends at
/// `hi`.
pub open spec fn separator_at(toks: Seq<TokenView>, i: int, hi: int) -> bool {
    &&& 0 <= i
    &&& i + 1 < hi
    &&& hi <= toks.len()
    &&& toks[i] == TokenView::Punct(':', Spacing::Joint)
    &&& toks[i + 1] == TokenView::Punct(':', Spacing::Alone)
}

/// Whether the path that starts with the identifier at `lo` goes on with
/// `::` and another identifier.
pub open spec fn path_continues(toks: Seq<TokenView>, lo: int, hi: int) -> bool {
    &&& separator_at(toks, lo + 1, hi)
    &&& lo + 3 < hi
    &&& toks[lo + 3] is Ident
}

/// How many tokens the path takes that starts with the identifier at `lo`:
/// an identifier, then `::` and an identifier as often as they follow.
pub open spec fn path_length(toks: Seq<TokenView>, lo: int, hi: int) -> nat
    decreases hi - lo,
{
    if path_continues(toks, lo, hi) {
        3 + path_length(toks, lo + 3, hi)
    } else {
        1
    }
}

/// The components of the path that starts with the identifier at `lo`.
pub open spec fn path_names(toks: Seq<TokenView>, lo: int, hi: int) -> Seq<Seq<char>>
    decreases hi - lo,
{
    if path_continues(toks, lo, hi) {
        seq![toks[lo]->Ident_0] + path_names(toks, lo + 3, hi)
    } else {
        seq![toks[lo]->Ident_0]
    }
}

/// A literal whose text starts like a comment. It is no value.
pub open spec fn is_doc_comment(l: LiteralView) -> bool {
    l matches LiteralView::Other(text) && text.len() > 0 && text[0] == '/'
}

/// The value that a token stands for after `=`: a literal that is no
/// comment, or one of the words `true` and `false`.
pub open spec fn value_of(t: TokenView) -> Option<LiteralView> {
    match t {
        TokenView::Literal(l) => if is_doc_comment(l) {
            None
        } else {
            Some(l)
        },
        TokenView::Ident(name) => if name == "true"@ {
            Some(LiteralView::Bool(true))
        } else if name == "false"@ {
            Some(LiteralView::Bool(false))
        } else {
            None
        },
        _ => None,
    }
}

/// How many tokens stand in the window before its first comma (all of
/// them, if it holds none).
pub open spec fn run_length(toks: Seq<TokenView>, lo: int, hi: int) -> nat
    decreases hi - lo,
{
    if lo >= hi || lo < 0 || hi > toks.len() || is_comma(toks[lo]) {
        0
    } else {
        1 + run_length(toks, lo + 1, hi)
    }
}

/// The node that a path makes with the tokens `lo..hi` that follow it:
/// none of them, one parenthesized list, or `=` and a value. Anything else
/// is outside the grammar.
pub open spec fn meta_of(path: Seq<Seq<char>>, toks: Seq<TokenView>, lo: int, hi: int) -> Option<
    MetaView,
>
    decreases toks, 0nat,
{
    if lo >= hi {
        Some(MetaView::Path(path))
    } else if lo < 0 || hi > toks.len() {
        None
    } else if hi - lo == 1 {
        match toks[lo] {
            TokenView::Group(Delimiter::Parenthesis, inner) => match items_of(
                inner,
                0,
                inner.len() as int,
            ) {
                Some(items) => Some(MetaView::List(path, items)),
                None => None,
            },
            _ => None,
        }
    } else if hi - lo == 2 && is_assign(toks[lo]) {
        match value_of(toks[lo + 1]) {
            Some(l) => Some(MetaView::KeyValue(path, l)),
            None => None,
        }
    } else {
        None
    }
}

/// The list element that the tokens `lo..hi` spell: a single literal, or a
/// path and what follows it.
pub open spec fn nested_of(toks: Seq<TokenView>, lo: int, hi: int) -> Option<NestedView>
    decreases toks, 1nat,
{
    if lo >= hi || lo < 0 || hi > toks.len() {
        None
    } else {
        match toks[lo] {
            TokenView::Literal(l) => if hi - lo == 1 && !is_doc_comment(l) {
                Some(NestedView::Literal(l))
            } else {
                None
            },
            TokenView::Ident(_) => match meta_of(
                path_names(toks, lo, hi),
                toks,
                lo + path_length(toks, lo, hi),
                hi,
            ) {
                Some(m) => Some(NestedView::Meta(m)),
                None => None,
            },
            _ => None,
        }
    }
}

/// The elements that the tokens `lo..hi` spell, separated by commas. A
/// comma may follow the last element; an element may not be empty.
pub open spec fn items_of(toks: Seq<TokenView>, lo: int, hi: int) -> Option<Seq<NestedView>>
    decreases toks, 2 + (hi - lo),
{
    if lo >= hi || lo < 0 || hi > toks.len() {
        Some(Seq::empty())
    } else {
        let run = run_length(toks, lo, hi);
        if run == 0 {
            None
        } else {
            match nested_of(toks, lo, lo + run) {
                None => None,
                Some(item) => {
                    let next = if lo + run < hi {
                        lo + run + 1
                    } else {
                        hi
                    };
                    match items_of(toks, next, hi) {
                        None => None,
                        Some(rest) => Some(seq![item] + rest),
                    }
                },
            }
        }
    }
}

/// The node that a whole annotation spells: its path, then all its tokens.
pub open spec fn parsed(path: Seq<Seq<char>>, toks: Seq<TokenView>) -> Option<MetaView> {
    if path.len() == 0 {
        None
    } else {
        meta_of(path, toks, 0, toks.len() as int)
    }
}

/// What holds of every node that the parser makes: its path has at least
/// one component, and so have the paths of the nodes inside it.
pub open spec fn well_formed(m: MetaView) -> bool
    decreases m,
{
    &&& m.path().len() > 0
    &&& m matches MetaView::List(_, items) ==> forall|i: int|
        0 <= i < items.len() ==> (#[trigger] items[i] matches NestedView::Meta(inner)
            ==> well_formed(inner))
}

/// A node made of a path with at least one component is well-formed.
pub proof fn lemma_meta_well_formed(path: Seq<Seq<char>>, toks: Seq<TokenView>, lo: int, hi: int)
    requires
        path.len() > 0,
    ensures
        meta_of(path, toks, lo, hi) matches Some(m) ==> well_formed(m),
    decreases toks, 0nat,
{
    if lo < hi && 0 <= lo && hi <= toks.len() && hi - lo == 1 {
        match toks[lo] {
            TokenView::Group(Delimiter::Parenthesis, inner) => {
                lemma_items_well_formed(inner, 0, inner.len() as int);
            },
            _ => {},
        }
    }
}

/// A list element that is a node is well-formed.
pub proof fn lemma_nested_well_formed(toks: Seq<TokenView>, lo: int, hi: int)
    ensures
        nested_of(toks, lo, hi) matches Some(NestedView::Meta(m)) ==> well_formed(m),
    decreases toks, 1nat,
{
    if 0 <= lo < hi <= toks.len() {
        match toks[lo] {
            TokenView::Ident(_) => {
                lemma_path_length(toks, lo, hi);
                lemma_meta_well_formed(
                    path_names(toks, lo, hi),
                    toks,
                    lo + path_length(toks, lo, hi),
                    hi,
                );
            },
            _ => {},
        }
    }
}

/// The nodes among the elements of a list are well-formed.
pub proof fn lemma_items_well_formed(toks: Seq<TokenView>, lo: int, hi: int)
    ensures
        items_of(toks, lo, hi) matches Some(items) ==> forall|i: int|
            0 <= i < items.len() ==> (#[trigger] items[i] matches NestedView::Meta(inner)
                ==> well_formed(inner)),
    decreases toks, 2 + (hi - lo),
{
    if 0 <= lo < hi <= toks.len() {
        let run = run_length(toks, lo, hi);
        if run > 0 {
            lemma_run_length(toks, lo, hi);
            lemma_nested_well_formed(toks, lo, lo + run);
            let next = if lo + run < hi {
                lo + run + 1
            } else {
                hi
            };
            lemma_items_well_formed(toks, next, hi);
            match (nested_of(toks, lo, lo + run), items_of(toks, next, hi)) {
                (Some(item), Some(rest)) => {
                    let items = seq![item] + rest;
                    assert forall|i: int| 0 <= i < items.len() implies (
                    #[trigger] items[i] matches NestedView::Meta(inner) ==> well_formed(inner)) by {
                        if i > 0 {
                            assert(items[i] == rest[i - 1]);
                        }
                    }
                },
                _ => {},
            }
        }
    }
}

/// Every node that an annotation spells is well-formed.
pub proof fn lemma_parsed_well_formed(path: Seq<Seq<char>>, toks: Seq<TokenView>)
    ensures
        parsed(path, toks) matches Some(m) ==> well_formed(m) && m.path() == path,
{
    if path.len() > 0 {
        lemma_meta_well_formed(path, toks, 0, toks.len() as int);
    }
}

/// Two token sequences hold the same tokens in the window `lo..hi`.
pub open spec fn agree(a: Seq<TokenView>, b: Seq<TokenView>, lo: int, hi: int) -> bool {
    &&& 0 <= lo <= hi
    &&& hi <= a.len()
    &&& hi <= b.len()
    &&& forall|k: int| lo <= k < hi ==> a[k] == b[k]
}

/// The run at the start of a window depends on the window alone.
pub proof fn lemma_run_agrees(a: Seq<TokenView>, b: Seq<TokenView>, lo: int, hi: int)
    requires
        agree(a, b, lo, hi),
    ensures
        run_length(a, lo, hi) == run_length(b, lo, hi),
    decreases hi - lo,
{
    if lo < hi && !is_comma(a[lo]) {
        lemma_run_agrees(a, b, lo + 1, hi);
    }
}

/// The path at the start of a window depends on the window alone.
pub proof fn lemma_path_agrees(a: Seq<TokenView>, b: Seq<TokenView>, lo: int, hi: int)
    requires
        agree(a, b, lo, hi),
        lo < hi,
    ensures
        path_length(a, lo, hi) == path_length(b, lo, hi),
        path_names(a, lo, hi) == path_names(b, lo, hi),
    decreases hi - lo,
{
    if path_continues(a, lo, hi) {
        assert(path_continues(b, lo, hi));
        lemma_path_agrees(a, b, lo + 3, hi);
    } else {
        assert(!path_continues(b, lo, hi));
    }
}

/// The list element that a window spells depends on the window alone.
pub proof fn lemma_nested_agrees(a: Seq<TokenView>, b: Seq<TokenView>, lo: int, hi: int)
    requires
        agree(a, b, lo, hi),
    ensures
        nested_of(a, lo, hi) == nested_of(b, lo, hi),
{
    if lo < hi {
        lemma_path_agrees(a, b, lo, hi);
        lemma_path_length(a, lo, hi);
        let rest = lo + path_length(a, lo, hi);
        assert(agree(a, b, rest, hi));
    }
}

/// The elements that a window spells depend on the window alone.
pub proof fn lemma_items_agree(a: Seq<TokenView>, b: Seq<TokenView>, lo: int, hi: int)
    requires
        agree(a, b, lo, hi),
    ensures
        items_of(a, lo, hi) == items_of(b, lo, hi),
    decreases hi - lo,
{
    if lo < hi {
        lemma_run_agrees(a, b, lo, hi);
        lemma_run_length(a, lo, hi);
        let run = run_length(a, lo, hi);
        if run > 0 {
            assert(agree(a, b, lo, lo + run));
            lemma_nested_agrees(a, b, lo, lo + run);
            let next = if lo + run < hi {
                lo + run + 1
            } else {
                hi
            };
            assert(agree(a, b, next, hi));
            lemma_items_agree(a, b, next, hi);
        }
    }
}

/// A comma behind the window ends the run where the window ended it.
pub proof fn lemma_run_before_comma(toks: Seq<TokenView>, lo: int)
    requires
        0 <= lo <= toks.len(),
    ensures
        run_length(toks.push(TokenView::Punct(',', Spacing::Alone)), lo, toks.len() as int + 1)
            == run_length(toks, lo, toks.len() as int),
    decreases toks.len() - lo,
{
    let longer = toks.push(TokenView::Punct(',', Spacing::Alone));
    if lo < toks.len() {
        assert(longer[lo] == toks[lo]);
        if !is_comma(toks[lo]) {
            lemma_run_before_comma(toks, lo + 1);
        }
    } else {
        assert(is_comma(longer[lo]));
    }
}

/// A comma may follow the last element of a list: it adds no element and
/// is no fault.
pub proof fn lemma_trailing_comma(toks: Seq<TokenView>, lo: int)
    requires
        0 <= lo < toks.len(),
        !is_comma(toks.last()),
    ensures
        items_of(toks.push(TokenView::Punct(',', Spacing::Alone)), lo, toks.len() as int + 1) == items_of(
            toks,
            lo,
            toks.len() as int,
        ),
    decreases toks.len() - lo,
{
    let n = toks.len() as int;
    let longer = toks.push(TokenView::Punct(',', Spacing::Alone));
    lemma_run_before_comma(toks, lo);
    lemma_run_length(toks, lo, n);
    let run = run_length(toks, lo, n);
    if run > 0 {
        assert(agree(longer, toks, lo, lo + run));
        lemma_nested_agrees(longer, toks, lo, lo + run);
        if lo + run < n {
            let next = lo + run + 1;
            assert(is_comma(toks[lo + run]));
            assert(next < n);
            lemma_trailing_comma(toks, next);
        } else {
            assert(items_of(longer, n + 1, n + 1) == Some(Seq::<NestedView>::empty()));
            assert(items_of(toks, n, n) == Some(Seq::<NestedView>::empty()));
        }
    }
}

/// An element may not be empty: a comma where an element should start
/// makes the whole list ill-formed.
pub proof fn lemma_empty_element(toks: Seq<TokenView>, lo: int, hi: int)
    requires
        0 <= lo < hi <= toks.len(),
        is_comma(toks[lo]),
    ensures
        items_of(toks, lo, hi) is None,
{
}

/// A run ends inside its window, at a comma or at the window's end.
pub proof fn lemma_run_length(toks: Seq<TokenView>, lo: int, hi: int)
    requires
        0 <= lo <= hi <= toks.len(),
    ensures
        lo + run_length(toks, lo, hi) <= hi,
        lo + run_length(toks, lo, hi) < hi ==> is_comma(toks[lo + run_length(toks, lo, hi)]),
        forall|k: int| lo <= k < lo + run_length(toks, lo, hi) ==> !is_comma(#[trigger] toks[k]),
    decreases hi - lo,
{
    if lo < hi && !is_comma(toks[lo]) {
        lemma_run_length(toks, lo + 1, hi);
    }
}

/// A path ends inside its window.
pub proof fn lemma_path_length(toks: Seq<TokenView>, lo: int, hi: int)
    requires
        0 <= lo < hi <= toks.len(),
    ensures
        lo + path_length(toks, lo, hi) <= hi,
        path_names(toks, lo, hi).len() >= 1,
    decreases hi - lo,
{
    if path_continues(toks, lo, hi) {
        lemma_path_length(toks, lo + 3, hi);
    }
}

/// The model of the token at `i` is the `i`-th model.
pub proof fn lemma_token_view(tokens: Seq<Token>, i: int)
    requires
        0 <= i < tokens.len(),
    ensures
        tokens_view(tokens)[i] == tokens[i]@,
        tokens_view(tokens).len() == tokens.len(),
{
}

/// Whether the token is the punctuation character `c` with the given
/// spacing.
pub fn is_punct(t: &Token, c: char, spacing: Spacing) -> (r: bool)
    ensures
        r == (t@ == TokenView::Punct(c, spacing)),
{
    match t {
        Token::Punct(d, s) => *d == c && *s == spacing,
        _ => false,
    }
}

/// Whether the token is an identifier.
pub fn is_ident(t: &Token) -> (r: bool)
    ensures
        r == (t@ is Ident),
{
    match t {
        Token::Ident(_) => true,
        _ => false,
    }
}

/// Whether the literal is a comment in disguise.
pub fn literal_is_doc_comment(l: &Literal) -> (r: bool)
    ensures
        r == is_doc_comment(l@),
{
    match l {
        Literal::Other(text) => {
            let n = text.as_str().unicode_len();
            n > 0 && text.as_str().get_char(0) == '/'
        },
        _ => false,
    }
}

/// Reads the path at the start of the window `lo..hi`: an identifier, then
/// `::` and an identifier as often as they follow. Returns the path and the
/// index of the first token behind it, or nothing where the window does not
/// start with an identifier.
pub fn path_from_prefix_of_token_trees(tokens: &Vec<Token>, lo: usize, hi: usize) -> (r: Option<
    (Path, usize),
>)
    requires
        lo <= hi <= tokens.len(),
    ensures
        match r {
            Some((path, end)) => {
                &&& lo < hi
                &&& tokens_view(tokens@)[lo as int] is Ident
                &&& path@ == path_names(tokens_view(tokens@), lo as int, hi as int)
                &&& end == lo + path_length(tokens_view(tokens@), lo as int, hi as int)
                &&& end <= hi
            },
            None => lo == hi || !(tokens_view(tokens@)[lo as int] is Ident),
        },
{
    let ghost tv = tokens_view(tokens@);
    if lo >= hi {
        return None;
    }
    if !is_ident(&tokens[lo]) {
        return None;
    }
    let mut segments: Vec<String> = Vec::new();
    let mut i: usize = lo;
    let mut end: usize = lo;
    let mut done = false;
    while !done
        invariant
            lo <= i < hi <= tokens.len(),
            tv == tokens_view(tokens@),
            !done ==> tv[i as int] is Ident,
            !done ==> path_names(tv, lo as int, hi as int) == names_view(segments@) + path_names(
                tv,
                i as int,
                hi as int,
            ),
            !done ==> lo + path_length(tv, lo as int, hi as int) == i + path_length(
                tv,
                i as int,
                hi as int,
            ),
            done ==> names_view(segments@) == path_names(tv, lo as int, hi as int),
            done ==> end == lo + path_length(tv, lo as int, hi as int),
            done ==> end <= hi,
        decreases
                (if done {
                    0
                } else {
                    1 + hi - i
                }),
    {
        let ghost before = segments@;
        match &tokens[i] {
            Token::Ident(name) => {
                segments.push(name.clone());
                proof {
                    assert(names_view(segments@) =~= names_view(before) + seq![tv[i as int]->Ident_0]);
                }
            },
            _ => {},
        }
        if hi - i > 3 && is_punct(&tokens[i + 1], ':', Spacing::Joint) && is_punct(
            &tokens[i + 2],
            ':',
            Spacing::Alone,
        ) && is_ident(&tokens[i + 3]) {
            proof {
                assert(path_continues(tv, i as int, hi as int));
                assert(names_view(before) + (seq![tv[i as int]->Ident_0] + path_names(
                    tv,
                    i + 3,
                    hi as int,
                )) =~= names_view(segments@) + path_names(tv, i + 3, hi as int));
            }
            i += 3;
        } else {
            proof {
                assert(!path_continues(tv, i as int, hi as int));
                assert(names_view(before) + seq![tv[i as int]->Ident_0] =~= names_view(segments@));
            }
            end = i + 1;
            done = true;
        }
    }
    Some((Path { segments }, end))
}

/// Makes a key-value node of a path, the token after it and the token after
/// that, where these are `=` and a value.
pub fn extract_name_value(path: Path, eq: &Token, lit: &Token) -> (r: Option<ExtMeta>)
    ensures
        meta_option_view(r) == (if is_assign(eq@) {
            match value_of(lit@) {
                Some(l) => Some(MetaView::KeyValue(path@, l)),
                None => None,
            }
        } else {
            None
        }),
{
    if !is_punct(eq, '=', Spacing::Alone) {
        return None;
    }
    match lit {
        Token::Literal(l) => {
            if literal_is_doc_comment(l) {
                None
            } else {
                Some(ExtMeta::KeyValue(path, l.duplicate()))
            }
        },
        Token::Ident(name) => {
            if same_text(name.as_str(), "true") {
                Some(ExtMeta::KeyValue(path, Literal::Bool(true)))
            } else if same_text(name.as_str(), "false") {
                Some(ExtMeta::KeyValue(path, Literal::Bool(false)))
            } else {
                None
            }
        },
        _ => None,
    }
}

/// Makes a list node of a path and the token after it, where this is a
/// parenthesized group whose contents are a list of elements.
pub fn extract_meta_list(path: Path, tt: &Token) -> (r: Option<ExtMeta>)
    ensures
        meta_option_view(r) == (match tt@ {
            TokenView::Group(Delimiter::Parenthesis, inner) => match items_of(
                inner,
                0,
                inner.len() as int,
            ) {
                Some(items) => Some(MetaView::List(path@, items)),
                None => None,
            },
            _ => None,
        }),
    decreases tt, 0nat,
{
    match tt {
        Token::Group(delimiter, inner) => {
            if *delimiter == Delimiter::Parenthesis {
                match list_of_nested_meta_items_from_tokens(inner) {
                    Some(items) => Some(ExtMeta::List(path, items)),
                    None => None,
                }
            } else {
                None
            }
        },
        _ => None,
    }
}

/// Parses the tokens `lo..hi` that follow a path into one node.
pub fn meta_from_path_and_token_trees(path: Path, tokens: &Vec<Token>, lo: usize, hi: usize) -> (r:
    Option<ExtMeta>)
    requires
        lo <= hi <= tokens.len(),
    ensures
        meta_option_view(r) == meta_of(path@, tokens_view(tokens@), lo as int, hi as int),
    decreases tokens, 0nat,
{
    if lo == hi {
        return Some(ExtMeta::Path(path));
    }
    proof {
        lemma_token_view(tokens@, lo as int);
    }
    if hi - lo == 1 {
        return extract_meta_list(path, &tokens[lo]);
    }
    if hi - lo == 2 {
        proof {
            lemma_token_view(tokens@, lo + 1);
        }
        return extract_name_value(path, &tokens[lo], &tokens[lo + 1]);
    }
    None
}

/// Parses the tokens `lo..hi` into one list element: a single literal, or a
/// path and what follows it.
pub fn nested_meta_item_from_tokens(tokens: &Vec<Token>, lo: usize, hi: usize) -> (r: Option<
    NestedExtMeta,
>)
    requires
        lo <= hi <= tokens.len(),
    ensures
        match r {
            Some(item) => nested_of(tokens_view(tokens@), lo as int, hi as int) == Some(item@),
            None => nested_of(tokens_view(tokens@), lo as int, hi as int) is None,
        },
    decreases tokens, 1nat,
{
    if lo >= hi {
        return None;
    }
    proof {
        lemma_token_view(tokens@, lo as int);
    }
    match &tokens[lo] {
        Token::Literal(l) => {
            if hi - lo == 1 && !literal_is_doc_comment(l) {
                Some(NestedExtMeta::Literal(l.duplicate()))
            } else {
                None
            }
        },
        Token::Ident(_) => {
            match path_from_prefix_of_token_trees(tokens, lo, hi) {
                Some((path, end)) => {
                    match meta_from_path_and_token_trees(path, tokens, end, hi) {
                        Some(meta) => Some(NestedExtMeta::Meta(meta)),
                        None => None,
                    }
                },
                None => None,
            }
        },
        _ => None,
    }
}

/// Parses the contents of a parenthesized group into its elements. The
/// elements are separated by commas; one comma may follow the last.
pub fn list_of_nested_meta_items_from_tokens(tokens: &Vec<Token>) -> (r: Option<
    Vec<NestedExtMeta>,
>)
    ensures
        match r {
            Some(items) => items_of(tokens_view(tokens@), 0, tokens.len() as int) == Some(
                nested_views(items@),
            ),
            None => items_of(tokens_view(tokens@), 0, tokens.len() as int) is None,
        },
    decreases tokens, 2nat,
{
    let ghost tv = tokens_view(tokens@);
    let n = tokens.len();
    let mut items: Vec<NestedExtMeta> = Vec::new();
    let mut lo: usize = 0;
    proof {
        assert(nested_views(items@) + Seq::<NestedView>::empty() =~= Seq::<NestedView>::empty());
        match items_of(tv, 0, n as int) {
            Some(rest) => {
                assert(Seq::<NestedView>::empty() + rest =~= rest);
                assert(nested_views(items@) =~= Seq::<NestedView>::empty());
            },
            None => {},
        }
    }
    while lo < n
        invariant
            lo <= n == tokens.len(),
            tv == tokens_view(tokens@),
            items_of(tv, 0, n as int) == (match items_of(tv, lo as int, n as int) {
                Some(rest) => Some(nested_views(items@) + rest),
                None => None,
            }),
        decreases n - lo,
    {
        let mut j: usize = lo;
        while j < n && !is_punct(&tokens[j], ',', Spacing::Alone)
            invariant
                lo <= j <= n == tokens.len(),
                tv == tokens_view(tokens@),
                run_length(tv, lo as int, n as int) == (j - lo) + run_length(
                    tv,
                    j as int,
                    n as int,
                ),
            decreases n - j,
        {
            proof {
                lemma_token_view(tokens@, j as int);
            }
            j += 1;
        }
        proof {
            if j < n {
                lemma_token_view(tokens@, j as int);
            }
            assert(run_length(tv, lo as int, n as int) == j - lo);
        }
        if j == lo {
            return None;
        }
        let ghost before = items@;
        match nested_meta_item_from_tokens(tokens, lo, j) {
            Some(item) => {
                items.push(item);
            },
            None => {
                return None;
            },
        }
        let next: usize = if j < n {
            j + 1
        } else {
            n
        };
        proof {
            let item = nested_of(tv, lo as int, j as int)->Some_0;
            assert(nested_views(items@) =~= nested_views(before).push(item));
            match items_of(tv, next as int, n as int) {
                Some(rest) => {
                    assert(nested_views(before) + (seq![item] + rest) =~= nested_views(items@)
                        + rest);
                },
                None => {},
            }
        }
        lo = next;
    }
    proof {
        assert(nested_views(items@) + Seq::<NestedView>::empty() =~= nested_views(items@));
    }
    Some(items)
}

impl AttributeExt for Attribute {
    open spec fn meaning(&self) -> Option<MetaView> {
        parsed(self@.path, self@.tokens)
    }

    fn parse_ext_meta(&self) -> (r: Option<ExtMeta>) {
        if self.path.segments.len() == 0 {
            return None;
        }
        let path = self.path.duplicate();
        meta_from_path_and_token_trees(path, &self.tokens, 0, self.tokens.len())
    }
}

} // verus!
