//! The `options(...)` annotation: which option methods of a document type
//! are implemented by calling a function of the user.

use vstd::prelude::*;
use crate::schema::attr::{
    attributes_view, nested_views, Attribute, AttributeExt, AttributeView, ExtMeta, MetaView,
    NestedExtMeta, NestedView,
};
use crate::schema::error::{Error, Failure};
use crate::schema::parse::parsed;
use crate::schema::token::{Literal, LiteralView};

verus! {

/// How many option methods a document type has.
pub const OPTION_COUNT: usize = 9;

/// The name of the option method at a position of the table.
pub open spec fn option_name(i: int) -> Seq<char> {
    if i == 0 {
        "count_options"@
    } else if i == 1 {
        "distinct_options"@
    } else if i == 2 {
        "aggregate_options"@
    } else if i == 3 {
        "query_options"@
    } else if i == 4 {
        "insert_options"@
    } else if i == 5 {
        "delete_options"@
    } else if i == 6 {
        "update_options"@
    } else if i == 7 {
        "upsert_options"@
    } else {
        "find_and_update_options"@
    }
}

/// The type that the option method at a position of the table returns.
pub open spec fn option_type(i: int) -> Seq<char> {
    if i == 0 {
        "::mongodb::coll::options::CountOptions"@
    } else if i == 1 {
        "::mongodb::coll::options::DistinctOptions"@
    } else if i == 2 {
        "::mongodb::coll::options::AggregateOptions"@
    } else if i == 3 {
        "::mongodb::coll::options::FindOptions"@
    } else if i == 4 {
        "::mongodb::coll::options::InsertManyOptions"@
    } else if 5 <= i <= 7 {
        "::mongodb::common::WriteConcern"@
    } else {
        "::mongodb::coll::options::FindOneAndUpdateOptions"@
    }
}

/// The first position among the first `n` of the table whose option method
/// a path names, if there is one.
pub open spec fn option_position(path: Seq<Seq<char>>, n: int) -> Option<int>
    decreases n,
{
    if n <= 0 {
        None
    } else {
        match option_position(path, n - 1) {
            Some(i) => Some(i),
            None => if path == seq![option_name(n - 1)] {
                Some(n - 1)
            } else {
                None
            },
        }
    }
}

/// The functions of the user: for each position of the table the path of
/// the function that implements the option method, where there is one.
#[derive(Debug, Clone, PartialEq, Eq, Hash)]
pub struct DocOptions {
    /// One entry for each position of the table.
    pub callees: Vec<Option<String>>,
}

/// The characters of each optional text.
pub open spec fn callees_view(callees: Seq<Option<String>>) -> Seq<Option<Seq<char>>> {
    Seq::new(
        callees.len(),
        |i: int|
            match callees[i] {
                Some(path) => Some(path@),
                None => None,
            },
    )
}

impl View for DocOptions {
    type V = Seq<Option<Seq<char>>>;

    open spec fn view(&self) -> Seq<Option<Seq<char>>> {
        callees_view(self.callees@)
    }
}

/// No function of the user for any option method.
pub open spec fn no_options() -> Seq<Option<Seq<char>>> {
    Seq::new(OPTION_COUNT as nat, |i: int| None)
}

/// What one element of an `options(...)` list adds: it must have the form
/// `name = "path"`, and `name` must be an option method.
pub open spec fn with_option(callees: Seq<Option<Seq<char>>>, item: NestedView) -> Result<
    Seq<Option<Seq<char>>>,
    Failure,
> {
    match item {
        NestedView::Meta(MetaView::KeyValue(path, LiteralView::Str(callee, _))) => {
            match option_position(path, OPTION_COUNT as int) {
                Some(i) => Ok(callees.update(i, Some(callee))),
                None => Err(Failure::UnknownOption),
            }
        },
        _ => Err(Failure::GrammarViolation),
    }
}

/// What the elements of an `options(...)` list add, one after the other;
/// the first fault ends it.
pub open spec fn with_options(callees: Seq<Option<Seq<char>>>, items: Seq<NestedView>) -> Result<
    Seq<Option<Seq<char>>>,
    Failure,
>
    decreases items.len(),
{
    if items.len() == 0 {
        Ok(callees)
    } else {
        match with_options(callees, items.drop_last()) {
            Ok(so_far) => with_option(so_far, items.last()),
            Err(f) => Err(f),
        }
    }
}

/// The elements of the first annotation of the form `options(...)`, from
/// `from` on.
pub open spec fn options_list(attrs: Seq<AttributeView>, from: int) -> Option<Seq<NestedView>>
    decreases attrs.len() - from,
{
    if from < 0 || from >= attrs.len() {
        None
    } else {
        match parsed(attrs[from].path, attrs[from].tokens) {
            Some(MetaView::List(path, items)) => if path == seq!["options"@] {
                Some(items)
            } else {
                options_list(attrs, from + 1)
            },
            _ => options_list(attrs, from + 1),
        }
    }
}

/// The functions of the user that the annotations of a type name.
pub open spec fn options_of(attrs: Seq<AttributeView>) -> Result<Seq<Option<Seq<char>>>, Failure> {
    match options_list(attrs, 0) {
        Some(items) => with_options(no_options(), items),
        None => Ok(no_options()),
    }
}

/// Once a prefix of the elements fails, all of them fail in the same way.
pub proof fn lemma_with_options_fail(
    callees: Seq<Option<Seq<char>>>,
    items: Seq<NestedView>,
    n: int,
)
    requires
        0 <= n <= items.len(),
        with_options(callees, items.subrange(0, n)) is Err,
    ensures
        with_options(callees, items) == with_options(callees, items.subrange(0, n)),
    decreases items.len() - n,
{
    if n < items.len() {
        assert(items.subrange(0, n + 1).drop_last() == items.subrange(0, n));
        lemma_with_options_fail(callees, items, n + 1);
    } else {
        assert(items.subrange(0, n) == items);
    }
}

/// A position that is found lies in the part of the table that was
/// searched, and names the path.
pub proof fn lemma_option_position(path: Seq<Seq<char>>, n: int)
    ensures
        option_position(path, n) matches Some(i) ==> 0 <= i < n && path == seq![option_name(i)],
    decreases n,
{
    if n > 0 {
        lemma_option_position(path, n - 1);
    }
}

/// Options keep the table at its length.
pub proof fn lemma_with_options_length(callees: Seq<Option<Seq<char>>>, items: Seq<NestedView>)
    requires
        callees.len() == OPTION_COUNT,
    ensures
        with_options(callees, items) matches Ok(after) ==> after.len() == OPTION_COUNT,
    decreases items.len(),
{
    if items.len() > 0 {
        lemma_with_options_length(callees, items.drop_last());
        match items.last() {
            NestedView::Meta(m) => {
                lemma_option_position(m.path(), OPTION_COUNT as int);
            },
            _ => {},
        }
    }
}

/// The name of the option method at a position of the table.
pub fn option_fn_name(i: usize) -> (r: &'static str)
    ensures
        r@ == option_name(i as int),
{
    if i == 0 {
        "count_options"
    } else if i == 1 {
        "distinct_options"
    } else if i == 2 {
        "aggregate_options"
    } else if i == 3 {
        "query_options"
    } else if i == 4 {
        "insert_options"
    } else if i == 5 {
        "delete_options"
    } else if i == 6 {
        "update_options"
    } else if i == 7 {
        "upsert_options"
    } else {
        "find_and_update_options"
    }
}

/// The type that the option method at a position of the table returns, as
/// a path.
pub fn option_return_type(i: usize) -> (r: &'static str)
    ensures
        r@ == option_type(i as int),
{
    if i == 0 {
        "::mongodb::coll::options::CountOptions"
    } else if i == 1 {
        "::mongodb::coll::options::DistinctOptions"
    } else if i == 2 {
        "::mongodb::coll::options::AggregateOptions"
    } else if i == 3 {
        "::mongodb::coll::options::FindOptions"
    } else if i == 4 {
        "::mongodb::coll::options::InsertManyOptions"
    } else if i <= 7 {
        "::mongodb::common::WriteConcern"
    } else {
        "::mongodb::coll::options::FindOneAndUpdateOptions"
    }
}

/// The position in the table of the option method that a node's path
/// names.
pub fn option_index(meta: &ExtMeta) -> (r: Option<usize>)
    ensures
        match r {
            Some(i) => i < OPTION_COUNT && option_position(meta@.path(), OPTION_COUNT as int)
                == Some(i as int),
            None => option_position(meta@.path(), OPTION_COUNT as int) is None,
        },
{
    let mut i: usize = 0;
    while i < OPTION_COUNT
        invariant
            i <= OPTION_COUNT,
            option_position(meta@.path(), i as int) is None,
        decreases OPTION_COUNT - i,
    {
        if meta.path().is_name(option_fn_name(i)) {
            proof {
                lemma_option_position_found(meta@.path(), i as int, OPTION_COUNT as int);
            }
            return Some(i);
        }
        i += 1;
    }
    None
}

/// A position that is found first stays the one that is found.
pub proof fn lemma_option_position_found(path: Seq<Seq<char>>, i: int, n: int)
    requires
        0 <= i < n,
        option_position(path, i) is None,
        path == seq![option_name(i)],
    ensures
        option_position(path, n) == Some(i),
    decreases n - i,
{
    if i + 1 < n {
        lemma_option_position_found(path, i, n - 1);
    }
}

impl DocOptions {
    /// No function of the user for any option method.
    pub fn new() -> (r: DocOptions)
        ensures
            r@ == no_options(),
    {
        let mut callees: Vec<Option<String>> = Vec::new();
        let mut i: usize = 0;
        while i < OPTION_COUNT
            invariant
                i <= OPTION_COUNT,
                callees.len() == i,
                forall|k: int| 0 <= k < i ==> callees@[k] is None,
            decreases OPTION_COUNT - i,
        {
            callees.push(None);
            i += 1;
        }
        let r = DocOptions { callees };
        assert(r@ =~= no_options());
        r
    }

    /// Reads the functions of the user from the first annotation of the
    /// form `options(fn_name = "path", ...)`. Without such an annotation
    /// there are none.
    pub fn from_attributes(attrs: &Vec<Attribute>) -> (r: Result<DocOptions, Error>)
        ensures
            match r {
                Ok(options) => options_of(attributes_view(attrs@)) == Ok::<_, Failure>(options@),
                Err(e) => options_of(attributes_view(attrs@)) == Err::<
                    Seq<Option<Seq<char>>>,
                    _,
                >(e.kind),
            },
            r matches Ok(options) ==> options.callees.len() == OPTION_COUNT,
    {
        let ghost all = attributes_view(attrs@);
        let n = attrs.len();
        let mut i: usize = 0;
        while i < n
            invariant
                i <= n == attrs.len(),
                all == attributes_view(attrs@),
                options_list(all, 0) == options_list(all, i as int),
            decreases n - i,
        {
            match attrs[i].parse_ext_meta() {
                Some(ExtMeta::List(path, items)) => {
                    if path.is_name("options") {
                        return DocOptions::from_list(&items);
                    }
                },
                _ => {},
            }
            i += 1;
        }
        let options = DocOptions::new();
        assert(options.callees@.len() == OPTION_COUNT) by {
            assert(options@.len() == OPTION_COUNT);
        }
        Ok(options)
    }

    /// Reads the functions of the user from the elements of an
    /// `options(...)` list.
    pub fn from_list(items: &Vec<NestedExtMeta>) -> (r: Result<DocOptions, Error>)
        ensures
            match r {
                Ok(options) => with_options(no_options(), nested_views(items@)) == Ok::<
                    _,
                    Failure,
                >(options@),
                Err(e) => with_options(no_options(), nested_views(items@)) == Err::<
                    Seq<Option<Seq<char>>>,
                    _,
                >(e.kind),
            },
            r matches Ok(options) ==> options.callees.len() == OPTION_COUNT,
    {
        let ghost all = nested_views(items@);
        let mut options = DocOptions::new();
        let n = items.len();
        let mut i: usize = 0;
        proof {
            assert(all.subrange(0, 0).len() == 0);
            assert(options@.len() == OPTION_COUNT);
        }
        while i < n
            invariant
                i <= n == items.len(),
                all == nested_views(items@),
                options.callees.len() == OPTION_COUNT,
                with_options(no_options(), all.subrange(0, i as int)) == Ok::<_, Failure>(
                    options@,
                ),
            decreases n - i,
        {
            let ghost before = options@;
            proof {
                assert(all.subrange(0, i + 1).drop_last() == all.subrange(0, i as int));
                assert(all.subrange(0, i + 1).last() == items@[i as int]@);
            }
            let step: Result<(), Error> = match &items[i] {
                NestedExtMeta::Meta(meta) => match meta {
                    ExtMeta::KeyValue(_, Literal::Str(callee, _)) => match option_index(meta) {
                        Some(position) => {
                            options.callees.set(position, Some(callee.clone()));
                            proof {
                                assert(options@ =~= before.update(position as int, Some(callee@)));
                            }
                            Ok(())
                        },
                        None => {
                            let name = meta.path_str();
                            Err(
                                Error::about(
                                    Failure::UnknownOption,
                                    "no option method named `Doc::",
                                    name.as_str(),
                                    "()`",
                                ),
                            )
                        },
                    },
                    _ => Err(
                        Error::new(
                            Failure::GrammarViolation,
                            "attribute must have form `#[options(fn_name = \"path\", ...)]`",
                        ),
                    ),
                },
                NestedExtMeta::Literal(_) => Err(
                    Error::new(
                        Failure::GrammarViolation,
                        "attribute must have form `#[options(fn_name = \"path\", ...)]`",
                    ),
                ),
            };
            match step {
                Ok(()) => {},
                Err(e) => {
                    proof {
                        lemma_with_options_fail(no_options(), all, i + 1);
                    }
                    return Err(e);
                },
            }
            i += 1;
        }
        proof {
            assert(all.subrange(0, n as int) == all);
        }
        Ok(options)
    }

    /// The function of the user for the option method at a position of the
    /// table, if there is one.
    pub fn callee(&self, i: usize) -> (r: Option<&str>)
        ensures
            match r {
                Some(path) => i < self@.len() && self@[i as int] == Some(path@),
                None => i >= self@.len() || self@[i as int] is None,
            },
    {
        if i < self.callees.len() {
            match &self.callees[i] {
                Some(path) => Some(path.as_str()),
                None => None,
            }
        } else {
            None
        }
    }
}

} // verus!
