//! The outcomes of update operations, read from the counts that the
//! database reports.

use vstd::prelude::*;
use crate::error::{Error, ErrorKind};
use crate::utils::{i64_to_usize_with_msg, usize_of};

verus! {

/// The outcome of a successful update of one document.
#[derive(Debug, Clone, Copy, PartialEq, Eq, Structural, Hash)]
pub struct UpdateOneResult {
    /// Whether a document matched the query criteria.
    pub matched: bool,
    /// Whether the matched document was actually modified.
    pub modified: bool,
}

impl UpdateOneResult {
    /// Reads the outcome from the counts of matched and of modified
    /// documents.
    pub fn from_raw(matched_count: i32, modified_count: i32) -> (r: UpdateOneResult)
        ensures
            r.matched == (matched_count > 0),
            r.modified == (modified_count > 0),
    {
        UpdateOneResult { matched: matched_count > 0, modified: modified_count > 0 }
    }
}

impl Default for UpdateOneResult {
    /// Nothing matched, nothing modified.
    fn default() -> (r: UpdateOneResult)
        ensures
            !r.matched,
            !r.modified,
    {
        UpdateOneResult { matched: false, modified: false }
    }
}

/// The outcome of a successful update of many documents.
#[derive(Debug, Clone, Copy, PartialEq, Eq, Structural, Hash)]
pub struct UpdateManyResult {
    /// The number of documents matched by the query criteria.
    pub num_matched: usize,
    /// The number of documents modified by the update.
    pub num_modified: usize,
}

/// The counts of matched and of modified documents as an outcome, or the
/// fault of the first count that is no `usize`: its kind and its message.
pub open spec fn counted(matched_count: int, modified_count: int) -> Result<
    UpdateManyResult,
    (ErrorKind, Seq<char>),
> {
    match usize_of(matched_count, "# of matched documents"@) {
        Err(fault) => Err(fault),
        Ok(num_matched) => match usize_of(modified_count, "# of modified documents"@) {
            Err(fault) => Err(fault),
            Ok(num_modified) => Ok(UpdateManyResult { num_matched, num_modified }),
        },
    }
}

impl UpdateManyResult {
    /// Reads the outcome from the counts of matched and of modified
    /// documents. A negative count is an error, the matched count's first.
    pub fn from_raw(matched_count: i32, modified_count: i32) -> (r: Result<UpdateManyResult, Error>)
        ensures
            match r {
                Ok(result) => counted(matched_count as int, modified_count as int) == Ok::<
                    _,
                    (ErrorKind, Seq<char>),
                >(result),
                Err(e) => counted(matched_count as int, modified_count as int) == Err::<
                    UpdateManyResult,
                    _,
                >((e.kind, e.message@)),
            },
            r is Ok <==> matched_count >= 0 && modified_count >= 0,
    {
        let num_matched = match i64_to_usize_with_msg(
            matched_count as i64,
            "# of matched documents",
        ) {
            Ok(n) => n,
            Err(e) => {
                return Err(e);
            },
        };
        let num_modified = match i64_to_usize_with_msg(
            modified_count as i64,
            "# of modified documents",
        ) {
            Ok(n) => n,
            Err(e) => {
                return Err(e);
            },
        };
        Ok(UpdateManyResult { num_matched, num_modified })
    }
}

impl Default for UpdateManyResult {
    /// Nothing matched, nothing modified.
    fn default() -> (r: UpdateManyResult)
        ensures
            r.num_matched == 0,
            r.num_modified == 0,
    {
        UpdateManyResult { num_matched: 0, num_modified: 0 }
    }
}

} // verus!
