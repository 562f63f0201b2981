//! Conversions that may fail.

use vstd::prelude::*;
use crate::error::{Error, ErrorKind};
use crate::text::{decimal_text, i128_to_string};
use vstd::std_specs::convert::IntoSpec;

verus! {

/// The message for a number that cannot be converted: what the number
/// counts, the number in parentheses, and what is wrong with it.
pub open spec fn conversion_message(msg: Seq<char>, n: int, fault: Seq<char>) -> Seq<char> {
    msg + " ("@ + decimal_text(n) + ") "@ + fault
}

/// Builds the message for a number that cannot be converted.
fn message_for(msg: &str, n: i64, fault: &str) -> (r: String)
    ensures
        r@ == conversion_message(msg@, n as int, fault@),
{
    let mut out = String::from_str(msg);
    out.append(" (");
    let digits = i128_to_string(n as i128);
    out.append(digits.as_str());
    out.append(") ");
    out.append(fault);
    out
}

/// The `usize` with the value `n`, or why there is none: the kind of the
/// fault and its message.
pub open spec fn usize_of(n: int, msg: Seq<char>) -> Result<usize, (ErrorKind, Seq<char>)> {
    if n < 0 {
        Err((ErrorKind::IntConversionUnderflow, conversion_message(msg, n, "is negative"@)))
    } else if n > usize::MAX {
        Err((ErrorKind::IntConversionOverflow, conversion_message(msg, n, "overflows `usize`"@)))
    } else {
        Ok(n as usize)
    }
}

/// A result with its error reduced to the kind and the message.
pub open spec fn reported(r: Result<usize, Error>) -> Result<usize, (ErrorKind, Seq<char>)> {
    match r {
        Ok(v) => Ok(v),
        Err(e) => Err((e.kind, e.message@)),
    }
}

/// Converts a 64-bit integer to a `usize` where its value permits, and
/// says with a message built on `msg` why it does not.
pub fn i64_to_usize_with_msg(n: i64, msg: &str) -> (r: Result<usize, Error>)
    ensures
        reported(r) == usize_of(n as int, msg@),
        r matches Err(e) ==> e.cause is None,
{
    if n < 0 {
        let message = message_for(msg, n, "is negative");
        Err(Error::new(ErrorKind::IntConversionUnderflow, message.as_str()))
    } else if n as u64 <= usize::MAX as u64 {
        Ok(n as usize)
    } else {
        let message = message_for(msg, n, "overflows `usize`");
        Err(Error::new(ErrorKind::IntConversionOverflow, message.as_str()))
    }
}

/// Converts a signed integer of up to 64 bits to a `usize` where its value
/// permits, and says with a message built on `msg` why it does not.
pub fn int_to_usize_with_msg<T: Into<i64>>(x: T, msg: &str) -> (r: Result<usize, Error>)
    ensures
        T::obeys_into_spec() ==> reported(r) == usize_of(x.into_spec() as int, msg@),
        exists|n: i64| reported(r) == usize_of(n as int, msg@),
        r matches Err(e) ==> e.cause is None,
{
    let n: i64 = x.into();
    i64_to_usize_with_msg(n, msg)
}

} // verus!
