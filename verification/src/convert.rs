//! The calls into `numtoa`, which turns an integer into its decimal text
//! inside a caller's buffer.

use crate::digits::{decimal, signed_decimal};
use numtoa::NumToA;
use vstd::prelude::*;

verus! {

/// `numtoa` for `u64`, in base ten. Trusted: the slice that comes back is the
/// canonical decimal text of `val`, and it is the end of `buf`. Twenty bytes
/// hold the longest text, so the call does not panic.
#[verifier::external_body]
pub(crate) fn unsigned_text<'a>(val: u64, buf: &'a mut [u8; 20]) -> (text: &'a [u8])
    ensures
        text@ == decimal(val as nat),
        text@.len() <= 20,
        final(buf)@.subrange(20 - text@.len(), 20) == text@,
{
    val.numtoa(10, buf)
}

/// `numtoa` for `i64`, in base ten. Trusted: the slice that comes back is the
/// canonical decimal text of `val`, with one `-` in front if `val` is
/// negative, and it is the end of `buf`. Twenty bytes hold the longest text,
/// so the call does not panic.
#[verifier::external_body]
pub(crate) fn signed_text<'a>(val: i64, buf: &'a mut [u8; 20]) -> (text: &'a [u8])
    ensures
        text@ == signed_decimal(val as int),
        text@.len() <= 20,
        final(buf)@.subrange(20 - text@.len(), 20) == text@,
{
    val.numtoa(10, buf)
}

} // verus!
