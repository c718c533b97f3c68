use vstd::prelude::*;
use crate::clock::is_digit_char;

verus! {

/// Relies on chrono: `Local::now()` reads the wall clock, and formatting it
/// with `%H%M%S` zero-pads the hour (00-23), minute (00-59) and second
/// (00-60) to two ASCII decimal digits each, so the result is always exactly
/// six digit characters. Which six depends on the moment of the call, so
/// nothing more is promised.
#[verifier::external_body]
pub(crate) fn now_hhmmss() -> (t: String)
    ensures
        t@.len() == 6,
        forall|i: int| 0 <= i < 6 ==> is_digit_char(#[trigger] t@[i]),
{
    chrono::Local::now().format("%H%M%S").to_string()
}

} // verus!
