//! The date stamp shown in the heading of a single-list document.

use vstd::prelude::*;

verus! {

/// Today's local date as a compact `YYYYMMDD` stamp.
///
/// Relies on `chrono::Local::now` and `DateTime::format` with the fixed
/// format string `"%Y%m%d"`: the month and the day are rendered as two
/// zero-padded decimal digits each and the year as at least four
/// characters, so every outcome is at least eight characters long, each
/// of them a decimal digit or a sign.
#[verifier::external_body]
pub(crate) fn today_stamp() -> (stamp: String)
    ensures
        stamp@.len() >= 8,
        forall|i: int|
            0 <= i < stamp@.len() ==> ('0' <= stamp@[i] <= '9' || stamp@[i] == '-' || stamp@[i]
                == '+'),
{
    chrono::Local::now().format("%Y%m%d").to_string()
}

} // verus!
