//! The time of a generation.

use vstd::prelude::*;

verus! {

/// The local time at this moment: the seconds since the Unix epoch, and the
/// time as text. Calls `chrono::Local::now`, and on what it returns
/// `DateTime::timestamp` and `to_string`. Nothing is claimed of either value:
/// both depend on the clock and on the time zone of the machine. Nothing is
/// proved of the call either: `Local::now` panics on a machine whose clock
/// stands before 1970.
#[verifier::external_body]
pub(crate) fn local_now() -> (now: (i64, String)) {
    let time = chrono::Local::now();
    (time.timestamp(), time.to_string())
}

} // verus!
