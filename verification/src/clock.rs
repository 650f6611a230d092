use vstd::prelude::*;

verus! {

/// Relies on `std::time::SystemTime::now` and `duration_since`: the current
/// time as whole seconds since the Unix epoch, or zero when the system clock
/// reads earlier than the epoch. Nothing is promised of the value.
#[verifier::external_body]
pub(crate) fn now_epoch_seconds() -> u64 {
    std::time::SystemTime::now().duration_since(std::time::UNIX_EPOCH).unwrap_or_default().as_secs()
}

} // verus!
