//! Values that come from outside the program's logic: fresh job ids and the clock.
use vstd::prelude::*;

verus! {

/// Relies on `uuid::Uuid::new_v4` and its `Display` impl (the hyphenated lower-case form of
/// 36 characters): a fresh random job id.
#[verifier::external_body]
pub(crate) fn new_job_id() -> (r: String)
    ensures
        r@.len() == 36,
{
    uuid::Uuid::new_v4().to_string()
}

/// Relies on `std::time::SystemTime::now` and `duration_since(UNIX_EPOCH)`: whole seconds
/// since the Unix epoch, or `None` when the clock stands before it.
#[verifier::external_body]
pub(crate) fn unix_now_secs() -> (r: Option<u64>) {
    match std::time::SystemTime::now().duration_since(std::time::UNIX_EPOCH) {
        Ok(d) => Some(d.as_secs()),
        Err(_) => None,
    }
}

} // verus!
