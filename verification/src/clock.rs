use vstd::prelude::*;

verus! {

/// The time since the Unix epoch, by `std::time::SystemTime::elapsed` on
/// `UNIX_EPOCH` (the system clock now, less the epoch); `None` when the clock
/// reads before the epoch. Nothing is claimed of the value: it depends on the
/// machine's clock.
#[verifier::external_body]
fn elapsed_since_epoch() -> (d: Option<std::time::Duration>) {
    match std::time::UNIX_EPOCH.elapsed() {
        Ok(d) => Some(d),
        Err(_) => None,
    }
}

/// The whole seconds of `d`, by `std::time::Duration::as_secs`. Nothing is
/// claimed of the value: a duration is opaque here.
#[verifier::external_body]
fn whole_seconds(d: &std::time::Duration) -> (s: u64) {
    d.as_secs()
}

/// Seconds since the Unix epoch, as a move's timestamp; a clock set before
/// the epoch reads as 0.
pub(crate) fn unix_time_secs() -> (t: u64) {
    match elapsed_since_epoch() {
        Some(d) => whole_seconds(&d),
        None => 0,
    }
}

} // verus!
