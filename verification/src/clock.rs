//! Reading the system clock. A reading since the epoch carries ghost tags for
//! its whole seconds and nanoseconds, set only here and read back only through
//! the wrappers below, so that a timestamp can be tied to the reading it was
//! made from.
use vstd::prelude::*;
use std::time::{Duration, SystemTime, UNIX_EPOCH};

verus! {

/// The wall clock of the machine, carried opaquely.
#[verifier::external_type_specification]
#[verifier::external_body]
pub struct ExSystemTime(SystemTime);

/// A clock reading as the time elapsed since the Unix epoch.
pub struct Elapsed {
    span: Duration,
    secs: Ghost<u64>,
    nanos: Ghost<u32>,
}

impl Elapsed {
    /// The whole seconds of the reading.
    pub closed spec fn secs(&self) -> u64 {
        self.secs@
    }

    /// The nanoseconds of the reading past its whole seconds.
    pub closed spec fn nanos(&self) -> u32 {
        self.nanos@
    }
}

/// Evidence that the clock read earlier than the Unix epoch.
pub struct BeforeEpoch {
    reading: SystemTime,
}

/// Calls `std::time::SystemTime::now`. Nothing is claimed of the reading.
#[verifier::external_body]
pub(crate) fn clock_now() -> SystemTime {
    SystemTime::now()
}

/// Calls `SystemTime::duration_since(UNIX_EPOCH)`: the time since the Unix
/// epoch, or the evidence that the reading is earlier than the epoch. The
/// reading's ghost tags are the values that `whole_seconds` and
/// `subsec_nanos` give for it; nothing else is claimed of the duration.
#[verifier::external_body]
pub(crate) fn since_epoch(t: &SystemTime) -> Result<Elapsed, BeforeEpoch> {
    match t.duration_since(UNIX_EPOCH) {
        Ok(span) => Ok(Elapsed { span, secs: Ghost(arbitrary()), nanos: Ghost(arbitrary()) }),
        Err(_) => Err(BeforeEpoch { reading: *t }),
    }
}

/// Calls `Duration::as_secs`: the whole seconds of the reading.
#[verifier::external_body]
pub(crate) fn whole_seconds(e: &Elapsed) -> (r: u64)
    ensures
        r == e.secs(),
{
    e.span.as_secs()
}

/// Calls `Duration::subsec_nanos`: the nanoseconds of the reading past its
/// whole seconds, which std documents as always below one billion.
#[verifier::external_body]
pub(crate) fn subsec_nanos(e: &Elapsed) -> (n: u32)
    ensures
        n == e.nanos(),
        n < 1_000_000_000,
{
    e.span.subsec_nanos()
}

} // verus!
