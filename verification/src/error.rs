//! Error taxonomy for the client: each fallible stage reports a distinct
//! error, and a failure anywhere aborts the run before the clock is touched.

use vstd::prelude::*;

verus! {

/// One error per fallible stage of the query.
#[derive(Clone, Copy, Debug, PartialEq, Eq, Structural)]
pub enum NtpError {
    /// DNS resolution yielded no IPv4 address for the hostname.
    Resolution,
    /// The UDP send or receive failed, including a receive timeout.
    Transport,
    /// The reply is too short, or its transmit timestamp lies before the
    /// Unix epoch.
    Decode,
    /// The operating system rejected the clock-set call, typically for
    /// missing privilege.
    ClockSet,
}

} // verus!
