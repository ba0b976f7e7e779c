//! A minimal NTP (Network Time Protocol) client library.
//!
//! The library holds the pure, verified part of a one-shot NTP query:
//! building the 48-byte client request, extracting the server's transmit
//! timestamp from the 48-byte reply, converting NTP seconds (epoch
//! 1900-01-01) to Unix seconds, and converting Unix seconds plus the
//! fractional field into a calendar time (proleptic Gregorian, UTC).
//!
//! DNS resolution, the UDP exchange and the privileged clock-set call are
//! I/O and live with the caller; they hand the library plain values
//! (resolved addresses, reply bytes) and take plain values back.

use vstd::prelude::*;

pub mod calendar;
pub mod codec;
pub mod error;
pub mod resolve;

verus! {

use crate::calendar::CalendarTime;
use crate::error::NtpError;

/// Decodes a complete server reply into a calendar time: extracts the
/// transmit timestamp, rebases its seconds onto the Unix epoch, and converts
/// seconds plus fraction into calendar fields.
///
/// Fails with a decode error exactly when the reply is shorter than 48 bytes
/// or the transmit seconds lie before the Unix epoch; on success the
/// calendar time denotes exactly the decoded instant.
pub fn decode_reply(reply: &Vec<u8>) -> (r: Result<CalendarTime, NtpError>)
    ensures
        reply@.len() >= 48 && codec::transmit_seconds(reply@) >= codec::NTP_UNIX_OFFSET_SECONDS
            ==> (r matches Ok(c)
                && calendar::calendar_wf(c)
                && calendar::unix_seconds_of(c)
                    == codec::transmit_seconds(reply@) - codec::NTP_UNIX_OFFSET_SECONDS
                && c.millisecond
                    == calendar::millis_of_fraction(codec::transmit_fraction(reply@))),
        reply@.len() < 48 || codec::transmit_seconds(reply@) < codec::NTP_UNIX_OFFSET_SECONDS
            ==> r == Err::<CalendarTime, NtpError>(NtpError::Decode),
{
    let (seconds, fraction) = match codec::decode_transmit_timestamp(reply) {
        Ok(t) => t,
        Err(e) => {
            return Err(e);
        },
    };
    let unix_seconds = match codec::to_unix_seconds(seconds) {
        Ok(u) => u,
        Err(e) => {
            return Err(e);
        },
    };
    Ok(calendar::to_calendar(unix_seconds, fraction))
}

} // verus!
