//! The NTP packet codec: builds the fixed 48-byte client request and
//! extracts the server's transmit timestamp from a reply.
//!
//! Wire layout (NTP v3/v4): byte 0 packs Leap Indicator (2 bits), Version
//! Number (3 bits) and Mode (3 bits); bytes 40..43 hold the transmit
//! timestamp's seconds since 1900-01-01 00:00:00 UTC as a big-endian
//! unsigned 32-bit integer, bytes 44..47 its fractional seconds as a
//! big-endian binary fraction of 2^32.

use vstd::prelude::*;

use crate::error::NtpError;

verus! {

/// Seconds between the NTP epoch (1900-01-01) and the Unix epoch
/// (1970-01-01).
pub const NTP_UNIX_OFFSET_SECONDS: u32 = 2208988800;

/// The leap-indicator sub-field of a packet's first byte: its top two bits.
pub open spec fn leap_indicator(b: u8) -> int {
    b as int / 64
}

/// The version-number sub-field of a packet's first byte: its middle three
/// bits.
pub open spec fn version_number(b: u8) -> int {
    (b as int / 8) % 8
}

/// The mode sub-field of a packet's first byte: its low three bits.
pub open spec fn mode(b: u8) -> int {
    b as int % 8
}

/// The big-endian unsigned 32-bit integer held in bytes `i .. i + 4`.
pub open spec fn be32_at(s: Seq<u8>, i: int) -> nat
    recommends
        0 <= i,
        i + 4 <= s.len(),
{
    (s[i] * 0x1000000 + s[i + 1] * 0x10000 + s[i + 2] * 0x100 + s[i + 3]) as nat
}

/// The seconds field of a reply's transmit timestamp.
pub open spec fn transmit_seconds(s: Seq<u8>) -> nat
    recommends
        s.len() >= 48,
{
    be32_at(s, 40)
}

/// The fraction field of a reply's transmit timestamp.
pub open spec fn transmit_fraction(s: Seq<u8>) -> nat
    recommends
        s.len() >= 48,
{
    be32_at(s, 44)
}

/// Builds the client request: 48 bytes, all zero but byte 0, which carries
/// Leap Indicator 0 (no warning), Version Number 3 and Mode 3 (client).
pub fn encode_request() -> (r: Vec<u8>)
    ensures
        r@.len() == 48,
        leap_indicator(r@[0]) == 0,
        version_number(r@[0]) == 3,
        mode(r@[0]) == 3,
        forall|i: int| 1 <= i < 48 ==> r@[i] == 0u8,
{
    let mut packet: Vec<u8> = Vec::new();
    packet.push(0x1b);
    let mut i: usize = 1;
    while i < 48
        invariant
            1 <= i <= 48,
            packet@.len() == i,
            packet@[0] == 0x1bu8,
            forall|j: int| 1 <= j < i ==> packet@[j] == 0u8,
        decreases 48 - i,
    {
        packet.push(0);
        i = i + 1;
    }
    packet
}

/// Extracts the transmit timestamp as (seconds, fraction), both big-endian
/// 32-bit fields; fails when the reply is shorter than 48 bytes.
pub fn decode_transmit_timestamp(reply: &Vec<u8>) -> (r: Result<(u32, u32), NtpError>)
    ensures
        reply@.len() >= 48 ==> (r matches Ok(t)
            && t.0 == transmit_seconds(reply@)
            && t.1 == transmit_fraction(reply@)),
        reply@.len() < 48 ==> r == Err::<(u32, u32), NtpError>(NtpError::Decode),
{
    if reply.len() < 48 {
        return Err(NtpError::Decode);
    }
    let seconds = read_be32(reply, 40);
    let fraction = read_be32(reply, 44);
    Ok((seconds, fraction))
}

/// Reads the big-endian unsigned 32-bit integer at `offset`.
fn read_be32(buf: &Vec<u8>, offset: usize) -> (r: u32)
    requires
        offset + 4 <= buf@.len(),
    ensures
        r == be32_at(buf@, offset as int),
{
    // Fixing the length as a usize lets the index arithmetic below be
    // proved free of overflow.
    let n: usize = buf.len();
    assert(offset + 4 <= n);
    let b0 = buf[offset];
    let b1 = buf[offset + 1];
    let b2 = buf[offset + 2];
    let b3 = buf[offset + 3];
    (b0 as u32) * 0x1000000 + (b1 as u32) * 0x10000 + (b2 as u32) * 0x100 + (b3 as u32)
}

/// Whether a received buffer looks like a server reply worth decoding: at
/// least 48 bytes, with the mode sub-field of byte 0 set to 4 (server).
/// Checking this before decoding guards against misinterpreting garbage or
/// spoofed packets.
pub fn is_server_reply(reply: &Vec<u8>) -> (r: bool)
    ensures
        r == (reply@.len() >= 48 && mode(reply@[0]) == 4),
{
    reply.len() >= 48 && reply[0] % 8 == 4
}

/// Rebases NTP seconds onto the Unix epoch. A seconds value before the Unix
/// epoch (a malformed or pre-1970 reply) is rejected rather than allowed to
/// wrap.
pub fn to_unix_seconds(ntp_seconds: u32) -> (r: Result<u32, NtpError>)
    ensures
        ntp_seconds >= NTP_UNIX_OFFSET_SECONDS
            ==> r == Ok::<u32, NtpError>((ntp_seconds - NTP_UNIX_OFFSET_SECONDS) as u32),
        ntp_seconds < NTP_UNIX_OFFSET_SECONDS ==> r == Err::<u32, NtpError>(NtpError::Decode),
{
    if ntp_seconds < NTP_UNIX_OFFSET_SECONDS {
        Err(NtpError::Decode)
    } else {
        Ok(ntp_seconds - NTP_UNIX_OFFSET_SECONDS)
    }
}

} // verus!
