//! Address selection: the client binds its UDP socket to an IPv4 wildcard
//! address, so only an IPv4 record of the resolved hostname can be used.
//! The caller performs the DNS lookup and hands the records over as plain
//! values; picking the first IPv4 record, or rejecting an IPv6-only result,
//! is decided here.

use vstd::prelude::*;

use crate::error::NtpError;

verus! {

/// An IPv4 address as its four dotted-quad octets.
#[derive(Clone, Copy, Debug, PartialEq, Eq, Structural)]
pub struct Ipv4Address {
    pub a: u8,
    pub b: u8,
    pub c: u8,
    pub d: u8,
}

/// One record of a DNS answer, reduced to what the selection needs: an IPv4
/// address, or the fact that the record was IPv6.
#[derive(Clone, Copy, Debug, PartialEq, Eq, Structural)]
pub enum ResolvedAddr {
    V4(Ipv4Address),
    V6,
}

/// Picks the first IPv4 record of a DNS answer. An answer with no IPv4
/// record — in particular an IPv6-only one — yields a resolution error.
pub fn first_ipv4_address(addrs: &Vec<ResolvedAddr>) -> (r: Result<Ipv4Address, NtpError>)
    ensures
        (exists|i: int| 0 <= i < addrs@.len() && addrs@[i] is V4) <==> r is Ok,
        r matches Ok(a) ==> exists|i: int|
            0 <= i < addrs@.len() && addrs@[i] == ResolvedAddr::V4(a) && (forall|j: int|
                0 <= j < i ==> addrs@[j] is V6),
        !(exists|i: int| 0 <= i < addrs@.len() && addrs@[i] is V4) ==> r == Err::<
            Ipv4Address,
            NtpError,
        >(NtpError::Resolution),
{
    let n: usize = addrs.len();
    let mut idx: usize = 0;
    while idx < n
        invariant
            n == addrs@.len(),
            0 <= idx <= n,
            forall|j: int| 0 <= j < idx ==> addrs@[j] is V6,
        decreases n - idx,
    {
        match addrs[idx] {
            ResolvedAddr::V4(a) => {
                return Ok(a);
            },
            ResolvedAddr::V6 => {},
        }
        idx = idx + 1;
    }
    Err(NtpError::Resolution)
}

} // verus!
