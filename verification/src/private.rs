//! Keeps [`ToHostAddr`](crate::addr::ToHostAddr) from being implemented elsewhere.

use crate::addr::{HostAddr, IpAddr, Ipv4Addr, Ipv6Addr};
use vstd::prelude::*;

verus! {

/// Implemented for the types that convert to a host address.
pub trait Sealed {

}

impl Sealed for HostAddr {

}

impl Sealed for IpAddr {

}

impl Sealed for Ipv4Addr {

}

impl Sealed for Ipv6Addr {

}

impl Sealed for (Ipv6Addr, u32) {

}

impl Sealed for str {

}

impl Sealed for &str {

}

impl Sealed for String {

}

} // verus!
