use vstd::prelude::*;

verus! {

/// A network address with the length of its network prefix: a single host
/// where the prefix covers every bit, a subnet where it covers fewer.
#[derive(Debug, Clone, Copy, PartialEq, Eq, Structural)]
#[allow(inconsistent_fields)]
pub enum IpNetwork {
    V4 { address: u32, prefix: u8 },
    V6 { address: u128, prefix: u8 },
}

impl IpNetwork {
    /// The prefix is no longer than the address.
    pub open spec fn wf(self) -> bool {
        match self {
            IpNetwork::V4 { address, prefix } => prefix <= 32,
            IpNetwork::V6 { address, prefix } => prefix <= 128,
        }
    }

    /// Whether this network lies within `outer` or equals it: both are of
    /// one family, this prefix is at least as long, and the two addresses
    /// agree on every bit that the prefix of `outer` covers.
    pub open spec fn within(self, outer: IpNetwork) -> bool {
        match (self, outer) {
            (
                IpNetwork::V4 { address: a, prefix: p },
                IpNetwork::V4 { address: b, prefix: q },
            ) => q <= p && (q == 0 || q > 32 || a >> ((32 - q) as u32) == b >> ((32 - q) as u32)),
            (
                IpNetwork::V6 { address: a, prefix: p },
                IpNetwork::V6 { address: b, prefix: q },
            ) => q <= p && (q == 0 || q > 128 || a >> ((128 - q) as u128) == b >> ((128
                - q) as u128)),
            _ => false,
        }
    }

    /// The network that holds one IPv4 host.
    pub fn host_v4(address: u32) -> (host: IpNetwork)
        ensures
            host == (IpNetwork::V4 { address, prefix: 32 }),
            host.wf(),
    {
        IpNetwork::V4 { address, prefix: 32 }
    }

    /// The network that holds one IPv6 host.
    pub fn host_v6(address: u128) -> (host: IpNetwork)
        ensures
            host == (IpNetwork::V6 { address, prefix: 128 }),
            host.wf(),
    {
        IpNetwork::V6 { address, prefix: 128 }
    }

    /// Whether the prefix is no longer than the address.
    pub fn is_valid(&self) -> (valid: bool)
        ensures
            valid == self.wf(),
    {
        match self {
            IpNetwork::V4 { address, prefix } => *prefix <= 32,
            IpNetwork::V6 { address, prefix } => *prefix <= 128,
        }
    }

    /// Whether this network lies within `outer` or equals it.
    pub fn is_within(&self, outer: &IpNetwork) -> (inside: bool)
        ensures
            inside == self.within(*outer),
    {
        match (self, outer) {
            (
                IpNetwork::V4 { address: a, prefix: p },
                IpNetwork::V4 { address: b, prefix: q },
            ) => {
                if *q > *p {
                    false
                } else if *q == 0 || *q > 32 {
                    true
                } else {
                    let shift: u32 = (32 - *q) as u32;
                    (*a >> shift) == (*b >> shift)
                }
            },
            (
                IpNetwork::V6 { address: a, prefix: p },
                IpNetwork::V6 { address: b, prefix: q },
            ) => {
                if *q > *p {
                    false
                } else if *q == 0 || *q > 128 {
                    true
                } else {
                    let shift: u128 = (128 - *q) as u128;
                    (*a >> shift) == (*b >> shift)
                }
            },
            _ => false,
        }
    }
}

} // verus!
