//! CIDR network blocks as plain values, and the masking arithmetic that the
//! rule compilers rely on.

use vstd::prelude::*;

use crate::textutil::{dec_u8, spec_dec};

verus! {

/// A CIDR network: an address together with a prefix length, in either
/// address family. The address is kept exactly as supplied; [`NetworkBlock::masked`]
/// produces the canonical form in which the host bits are cleared.
#[derive(Clone, Copy, PartialEq, Eq, Structural, Debug)]
pub enum NetworkBlock {
    V4 { addr: u32, prefix: u8 },
    V6 { addr: u128, prefix: u8 },
}

/// The netmask with the `prefix` most significant of 32 bits set.
pub open spec fn spec_mask_v4(prefix: u8) -> u32 {
    if prefix == 0 {
        0u32
    } else {
        u32::MAX << ((32 - prefix) as u32)
    }
}

/// The netmask with the `prefix` most significant of 128 bits set.
pub open spec fn spec_mask_v6(prefix: u8) -> u128 {
    if prefix == 0 {
        0u128
    } else {
        u128::MAX << ((128 - prefix) as u128)
    }
}

impl NetworkBlock {
    /// A block is well formed when its prefix length fits its address family.
    pub open spec fn is_wf(self) -> bool {
        match self {
            NetworkBlock::V4 { prefix, .. } => prefix <= 32,
            NetworkBlock::V6 { prefix, .. } => prefix <= 128,
        }
    }

    pub open spec fn spec_prefix(self) -> u8 {
        match self {
            NetworkBlock::V4 { prefix, .. } => prefix,
            NetworkBlock::V6 { prefix, .. } => prefix,
        }
    }

    pub open spec fn spec_is_v4(self) -> bool {
        self is V4
    }

    /// The same block with its host bits cleared: the address is replaced by
    /// the bitwise and of the address and the prefix's netmask.
    pub open spec fn spec_masked(self) -> NetworkBlock {
        match self {
            NetworkBlock::V4 { addr, prefix } => NetworkBlock::V4 {
                addr: addr & spec_mask_v4(prefix),
                prefix,
            },
            NetworkBlock::V6 { addr, prefix } => NetworkBlock::V6 {
                addr: addr & spec_mask_v6(prefix),
                prefix,
            },
        }
    }

    pub fn prefix(&self) -> (r: u8)
        ensures
            r == self.spec_prefix(),
    {
        match self {
            NetworkBlock::V4 { prefix, .. } => *prefix,
            NetworkBlock::V6 { prefix, .. } => *prefix,
        }
    }

    /// Clears the host bits of the address, yielding the network address that
    /// a comparison rule is authored against.
    pub fn masked(&self) -> (r: NetworkBlock)
        requires
            self.is_wf(),
        ensures
            r == self.spec_masked(),
            r.is_wf(),
    {
        match self {
            NetworkBlock::V4 { addr, prefix } => NetworkBlock::V4 {
                addr: *addr & mask_v4(*prefix),
                prefix: *prefix,
            },
            NetworkBlock::V6 { addr, prefix } => NetworkBlock::V6 {
                addr: *addr & mask_v6(*prefix),
                prefix: *prefix,
            },
        }
    }
}

/// Computes the IPv4 netmask for a prefix length.
pub fn mask_v4(prefix: u8) -> (r: u32)
    requires
        prefix <= 32,
    ensures
        r == spec_mask_v4(prefix),
{
    if prefix == 0 {
        0
    } else {
        u32::MAX << ((32 - prefix) as u32)
    }
}

/// Computes the IPv6 netmask for a prefix length.
pub fn mask_v6(prefix: u8) -> (r: u128)
    requires
        prefix <= 128,
    ensures
        r == spec_mask_v6(prefix),
{
    if prefix == 0 {
        0
    } else {
        u128::MAX << ((128 - prefix) as u128)
    }
}

/// A bare IP address, either family, as plain bits.
#[derive(Clone, Copy, PartialEq, Eq, Structural, Debug)]
pub enum IpAddress {
    V4(u32),
    V6(u128),
}

/// What `ipnetwork`'s CIDR parser returns for a piece of text: `None` where
/// the text is not a valid `addr` or `addr/prefix` form.
pub uninterp spec fn spec_parse_network(s: Seq<char>) -> Option<NetworkBlock>;

/// Relies on `ipnetwork::IpNetwork`'s `FromStr`: it parses `addr` or
/// `addr/prefix` text of either family, rejects a prefix longer than the
/// family's address width, and a bare address gets the full-width prefix.
#[verifier::external_body]
pub(crate) fn parse_network(s: &str) -> (r: Option<NetworkBlock>)
    ensures
        r == spec_parse_network(s@),
        r matches Some(b) ==> b.is_wf(),
{
    match s.parse::<ipnetwork::IpNetwork>() {
        Ok(ipnetwork::IpNetwork::V4(n)) => Some(NetworkBlock::V4 {
            addr: u32::from(n.ip()),
            prefix: n.prefix(),
        }),
        Ok(ipnetwork::IpNetwork::V6(n)) => Some(NetworkBlock::V6 {
            addr: u128::from(n.ip()),
            prefix: n.prefix(),
        }),
        Err(_) => None,
    }
}

/// Parses a list of CIDR strings; `None` as soon as any entry is invalid.
pub fn parse_block_list(items: &Vec<String>) -> (r: Option<Vec<NetworkBlock>>)
    ensures
        r is Some <==> (forall|i: int|
            0 <= i < items@.len() ==> spec_parse_network(items@[i]@) is Some),
        r matches Some(v) ==> {
            &&& v@.len() == items@.len()
            &&& forall|i: int|
                0 <= i < items@.len() ==> Some(v@[i]) == spec_parse_network(items@[i]@)
            &&& forall|i: int| 0 <= i < v@.len() ==> v@[i].is_wf()
        },
{
    let mut out: Vec<NetworkBlock> = Vec::new();
    let mut idx: usize = 0;
    while idx < items.len()
        invariant
            idx <= items@.len(),
            out@.len() == idx,
            forall|i: int| 0 <= i < idx ==> Some(out@[i]) == spec_parse_network(items@[i]@),
            forall|i: int| 0 <= i < idx ==> out@[i].is_wf(),
        decreases items@.len() - idx,
    {
        match parse_network(items[idx].as_str()) {
            Some(b) => out.push(b),
            None => {
                assert(spec_parse_network(items@[idx as int]@) is None);
                return None;
            },
        }
        idx += 1;
    }
    assert forall|i: int| 0 <= i < items@.len() implies spec_parse_network(items@[i]@) is Some by {
        assert(Some(out@[i]) == spec_parse_network(items@[i]@));
    }
    Some(out)
}

/// The text form that `ipnetwork` (through the standard library) gives an
/// IPv6 address; it depends on the address bits alone.
pub uninterp spec fn spec_v6_addr_text(addr: u128) -> Seq<char>;

/// Relies on `ipnetwork::Ipv6Network::ip` and the standard display form of
/// the address it returns: the text is a function of the address bits alone.
#[verifier::external_body]
fn v6_addr_string(addr: u128) -> (r: String)
    ensures
        r@ == spec_v6_addr_text(addr),
{
    match ipnetwork::Ipv6Network::new(addr.into(), 128) {
        Ok(n) => n.ip().to_string(),
        Err(_) => String::new(),
    }
}

/// The dotted-quad text of an IPv4 address.
pub open spec fn spec_v4_addr_text(addr: u32) -> Seq<char> {
    spec_dec(((addr >> 24u32) & 0xff) as nat) + seq!['.'] + spec_dec(
        ((addr >> 16u32) & 0xff) as nat,
    ) + seq!['.'] + spec_dec(((addr >> 8u32) & 0xff) as nat) + seq!['.'] + spec_dec(
        (addr & 0xff) as nat,
    )
}

/// The `addr/prefix` text of a block, IPv4 and IPv6 uniformly.
pub open spec fn spec_network_text(b: NetworkBlock) -> Seq<char> {
    match b {
        NetworkBlock::V4 { addr, prefix } => spec_v4_addr_text(addr) + seq!['/'] + spec_dec(
            prefix as nat,
        ),
        NetworkBlock::V6 { addr, prefix } => spec_v6_addr_text(addr) + seq!['/'] + spec_dec(
            prefix as nat,
        ),
    }
}

/// Formats an IPv4 address as a dotted quad.
pub fn v4_addr_text(addr: u32) -> (r: String)
    ensures
        r@ == spec_v4_addr_text(addr),
{
    proof {
        reveal_strlit(".");
    }
    let o0 = ((addr >> 24u32) & 0xff) as u8;
    let o1 = ((addr >> 16u32) & 0xff) as u8;
    let o2 = ((addr >> 8u32) & 0xff) as u8;
    let o3 = (addr & 0xff) as u8;
    assert((addr >> 24u32) & 0xff < 256 && (addr >> 16u32) & 0xff < 256 && (addr >> 8u32) & 0xff
        < 256 && addr & 0xff < 256) by (bit_vector);
    let mut s = dec_u8(o0);
    s.append(".");
    let p1 = dec_u8(o1);
    s.append(p1.as_str());
    s.append(".");
    let p2 = dec_u8(o2);
    s.append(p2.as_str());
    s.append(".");
    let p3 = dec_u8(o3);
    s.append(p3.as_str());
    assert(s@ =~= spec_v4_addr_text(addr));
    s
}

/// Formats a block as `addr/prefix`, the form the declarative firewall rule
/// carries in its remote-address list.
pub fn network_text(b: &NetworkBlock) -> (r: String)
    ensures
        r@ == spec_network_text(*b),
{
    proof {
        reveal_strlit("/");
    }
    let mut s = match b {
        NetworkBlock::V4 { addr, .. } => v4_addr_text(*addr),
        NetworkBlock::V6 { addr, .. } => v6_addr_string(*addr),
    };
    s.append("/");
    let p = dec_u8(b.prefix());
    s.append(p.as_str());
    assert(s@ =~= spec_network_text(*b));
    s
}

/// Masking is idempotent: a block whose address was already masked is left
/// unchanged. Hence a rule compiled from an unmasked block is the same rule
/// that would be compiled from the block authored with its network address.
pub proof fn lemma_masked_idempotent(b: NetworkBlock)
    requires
        b.is_wf(),
    ensures
        b.spec_masked().spec_masked() == b.spec_masked(),
{
    match b {
        NetworkBlock::V4 { addr, prefix } => {
            let m = spec_mask_v4(prefix);
            assert((addr & m) & m == addr & m) by (bit_vector);
        },
        NetworkBlock::V6 { addr, prefix } => {
            let m = spec_mask_v6(prefix);
            assert((addr & m) & m == addr & m) by (bit_vector);
        },
    }
}

} // verus!
