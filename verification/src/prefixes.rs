//! The region configuration: named groups of CIDR blocks with a ping
//! target, built from textual source entries.

use vstd::prelude::*;

use crate::net::{parse_block_list, spec_parse_network, IpAddress, NetworkBlock};
use crate::textutil::{spec_split, split_str};

verus! {

/// One matchmaking region: a stable key, a display name and short code, the
/// address pinged to estimate latency, and the CIDR blocks its servers live
/// in.
#[derive(Clone, Debug)]
pub struct Region {
    pub key: String,
    pub name: String,
    pub code: String,
    pub ping: IpAddress,
    pub prefixes: Vec<NetworkBlock>,
}

impl Region {
    /// Every block of the region fits its address family.
    pub open spec fn is_wf(self) -> bool {
        forall|i: int| 0 <= i < self.prefixes@.len() ==> (#[trigger] self.prefixes@[i]).is_wf()
    }

    /// The text a region is displayed as: its key.
    pub fn label(&self) -> (r: String)
        ensures
            r@ == self.key@,
    {
        self.key.clone()
    }
}

/// The address a parsed block stands for, where the block covers exactly
/// one address (a full-width prefix); bare address text parses to such a
/// block.
pub open spec fn spec_address_of(b: Option<NetworkBlock>) -> Option<IpAddress> {
    match b {
        Some(NetworkBlock::V4 { addr, prefix }) => if prefix == 32 {
            Some(IpAddress::V4(addr))
        } else {
            None
        },
        Some(NetworkBlock::V6 { addr, prefix }) => if prefix == 128 {
            Some(IpAddress::V6(addr))
        } else {
            None
        },
        None => None,
    }
}

/// Parses the text of a single address (no prefix narrower than one
/// address is accepted).
pub fn parse_address(s: &str) -> (r: Option<IpAddress>)
    ensures
        r == spec_address_of(spec_parse_network(s@)),
{
    match crate::net::parse_network(s) {
        Some(NetworkBlock::V4 { addr, prefix }) => if prefix == 32 {
            Some(IpAddress::V4(addr))
        } else {
            None
        },
        Some(NetworkBlock::V6 { addr, prefix }) => if prefix == 128 {
            Some(IpAddress::V6(addr))
        } else {
            None
        },
        None => None,
    }
}

/// One entry of the textual region table: the key, display name and code,
/// the ping target's address text, and the comma-joined CIDR list.
#[derive(Debug)]
pub struct RegionSource {
    pub key: String,
    pub name: String,
    pub code: String,
    pub ping: String,
    pub prefixes: String,
}

/// An entry parses when its ping text is a single address and every
/// comma-separated piece of its prefix list is a valid CIDR block.
pub open spec fn spec_entry_ok(e: RegionSource) -> bool {
    &&& spec_address_of(spec_parse_network(e.ping@)) is Some
    &&& forall|j: int|
        0 <= j < spec_split(e.prefixes@, ',').len() ==> spec_parse_network(
            #[trigger] spec_split(e.prefixes@, ',')[j],
        ) is Some
}

/// The region a source entry describes.
pub open spec fn spec_region_of(e: RegionSource, r: Region) -> bool {
    &&& r.key@ == e.key@
    &&& r.name@ == e.name@
    &&& r.code@ == e.code@
    &&& Some(r.ping) == spec_address_of(spec_parse_network(e.ping@))
    &&& r.prefixes@.len() == spec_split(e.prefixes@, ',').len()
    &&& forall|j: int|
        0 <= j < r.prefixes@.len() ==> Some(#[trigger] r.prefixes@[j]) == spec_parse_network(
            spec_split(e.prefixes@, ',')[j],
        )
}

/// Builds the region list from the textual table: each entry's ping target
/// parsed as an address and its prefix list split at commas and parsed as
/// CIDR blocks. `None` as soon as any entry has invalid text.
pub fn load(table: &Vec<RegionSource>) -> (r: Option<Vec<Region>>)
    ensures
        r is Some <==> (forall|i: int| 0 <= i < table@.len() ==> spec_entry_ok(#[trigger] table@[i])),
        r matches Some(v) ==> {
            &&& v@.len() == table@.len()
            &&& forall|i: int|
                0 <= i < table@.len() ==> spec_region_of(table@[i], #[trigger] v@[i])
            &&& forall|i: int| 0 <= i < v@.len() ==> (#[trigger] v@[i]).is_wf()
        },
{
    let mut out: Vec<Region> = Vec::new();
    let mut i: usize = 0;
    while i < table.len()
        invariant
            i <= table@.len(),
            out@.len() == i,
            forall|t: int| 0 <= t < i ==> spec_entry_ok(#[trigger] table@[t]),
            forall|t: int| 0 <= t < i ==> spec_region_of(table@[t], #[trigger] out@[t]),
            forall|t: int| 0 <= t < i ==> (#[trigger] out@[t]).is_wf(),
        decreases table@.len() - i,
    {
        let entry = &table[i];
        let ping = match parse_address(entry.ping.as_str()) {
            Some(p) => p,
            None => {
                assert(!spec_entry_ok(table@[i as int]));
                return None;
            },
        };
        let pieces = split_str(entry.prefixes.as_str(), ',');
        proof {
            assert(pieces.deep_view() == spec_split(entry.prefixes@, ','));
            assert(pieces.deep_view().len() == pieces@.len());
            assert(forall|j: int|
                0 <= j < pieces@.len() ==> #[trigger] pieces.deep_view()[j] == pieces@[j]@);
        }
        let blocks = match parse_block_list(&pieces) {
            Some(b) => b,
            None => {
                proof {
                    let j = choose|j: int|
                        0 <= j < pieces@.len() && spec_parse_network(pieces@[j]@) is None;
                    assert(spec_parse_network(spec_split(entry.prefixes@, ',')[j]) is None);
                    assert(!spec_entry_ok(table@[i as int]));
                }
                return None;
            },
        };
        out.push(
            Region {
                key: entry.key.clone(),
                name: entry.name.clone(),
                code: entry.code.clone(),
                ping,
                prefixes: blocks,
            },
        );
        i += 1;
    }
    Some(out)
}

} // verus!
