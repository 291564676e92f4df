//! Region list presentation state: per-region selection and ping status,
//! and the sort order of the list.

use vstd::prelude::*;

use core::cmp::Ordering;

use crate::ping::PingStatus;
use crate::prefixes::Region;

verus! {

/// One row of the region list.
pub struct RegionEntry {
    /// The region this entry shows.
    pub region: Region,
    /// Current ping to the region's main server.
    pub ping: PingStatus,
    /// Whether the region is selected as one of the preferred.
    pub selected: bool,
}

/// The property the region list is sorted by.
#[derive(Clone, Copy, PartialEq, Eq, Structural, Debug)]
pub enum RegionSortBy {
    Name,
    Ping,
}

impl RegionSortBy {
    /// The display word of the property.
    pub fn text(&self) -> (r: &'static str)
        ensures
            r@ == (match *self {
                RegionSortBy::Name => "name"@,
                RegionSortBy::Ping => "ping"@,
            }),
    {
        match self {
            RegionSortBy::Name => "name",
            RegionSortBy::Ping => "ping",
        }
    }
}

/// The current sort order: the property sorted by, and the direction.
pub struct RegionSorting {
    pub by: RegionSortBy,
    pub asc: bool,
}

/// Lexicographic comparison of two texts by code point, the order the
/// region names are sorted in.
pub open spec fn spec_str_cmp(a: Seq<char>, b: Seq<char>) -> Ordering
    decreases a.len(),
{
    if a.len() == 0 && b.len() == 0 {
        Ordering::Equal
    } else if a.len() == 0 {
        Ordering::Less
    } else if b.len() == 0 {
        Ordering::Greater
    } else if (a[0] as u32) < (b[0] as u32) {
        Ordering::Less
    } else if (a[0] as u32) > (b[0] as u32) {
        Ordering::Greater
    } else {
        spec_str_cmp(a.drop_first(), b.drop_first())
    }
}

/// Compares two texts lexicographically by code point.
pub fn str_cmp(a: &str, b: &str) -> (r: Ordering)
    ensures
        r == spec_str_cmp(a@, b@),
{
    let alen = a.unicode_len();
    let blen = b.unicode_len();
    let mut i: usize = 0;
    proof {
        assert(a@.skip(0) =~= a@);
        assert(b@.skip(0) =~= b@);
    }
    while i < alen && i < blen
        invariant
            i <= alen,
            i <= blen,
            alen == a@.len(),
            blen == b@.len(),
            spec_str_cmp(a@, b@) == spec_str_cmp(a@.skip(i as int), b@.skip(i as int)),
        decreases alen - i,
    {
        let ca = a.get_char(i);
        let cb = b.get_char(i);
        proof {
            assert(a@.skip(i as int)[0] == a@[i as int]);
            assert(b@.skip(i as int)[0] == b@[i as int]);
            assert(a@.skip(i as int).drop_first() =~= a@.skip(i + 1 as int));
            assert(b@.skip(i as int).drop_first() =~= b@.skip(i + 1 as int));
        }
        if (ca as u32) < (cb as u32) {
            return Ordering::Less;
        }
        if (ca as u32) > (cb as u32) {
            return Ordering::Greater;
        }
        i += 1;
    }
    proof {
        if i == alen {
            assert(a@.skip(i as int) =~= Seq::<char>::empty());
        }
        if i == blen {
            assert(b@.skip(i as int) =~= Seq::<char>::empty());
        }
    }
    if alen == blen {
        Ordering::Equal
    } else if alen < blen {
        Ordering::Less
    } else {
        Ordering::Greater
    }
}

/// Numeric comparison.
pub open spec fn spec_num_cmp(x: u64, y: u64) -> Ordering {
    if x < y {
        Ordering::Less
    } else if x > y {
        Ordering::Greater
    } else {
        Ordering::Equal
    }
}

/// The opposite direction of an ordering.
pub open spec fn spec_reverse(o: Ordering) -> Ordering {
    match o {
        Ordering::Less => Ordering::Greater,
        Ordering::Equal => Ordering::Equal,
        Ordering::Greater => Ordering::Less,
    }
}

/// The milliseconds a row sorts by: its round-trip time, or 1000 where the
/// target has not answered.
pub open spec fn spec_ping_millis(p: PingStatus) -> u64 {
    match p {
        PingStatus::Reachable(ms) => ms,
        _ => 1000u64,
    }
}

impl RegionSorting {
    /// The display word of the direction.
    pub fn ordering_name(&self) -> (r: &'static str)
        ensures
            r@ == (if self.asc {
                "ascending"@
            } else {
                "descending"@
            }),
    {
        if self.asc {
            "ascending"
        } else {
            "descending"
        }
    }

    /// Flips the sort direction.
    pub fn toggle_asc(&mut self)
        ensures
            final(self).asc == !old(self).asc,
            final(self).by == old(self).by,
    {
        self.asc = !self.asc;
    }

    /// The property after the current one in the cycle.
    pub fn next_property(&self) -> (r: RegionSortBy)
        ensures
            r == (match self.by {
                RegionSortBy::Name => RegionSortBy::Ping,
                RegionSortBy::Ping => RegionSortBy::Name,
            }),
    {
        match self.by {
            RegionSortBy::Name => RegionSortBy::Ping,
            RegionSortBy::Ping => RegionSortBy::Name,
        }
    }

    /// Advances to the next property in the cycle.
    pub fn cycle_property(&mut self)
        ensures
            final(self).by == (match old(self).by {
                RegionSortBy::Name => RegionSortBy::Ping,
                RegionSortBy::Ping => RegionSortBy::Name,
            }),
            final(self).asc == old(self).asc,
    {
        self.by = self.next_property();
    }

    /// The order this sorting puts two rows in.
    pub open spec fn spec_cmp(self, a: RegionEntry, b: RegionEntry) -> Ordering {
        let ord = match self.by {
            RegionSortBy::Name => spec_str_cmp(a.region.name@, b.region.name@),
            RegionSortBy::Ping => spec_num_cmp(spec_ping_millis(a.ping), spec_ping_millis(b.ping)),
        };
        if self.asc {
            ord
        } else {
            spec_reverse(ord)
        }
    }

    /// Compares two rows under the current sorting: by region name, or by
    /// round-trip time with 1000 ms standing in for an unanswered target;
    /// a descending sort reverses the result.
    pub fn as_cmp(&self, a: &RegionEntry, b: &RegionEntry) -> (r: Ordering)
        ensures
            r == self.spec_cmp(*a, *b),
    {
        let ord = match self.by {
            RegionSortBy::Name => str_cmp(a.region.name.as_str(), b.region.name.as_str()),
            RegionSortBy::Ping => {
                let pa = a.ping.as_millis_or(1000);
                let pb = b.ping.as_millis_or(1000);
                if pa < pb {
                    Ordering::Less
                } else if pa > pb {
                    Ordering::Greater
                } else {
                    Ordering::Equal
                }
            },
        };
        if self.asc {
            ord
        } else {
            match ord {
                Ordering::Less => Ordering::Greater,
                Ordering::Equal => Ordering::Equal,
                Ordering::Greater => Ordering::Less,
            }
        }
    }
}

impl Default for RegionSorting {
    /// The list starts sorted by name, ascending.
    fn default() -> (r: Self)
        ensures
            r.by == RegionSortBy::Name,
            r.asc == true,
    {
        RegionSorting { by: RegionSortBy::Name, asc: true }
    }
}

} // verus!
