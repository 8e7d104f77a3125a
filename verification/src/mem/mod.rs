//! Guest memory: the map from guest base addresses to host regions, and
//! the translation of guest addresses to host addresses.

pub mod mmap;

use vstd::prelude::*;

verus! {

/// A region of host memory that backs a stretch of guest address space:
/// the host address of its first byte, which stands for the pointer to it,
/// and its length in bytes.
#[derive(Debug, Clone, Copy, PartialEq, Eq)]
pub struct MappedSegment {
    pub host_ptr: usize,
    pub len: u32,
}

/// One entry of the guest memory map.
#[derive(Debug, Clone, Copy, PartialEq, Eq)]
pub struct Region {
    pub guest_addr: u32,
    pub segment: MappedSegment,
}

/// The guest memory map: an ordered map from guest base addresses to host
/// regions. The entries are kept in a vector, in strictly ascending order
/// of their guest base address, so no base occurs twice.
pub struct Mem {
    maps: Vec<Region>,
}

/// The entries stand in strictly ascending order of their guest base.
pub open spec fn ascending(regions: Seq<Region>) -> bool {
    forall|i: int, j: int| 0 <= i < j < regions.len() ==> regions[i].guest_addr < regions[j].guest_addr
}

/// A segment that a memory map may hold: its pointer is not null, and it
/// does not run past the end of the host address space.
pub open spec fn valid_segment(segment: MappedSegment) -> bool {
    segment.host_ptr != 0 && segment.host_ptr + segment.len <= usize::MAX
}

/// `base` is the greatest base in `m` that is not above `addr`.
pub open spec fn is_floor(m: Map<u32, MappedSegment>, addr: u32, base: u32) -> bool {
    &&& m.dom().contains(base)
    &&& base <= addr
    &&& forall|k: u32| m.dom().contains(k) && k <= addr ==> k <= base
}

/// `addr` lies in the stretch of guest addresses that starts at `base` and
/// is as long as `segment`.
pub open spec fn segment_contains(base: u32, segment: MappedSegment, addr: u32) -> bool {
    base <= addr < base + segment.len
}

/// The host address of guest address `addr`: the region with the greatest
/// base that is not above `addr` decides. If `addr` lies in it, the result
/// is as far from the region's host address as `addr` is from its base.
pub open spec fn translation(m: Map<u32, MappedSegment>, addr: u32) -> Option<usize> {
    if exists|base: u32| is_floor(m, addr, base) {
        let base = choose|base: u32| is_floor(m, addr, base);
        if segment_contains(base, m[base], addr) {
            Some((m[base].host_ptr + (addr - base)) as usize)
        } else {
            None
        }
    } else {
        None
    }
}

/// No two regions of `m` share a guest address: each ends before the next
/// one starts.
pub open spec fn non_overlapping(m: Map<u32, MappedSegment>) -> bool {
    forall|a: u32, b: u32|
        m.dom().contains(a) && m.dom().contains(b) && a < b ==> a + m[a].len <= b
}

/// Where one base of `m` is not above `addr`, a greatest such base exists.
pub proof fn lemma_floor_exists(m: Map<u32, MappedSegment>, addr: u32, base: u32)
    requires
        m.dom().contains(base),
        base <= addr,
    ensures
        exists|f: u32| is_floor(m, addr, f),
    decreases addr - base,
{
    if exists|k: u32| m.dom().contains(k) && k <= addr && base < k {
        let k = choose|k: u32| m.dom().contains(k) && k <= addr && base < k;
        lemma_floor_exists(m, addr, k);
    } else {
        assert(is_floor(m, addr, base));
    }
}

/// In a map whose regions do not overlap, a guest address translates if
/// and only if some region contains it, and it then lies as far from that
/// region's host address as from its guest base.
pub proof fn lemma_translate_contained(m: Map<u32, MappedSegment>, addr: u32)
    requires
        non_overlapping(m),
    ensures
        translation(m, addr) is Some <==> exists|base: u32|
            m.dom().contains(base) && segment_contains(base, m[base], addr),
        forall|base: u32|
            m.dom().contains(base) && segment_contains(base, m[base], addr) ==> translation(
                m,
                addr,
            ) == Some((m[base].host_ptr + (addr - base)) as usize),
{
    assert forall|base: u32|
        m.dom().contains(base) && segment_contains(base, m[base], addr) implies translation(
        m,
        addr,
    ) == Some((m[base].host_ptr + (addr - base)) as usize) by {
        // the greatest base that is not above addr is base itself: a
        // region that starts later starts behind the end of this one
        lemma_floor_exists(m, addr, base);
    }
}

/// The map that a list of entries stands for: each base with its segment.
pub open spec fn regions_map(regions: Seq<Region>) -> Map<u32, MappedSegment> {
    Map::new(
        |k: u32| exists|i: int| 0 <= i < regions.len() && regions[i].guest_addr == k,
        |k: u32|
            regions[choose|i: int| 0 <= i < regions.len() && regions[i].guest_addr == k].segment,
    )
}

/// In an ascending list each entry is the one that the map holds under
/// its base.
pub proof fn lemma_regions_map_entry(regions: Seq<Region>, i: int)
    requires
        ascending(regions),
        0 <= i < regions.len(),
    ensures
        regions_map(regions).dom().contains(regions[i].guest_addr),
        regions_map(regions)[regions[i].guest_addr] == regions[i].segment,
{
}

/// The map after a run of calls of `map_region`, one for each entry of
/// `calls`, on an empty map.
pub open spec fn entered(calls: Seq<Region>) -> Map<u32, MappedSegment>
    decreases calls.len(),
{
    if calls.len() == 0 {
        Map::empty()
    } else {
        entered(calls.drop_last()).insert(calls.last().guest_addr, calls.last().segment)
    }
}

/// No two entries have the same guest base.
pub open spec fn distinct_bases(calls: Seq<Region>) -> bool {
    forall|i: int, j: int| 0 <= i < j < calls.len() ==> calls[i].guest_addr != calls[j].guest_addr
}

/// The bases of a list of entries, in its order.
pub open spec fn bases(regions: Seq<Region>) -> Seq<u32> {
    regions.map_values(|region: Region| region.guest_addr)
}

/// After calls with distinct bases the map holds each of their regions
/// under its base, and nothing else.
pub proof fn lemma_entered(calls: Seq<Region>)
    requires
        distinct_bases(calls),
    ensures
        entered(calls).dom() =~= bases(calls).to_set(),
        forall|i: int|
            0 <= i < calls.len() ==> entered(calls).contains_pair(
                #[trigger] calls[i].guest_addr,
                calls[i].segment,
            ),
    decreases calls.len(),
{
    if calls.len() > 0 {
        let rest = calls.drop_last();
        lemma_entered(rest);
        assert forall|k: u32| entered(calls).dom().contains(k) <==> bases(calls).to_set().contains(
            k,
        ) by {
            if bases(calls).to_set().contains(k) {
                let i = choose|i: int| 0 <= i < bases(calls).len() && bases(calls)[i] == k;
                if i < rest.len() {
                    assert(bases(rest)[i] == k);
                }
            }
            if entered(rest).dom().contains(k) {
                let i = choose|i: int| 0 <= i < bases(rest).len() && bases(rest)[i] == k;
                assert(bases(calls)[i] == k);
            }
            if k == calls.last().guest_addr {
                assert(bases(calls)[calls.len() - 1] == k);
            }
        }
        assert forall|i: int| 0 <= i < calls.len() implies entered(calls).contains_pair(
            #[trigger] calls[i].guest_addr,
            calls[i].segment,
        ) by {
            if i < rest.len() {
                assert(rest[i] == calls[i]);
            }
        }
    }
}

/// A memory map that was filled by calls with distinct bases gives back,
/// when it is taken apart, exactly the regions of those calls, each of
/// them once.
pub proof fn lemma_destroy_releases_each_once(calls: Seq<Region>, released: Seq<Region>)
    requires
        distinct_bases(calls),
        ascending(released),
        regions_map(released) == entered(calls),
    ensures
        forall|region: Region| calls.contains(region) <==> released.contains(region),
        released.no_duplicates(),
        released.len() == calls.len(),
{
    lemma_entered(calls);
    assert forall|region: Region| calls.contains(region) <==> released.contains(region) by {
        if calls.contains(region) {
            // the map holds the region, so the list has it under its base
            let j = choose|j: int|
                0 <= j < released.len() && released[j].guest_addr == region.guest_addr;
            lemma_regions_map_entry(released, j);
        }
        if released.contains(region) {
            // the map holds the region, so a call entered its base
            let j = choose|j: int| 0 <= j < released.len() && released[j] == region;
            lemma_regions_map_entry(released, j);
        }
    }
    // both lists are free of duplicates and have the same bases, so they
    // are of one length
    assert(bases(released).no_duplicates());
    assert(bases(released).to_set() =~= regions_map(released).dom()) by {
        assert forall|k: u32| regions_map(released).dom().contains(k) implies bases(
            released,
        ).to_set().contains(k) by {
            let i = choose|i: int| 0 <= i < released.len() && released[i].guest_addr == k;
            assert(bases(released)[i] == k);
        }
    }
    bases(calls).unique_seq_to_set();
    bases(released).unique_seq_to_set();
}

impl Mem {
    #[verifier::type_invariant]
    spec fn well_formed(self) -> bool {
        &&& ascending(self.maps@)
        &&& forall|i: int| 0 <= i < self.maps@.len() ==> valid_segment(#[trigger] self.maps@[i].segment)
    }

    /// The regions of the map, each under its guest base address.
    pub closed spec fn view(&self) -> Map<u32, MappedSegment> {
        regions_map(self.maps@)
    }

    /// An empty memory map.
    pub fn new() -> (mem: Mem)
        ensures
            mem@ == Map::<u32, MappedSegment>::empty(),
    {
        let mem = Mem { maps: Vec::new() };
        mem
    }

    /// The number of entries whose base is not above `addr`. They are the
    /// first ones of the list.
    fn count_not_above(&self, addr: u32) -> (n: usize)
        ensures
            n <= self.maps@.len(),
            forall|i: int| 0 <= i < n ==> self.maps@[i].guest_addr <= addr,
            forall|i: int| n <= i < self.maps@.len() ==> self.maps@[i].guest_addr > addr,
    {
        proof {
            use_type_invariant(self);
        }
        let mut lo: usize = 0;
        let mut hi: usize = self.maps.len();
        while lo < hi
            invariant
                lo <= hi <= self.maps@.len(),
                ascending(self.maps@),
                forall|i: int| 0 <= i < lo ==> self.maps@[i].guest_addr <= addr,
                forall|i: int| hi <= i < self.maps@.len() ==> self.maps@[i].guest_addr > addr,
            decreases hi - lo,
        {
            let mid: usize = lo + (hi - lo) / 2;
            if self.maps[mid].guest_addr <= addr {
                lo = mid + 1;
            } else {
                hi = mid;
            }
        }
        lo
    }

    /// Enters a region of `len` bytes at guest address `guest_addr`, backed
    /// by host memory at `host_ptr`. A region that stood under the same
    /// guest address leaves the map.
    pub fn map_region(&mut self, guest_addr: u32, len: u32, host_ptr: usize)
        requires
            valid_segment(MappedSegment { host_ptr, len }),
        ensures
            final(self)@ == old(self)@.insert(guest_addr, MappedSegment { host_ptr, len }),
    {
        proof {
            use_type_invariant(&*self);
        }
        let region = Region { guest_addr, segment: MappedSegment { host_ptr, len } };
        let n = self.count_not_above(guest_addr);
        let ghost before = self.maps@;
        let replaces = n > 0 && self.maps[n - 1].guest_addr == guest_addr;
        // the entries leave the map while the list changes
        let mut maps: Vec<Region> = Vec::new();
        core::mem::swap(&mut self.maps, &mut maps);
        if replaces {
            maps.set(n - 1, region);
            proof {
                let after = maps@;
                assert forall|k: u32| #[trigger]
                    regions_map(after).dom().contains(k) == regions_map(before).insert(
                        guest_addr,
                        region.segment,
                    ).dom().contains(k) by {
                    if regions_map(before).dom().contains(k) {
                        let i = choose|i: int| 0 <= i < before.len() && before[i].guest_addr == k;
                        assert(after[i].guest_addr == k);
                    }
                }
                assert forall|k: u32| #[trigger]
                    regions_map(after).dom().contains(k) implies regions_map(after)[k]
                    == regions_map(before).insert(guest_addr, region.segment)[k] by {
                    let i = choose|i: int| 0 <= i < after.len() && after[i].guest_addr == k;
                    lemma_regions_map_entry(after, i);
                    if k != guest_addr {
                        lemma_regions_map_entry(before, i);
                    }
                }
            }
        } else {
            maps.insert(n, region);
            proof {
                let after = maps@;
                assert(ascending(after));
                assert forall|k: u32| #[trigger]
                    regions_map(after).dom().contains(k) == regions_map(before).insert(
                        guest_addr,
                        region.segment,
                    ).dom().contains(k) by {
                    if regions_map(before).dom().contains(k) {
                        let i = choose|i: int| 0 <= i < before.len() && before[i].guest_addr == k;
                        if i < n {
                            assert(after[i].guest_addr == k);
                        } else {
                            assert(after[i + 1].guest_addr == k);
                        }
                    }
                    if k == guest_addr {
                        assert(after[n as int].guest_addr == k);
                    }
                }
                assert forall|k: u32| #[trigger]
                    regions_map(after).dom().contains(k) implies regions_map(after)[k]
                    == regions_map(before).insert(guest_addr, region.segment)[k] by {
                    let i = choose|i: int| 0 <= i < after.len() && after[i].guest_addr == k;
                    lemma_regions_map_entry(after, i);
                    if i < n {
                        lemma_regions_map_entry(before, i);
                    } else if i > n {
                        lemma_regions_map_entry(before, i - 1);
                    }
                }
            }
        }
        self.maps = maps;
    }

    /// Translates a guest address into the host address that backs it, if
    /// a region holds it.
    ///
    /// ```text
    /// +--guest--+
    /// | 0x80000 | ------------+
    /// +---------+             |
    ///                         |
    ///                     Mem::translate
    ///                         |
    /// +------host------+      |
    /// | 0x7f5b4b8f8000 | <----+
    /// +----------------+
    /// ```
    pub fn translate(&self, guest_addr: u32) -> (host: Option<usize>)
        ensures
            host == translation(self@, guest_addr),
    {
        proof {
            use_type_invariant(self);
        }
        // the greatest base that is not above guest_addr
        let n = self.count_not_above(guest_addr);
        if n == 0 {
            // every base lies above guest_addr
            return None;
        }
        let region = self.maps[n - 1];
        let base = region.guest_addr;
        proof {
            lemma_regions_map_entry(self.maps@, n - 1);
            assert(is_floor(self@, guest_addr, base));
        }
        let offset: u32 = guest_addr - base;
        if offset < region.segment.len {
            Some(region.segment.host_ptr + offset as usize)
        } else {
            None
        }
    }

    /// Takes the map apart: the regions come back for the caller to
    /// release, in ascending order of their guest base, each region of the
    /// map exactly once and nothing else.
    pub fn destroy(self) -> (regions: Vec<Region>)
        ensures
            ascending(regions@),
            regions_map(regions@) == self@,
            forall|i: int|
                0 <= i < regions@.len() ==> self@.contains_pair(
                    #[trigger] regions@[i].guest_addr,
                    regions@[i].segment,
                ),
            forall|k: u32|
                self@.dom().contains(k) ==> exists|i: int|
                    0 <= i < regions@.len() && regions@[i].guest_addr == k,
            forall|i: int| 0 <= i < regions@.len() ==> valid_segment(#[trigger] regions@[i].segment),
    {
        proof {
            use_type_invariant(&self);
            assert forall|i: int| 0 <= i < self.maps@.len() implies self@.contains_pair(
                #[trigger] self.maps@[i].guest_addr,
                self.maps@[i].segment,
            ) by {
                lemma_regions_map_entry(self.maps@, i);
            }
        }
        self.maps
    }
}

} // verus!
