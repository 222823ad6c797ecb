//! The guest allocator: a byte arena with explicit ownership tracking.
//!
//! Regions are handed out by a bump allocator and recorded in a live set.
//! A free is accepted only when it names a live region by its exact
//! (offset, length) pair; anything else is rejected with an explicit error
//! instead of corrupting state. Live regions are pairwise disjoint, so no
//! two owners ever hold overlapping byte ranges.

use vstd::prelude::*;

verus! {

/// A descriptor for a byte range in the arena: offset and length.
#[derive(Clone, Copy, PartialEq, Eq, Structural, Debug)]
pub struct Region {
    pub off: usize,
    pub len: usize,
}

impl Region {
    /// One past the last byte of the region.
    pub open spec fn end(self) -> int {
        self.off + self.len
    }
}

/// Whether two regions share at least one byte.
pub open spec fn overlaps(a: Region, b: Region) -> bool {
    !(a.end() <= b.off || b.end() <= a.off)
}

/// The total length of a sequence of regions.
pub open spec fn sum_lens(rs: Seq<Region>) -> nat
    decreases rs.len(),
{
    if rs.len() == 0 {
        0
    } else {
        (rs[0].len + sum_lens(rs.drop_first())) as nat
    }
}

proof fn lemma_sum_lens_push(rs: Seq<Region>, r: Region)
    ensures
        sum_lens(rs.push(r)) == sum_lens(rs) + r.len,
    decreases rs.len(),
{
    if rs.len() == 0 {
        assert(rs.push(r)[0] == r);
        assert(rs.push(r).drop_first() =~= Seq::<Region>::empty());
        assert(sum_lens(rs.push(r)) == r.len + sum_lens(Seq::<Region>::empty()));
    } else {
        lemma_sum_lens_push(rs.drop_first(), r);
        assert(rs.push(r)[0] == rs[0]);
        assert(rs.push(r).drop_first() =~= rs.drop_first().push(r));
    }
}

proof fn lemma_sum_lens_remove(rs: Seq<Region>, i: int)
    requires
        0 <= i < rs.len(),
    ensures
        sum_lens(rs) == sum_lens(rs.remove(i)) + rs[i].len,
    decreases rs.len(),
{
    if i == 0 {
        assert(rs.remove(0) =~= rs.drop_first());
    } else {
        lemma_sum_lens_remove(rs.drop_first(), i - 1);
        assert(rs.remove(i)[0] == rs[0]);
        assert(rs.remove(i).drop_first() =~= rs.drop_first().remove(i - 1));
    }
}

/// The mathematical state of an arena: its bytes, its live regions, the
/// total it has reclaimed so far, and its fixed capacity.
#[verifier::ext_equal]
pub ghost struct ArenaModel {
    pub bytes: Seq<u8>,
    pub regions: Seq<Region>,
    pub freed: nat,
    pub capacity: nat,
}

/// Replaces `d.len()` bytes of `s` starting at `off`.
pub open spec fn overwrite(s: Seq<u8>, off: int, d: Seq<u8>) -> Seq<u8> {
    s.subrange(0, off) + d + s.subrange(off + d.len(), s.len() as int)
}

impl ArenaModel {
    /// A fresh arena of the given capacity: no bytes used, nothing live.
    pub open spec fn empty(capacity: int) -> ArenaModel {
        ArenaModel { bytes: Seq::empty(), regions: Seq::empty(), freed: 0, capacity: capacity as nat }
    }

    /// Well-formedness: every live region lies inside the used bytes, live
    /// regions are pairwise disjoint, and the accounting stays within bounds.
    pub open spec fn wf(self) -> bool {
        &&& self.bytes.len() <= self.capacity
        &&& self.capacity <= 0xffff_ffff
        &&& forall|i: int|
            0 <= i < self.regions.len() ==> (#[trigger] self.regions[i]).end() <= self.bytes.len()
        &&& forall|i: int, j: int|
            0 <= i < self.regions.len() && 0 <= j < self.regions.len() && i != j ==> !overlaps(
                #[trigger] self.regions[i],
                #[trigger] self.regions[j],
            )
        &&& self.freed + sum_lens(self.regions) == self.bytes.len()
    }

    /// Space that is free or has been reclaimed: the accounting total of the
    /// allocator.
    pub open spec fn reclaimable(self) -> int {
        self.capacity - self.bytes.len() + self.freed
    }

    /// Whether an allocation of `size` bytes fits.
    pub open spec fn can_alloc(self, size: int) -> bool {
        self.bytes.len() + size <= self.capacity
    }

    /// The arena after allocating `size` fresh (zeroed) bytes at the end.
    pub open spec fn reserve(self, size: int) -> ArenaModel {
        ArenaModel {
            bytes: self.bytes + Seq::new(size as nat, |i: int| 0u8),
            regions: self.regions.push(
                Region { off: self.bytes.len() as usize, len: size as usize },
            ),
            freed: self.freed,
            capacity: self.capacity,
        }
    }

    /// The arena after freeing the live region at index `i`.
    pub open spec fn dealloc(self, i: int) -> ArenaModel {
        ArenaModel {
            bytes: self.bytes,
            regions: self.regions.remove(i),
            freed: (self.freed + self.regions[i].len) as nat,
            capacity: self.capacity,
        }
    }

    /// The arena after overwriting bytes starting at `off` with `d`.
    pub open spec fn write_at(self, off: int, d: Seq<u8>) -> ArenaModel {
        ArenaModel {
            bytes: overwrite(self.bytes, off, d),
            regions: self.regions,
            freed: self.freed,
            capacity: self.capacity,
        }
    }

    /// The arena after allocating a fresh region holding exactly `t`.
    pub open spec fn encode_new_model(self, t: Seq<u8>) -> ArenaModel {
        ArenaModel {
            bytes: self.bytes + t,
            regions: self.regions.push(
                Region { off: self.bytes.len() as usize, len: t.len() as usize },
            ),
            freed: self.freed,
            capacity: self.capacity,
        }
    }

    /// Whether the byte range [off, off + len) lies inside one live region.
    pub open spec fn covers(self, off: int, len: int) -> bool {
        exists|i: int|
            0 <= i < self.regions.len() && (#[trigger] self.regions[i]).off <= off && off + len
                <= self.regions[i].end()
    }

    /// Whether `off` falls inside (or at the boundary of) some live region.
    pub open spec fn locates(self, off: int) -> bool {
        exists|i: int|
            0 <= i < self.regions.len() && (#[trigger] self.regions[i]).off <= off && off
                <= self.regions[i].end()
    }

    /// Whether some live region has exactly this offset and length.
    pub open spec fn live_exact(self, off: int, len: int) -> bool {
        exists|i: int|
            0 <= i < self.regions.len() && #[trigger] self.regions[i] == (Region {
                off: off as usize,
                len: len as usize,
            })
    }

    /// Whether some live region starts at this offset.
    pub open spec fn has_off(self, off: int) -> bool {
        exists|i: int| 0 <= i < self.regions.len() && (#[trigger] self.regions[i]).off == off
    }
}

/// The reason a deallocation was refused.
#[derive(Clone, Copy, PartialEq, Eq, Structural, Debug)]
pub enum FreeError {
    /// No live region starts at the given offset.
    InvalidFree,
    /// A live region starts at the given offset, but with another length.
    SizeMismatch,
}

/// The reason an allocation was refused.
#[derive(Clone, Copy, PartialEq, Eq, Structural, Debug)]
pub enum AllocError {
    /// The request exceeds the space the arena has left.
    OutOfSpace,
}

/// A byte arena with a bump allocator and an explicit live-region set.
pub struct Arena {
    bytes: Vec<u8>,
    live: Vec<Region>,
    freed: usize,
    capacity: usize,
}

impl View for Arena {
    type V = ArenaModel;

    closed spec fn view(&self) -> ArenaModel {
        ArenaModel {
            bytes: self.bytes@,
            regions: self.live@,
            freed: self.freed as nat,
            capacity: self.capacity as nat,
        }
    }
}

impl Arena {
    /// Creates an arena that can hand out up to `capacity` bytes.
    pub fn new(capacity: usize) -> (a: Arena)
        requires
            capacity <= 0xffff_ffff,
        ensures
            a@ == ArenaModel::empty(capacity as int),
            a@.wf(),
    {
        let a = Arena { bytes: Vec::new(), live: Vec::new(), freed: 0, capacity };
        proof {
            assert(a@.regions =~= Seq::<Region>::empty());
            assert(a@.bytes =~= Seq::<u8>::empty());
        }
        a
    }

    /// The fixed capacity of the arena.
    pub fn capacity(&self) -> (r: usize)
        ensures
            r == self@.capacity,
    {
        self.capacity
    }

    /// How many bytes the bump allocator has handed out so far.
    pub fn used(&self) -> (r: usize)
        ensures
            r == self@.bytes.len(),
    {
        self.bytes.len()
    }

    /// The accounting total: free space plus reclaimed space.
    pub fn reclaimable(&self) -> (r: usize)
        requires
            self@.wf(),
        ensures
            r == self@.reclaimable(),
    {
        self.capacity - (self.bytes.len() - self.freed)
    }

    /// Reserves `size` bytes and returns the offset of the fresh region.
    /// The caller becomes the owner of the region and must eventually hand
    /// it to `deallocate` with the same (offset, size) pair.
    pub fn allocate(&mut self, size: usize) -> (r: Result<usize, AllocError>)
        requires
            old(self)@.wf(),
        ensures
            final(self)@.wf(),
            (r is Ok) <==> old(self)@.can_alloc(size as int),
            r matches Ok(off) ==> off == old(self)@.bytes.len() && final(self)@ == old(self)@.reserve(size as int),
            r is Err ==> final(self)@ == old(self)@ && r == Err::<usize, AllocError>(
                AllocError::OutOfSpace,
            ),
    {
        if size > self.capacity - self.bytes.len() {
            return Err(AllocError::OutOfSpace);
        }
        let offset = self.bytes.len();
        let ghost m0 = self@;
        let mut k: usize = 0;
        while k < size
            invariant
                k <= size,
                self.bytes@ == m0.bytes + Seq::new(k as nat, |i: int| 0u8),
                self.live@ == m0.regions,
                self.freed == m0.freed,
                self.capacity == m0.capacity,
                m0.bytes.len() + size <= m0.capacity <= 0xffff_ffff,
            decreases size - k,
        {
            self.bytes.push(0);
            proof {
                assert(self.bytes@ =~= m0.bytes + Seq::new((k + 1) as nat, |i: int| 0u8));
            }
            k = k + 1;
        }
        self.live.push(Region { off: offset, len: size });
        proof {
            lemma_sum_lens_push(m0.regions, Region { off: offset, len: size });
            assert(final(self)@ == m0.reserve(size as int));
            assert forall|i: int, j: int|
                0 <= i < self@.regions.len() && 0 <= j < self@.regions.len() && i != j implies !overlaps(
                #[trigger] self@.regions[i],
                #[trigger] self@.regions[j],
            ) by {
                if i < m0.regions.len() && j < m0.regions.len() {
                    assert(!overlaps(m0.regions[i], m0.regions[j]));
                }
            }
        }
        Ok(offset)
    }

    /// Reclaims a region previously returned by `allocate`, named by its
    /// exact (offset, size) pair. A pair that names no live region is
    /// rejected: `SizeMismatch` when a live region starts at the offset but
    /// has another length, `InvalidFree` otherwise.
    pub fn deallocate(&mut self, off: usize, size: usize) -> (r: Result<(), FreeError>)
        requires
            old(self)@.wf(),
        ensures
            final(self)@.wf(),
            (r is Ok) <==> old(self)@.live_exact(off as int, size as int),
            r is Ok ==> exists|i: int|
                0 <= i < old(self)@.regions.len() && old(self)@.regions[i] == (Region {
                    off,
                    len: size,
                }) && final(self)@ == #[trigger] old(self)@.dealloc(i),
            r is Err ==> final(self)@ == old(self)@,
            r == Err::<(), FreeError>(FreeError::SizeMismatch) <==> (!old(self)@.live_exact(
                off as int,
                size as int,
            ) && old(self)@.has_off(off as int)),
            r == Err::<(), FreeError>(FreeError::InvalidFree) <==> !old(self)@.has_off(off as int),
    {
        let ghost m0 = self@;
        let n = self.live.len();
        let mut i: usize = 0;
        let mut found_off = false;
        while i < n
            invariant
                n == self.live.len(),
                i <= n,
                self@ == m0,
                m0 == old(self)@,
                m0.wf(),
                forall|j: int|
                    0 <= j < i ==> !(#[trigger] m0.regions[j] == (Region { off, len: size })),
                found_off <==> exists|j: int|
                    0 <= j < i && (#[trigger] m0.regions[j]).off == off,
            decreases n - i,
        {
            let reg = self.live[i];
            if reg.off == off {
                found_off = true;
                if reg.len == size {
                    proof {
                        assert(m0.regions[i as int] == (Region { off, len: size }));
                        lemma_sum_lens_remove(m0.regions, i as int);
                    }
                    self.live.remove(i);
                    self.freed = self.freed + size;
                    proof {
                        assert(self@ == m0.dealloc(i as int));
                        assert forall|p: int, q: int|
                            0 <= p < self@.regions.len() && 0 <= q < self@.regions.len() && p
                                != q implies !overlaps(
                            #[trigger] self@.regions[p],
                            #[trigger] self@.regions[q],
                        ) by {
                            let p0 = if p < i as int {
                                p
                            } else {
                                p + 1
                            };
                            let q0 = if q < i as int {
                                q
                            } else {
                                q + 1
                            };
                            assert(!overlaps(m0.regions[p0], m0.regions[q0]));
                        }
                        assert forall|p: int|
                            0 <= p < self@.regions.len() implies (#[trigger] self@.regions[p]).end()
                            <= self@.bytes.len() by {
                            let p0 = if p < i as int {
                                p
                            } else {
                                p + 1
                            };
                            assert(m0.regions[p0].end() <= m0.bytes.len());
                        }
                    }
                    return Ok(());
                }
            }
            i = i + 1;
        }
        if found_off {
            Err(FreeError::SizeMismatch)
        } else {
            Err(FreeError::InvalidFree)
        }
    }

    /// Looks for a live region that contains the whole range
    /// [off, off + len).
    pub fn find_cover(&self, off: usize, len: usize) -> (r: Option<Region>)
        ensures
            (r is Some) <==> self@.covers(off as int, len as int),
            r matches Some(reg) ==> reg.off <= off && off + len <= reg.end() && exists|i: int|
                0 <= i < self@.regions.len() && #[trigger] self@.regions[i] == reg,
    {
        let n = self.live.len();
        let mut i: usize = 0;
        while i < n
            invariant
                n == self.live.len(),
                i <= n,
                forall|j: int|
                    0 <= j < i ==> !((#[trigger] self@.regions[j]).off <= off && off + len
                        <= self@.regions[j].end()),
            decreases n - i,
        {
            let reg = self.live[i];
            if reg.off <= off && off - reg.off <= reg.len && len <= reg.len - (off - reg.off) {
                proof {
                    assert(self@.regions[i as int] == reg);
                    assert(reg.off <= off && off + len <= reg.end());
                }
                return Some(reg);
            }
            i = i + 1;
        }
        None
    }

    /// Whether `off` falls inside (or at the boundary of) some live region.
    pub fn locate(&self, off: usize) -> (r: bool)
        ensures
            r == self@.locates(off as int),
    {
        let n = self.live.len();
        let mut i: usize = 0;
        while i < n
            invariant
                n == self.live.len(),
                i <= n,
                forall|j: int|
                    0 <= j < i ==> !((#[trigger] self@.regions[j]).off <= off && off
                        <= self@.regions[j].end()),
            decreases n - i,
        {
            let reg = self.live[i];
            if reg.off <= off && off - reg.off <= reg.len {
                proof {
                    assert(self@.regions[i as int] == reg);
                    assert(reg.off <= off && off <= reg.end());
                }
                return true;
            }
            i = i + 1;
        }
        false
    }

    /// Copies `len` bytes starting at `off` out of the arena.
    pub fn read_range(&self, off: usize, len: usize) -> (r: Vec<u8>)
        requires
            off + len <= self@.bytes.len(),
        ensures
            r@ == self@.bytes.subrange(off as int, off + len),
    {
        let total = self.bytes.len();
        let mut out: Vec<u8> = Vec::new();
        let mut k: usize = 0;
        while k < len
            invariant
                k <= len,
                total == self@.bytes.len(),
                off + len <= total,
                out@ == self@.bytes.subrange(off as int, off + k),
            decreases len - k,
        {
            out.push(self.bytes[off + k]);
            proof {
                assert(out@ =~= self@.bytes.subrange(off as int, off + k + 1));
            }
            k = k + 1;
        }
        out
    }

    /// Overwrites the bytes starting at `off` with `data`. Regions and
    /// accounting are untouched.
    pub fn write_range(&mut self, off: usize, data: &[u8]) -> (r: usize)
        requires
            old(self)@.wf(),
            off + data@.len() <= old(self)@.bytes.len(),
        ensures
            final(self)@.wf(),
            final(self)@ == old(self)@.write_at(off as int, data@),
            r == data@.len(),
    {
        let ghost m0 = self@;
        let total = self.bytes.len();
        let len = data.len();
        let mut k: usize = 0;
        while k < len
            invariant
                k <= len,
                len == data@.len(),
                total == m0.bytes.len(),
                off + len <= total,
                self.live@ == m0.regions,
                self.freed == m0.freed,
                self.capacity == m0.capacity,
                self.bytes@ == overwrite(m0.bytes, off as int, data@.subrange(0, k as int)),
            decreases len - k,
        {
            proof {
                assert(overwrite(m0.bytes, off as int, data@.subrange(0, k as int)).len()
                    == m0.bytes.len());
            }
            self.bytes.set(off + k, data[k]);
            proof {
                assert(self.bytes@ =~= overwrite(m0.bytes, off as int, data@.subrange(0, k + 1)));
            }
            k = k + 1;
        }
        proof {
            assert(data@.subrange(0, len as int) =~= data@);
            assert(final(self)@ == m0.write_at(off as int, data@));
            assert(sum_lens(self@.regions) == sum_lens(m0.regions));
        }
        len
    }
}

/// Allocator accounting: allocating a region and then freeing it with the
/// matching (offset, size) pair restores the reclaimable-space total.
pub proof fn lemma_allocator_accounting(m: ArenaModel, size: int)
    requires
        m.wf(),
        m.can_alloc(size),
        size >= 0,
    ensures
        ({
            let m1 = m.reserve(size);
            let m2 = m1.dealloc(m1.regions.len() - 1);
            &&& m1.regions.last() == (Region { off: m.bytes.len() as usize, len: size as usize })
            &&& m1.reclaimable() == m.reclaimable() - size
            &&& m2.reclaimable() == m.reclaimable()
        }),
{
}

/// Each free of a live region gives its size back to the accounting total,
/// and each allocation takes exactly its size away.
pub proof fn lemma_accounting_steps(m: ArenaModel, size: int, i: int)
    requires
        m.wf(),
        m.can_alloc(size),
        size >= 0,
        0 <= i < m.regions.len(),
    ensures
        m.reserve(size).reclaimable() == m.reclaimable() - size,
        m.dealloc(i).reclaimable() == m.reclaimable() + m.regions[i].len,
{
}

/// Allocator accounting, for whole call sequences: the reclaimable total is
/// determined by the arena's capacity and its live regions alone. A sequence
/// of allocate and deallocate calls whose (offset, size) pairs match leaves
/// the same total length of live regions it found, so the total returns to
/// its pre-sequence value.
pub proof fn lemma_accounting_from_live_set(m1: ArenaModel, m2: ArenaModel)
    requires
        m1.wf(),
        m2.wf(),
        m1.capacity == m2.capacity,
        sum_lens(m1.regions) == sum_lens(m2.regions),
    ensures
        m1.reclaimable() == m2.reclaimable(),
{
}

/// Transfer exclusivity: the fresh region that an encode hands out overlaps
/// no previously live region until it is deallocated.
pub proof fn lemma_transfer_exclusivity(m: ArenaModel, t: Seq<u8>, i: int)
    requires
        m.wf(),
        m.can_alloc(t.len() as int),
        0 <= i < m.regions.len(),
    ensures
        !overlaps(m.encode_new_model(t).regions.last(), m.encode_new_model(t).regions[i]),
{
    assert(m.regions[i].end() <= m.bytes.len());
}

} // verus!
