//! A fixed-capacity bump arena that never reclaims.
use vstd::arithmetic::div_mod::{lemma_add_mod_noop, lemma_fundamental_div_mod, lemma_mod_multiples_vanish};
use vstd::prelude::*;

verus! {

/// Capacity of the kernel heap in bytes.
pub const HEAP_SIZE: usize = 102400;

/// `offset` rounded up to the next multiple of `align`.
pub open spec fn round_up(offset: int, align: int) -> int {
    if offset % align == 0 {
        offset
    } else {
        offset + (align - offset % align)
    }
}

/// Outcome of one request against an arena whose next free offset is `offset`:
/// the granted offset, or `None` when the request does not fit.
pub open spec fn grant(offset: int, capacity: int, size: int, align: int) -> Option<int> {
    if round_up(offset, align) + size <= capacity {
        Some(round_up(offset, align))
    } else {
        None
    }
}

/// Next free offset after a request.
pub open spec fn next_offset(offset: int, capacity: int, size: int, align: int) -> int {
    match grant(offset, capacity, size, align) {
        Some(a) => a + size,
        None => offset,
    }
}

/// Offsets granted, one per request, to a sequence of `(size, align)` requests
/// made in order against an arena whose next free offset is `offset`.
pub open spec fn grants(offset: int, capacity: int, reqs: Seq<(int, int)>) -> Seq<Option<int>>
    decreases reqs.len(),
{
    if reqs.len() == 0 {
        Seq::empty()
    } else {
        seq![grant(offset, capacity, reqs[0].0, reqs[0].1)] + grants(
            next_offset(offset, capacity, reqs[0].0, reqs[0].1),
            capacity,
            reqs.drop_first(),
        )
    }
}

/// Rounding up lands on a multiple of the alignment, at or above the offset.
pub proof fn lemma_round_up(offset: int, align: int)
    requires
        offset >= 0,
        align > 0,
    ensures
        round_up(offset, align) % align == 0,
        offset <= round_up(offset, align) < offset + align,
{
    lemma_fundamental_div_mod(offset, align);
    if offset % align != 0 {
        lemma_mod_multiples_vanish(offset / align + 1, 0, align);
        assert(round_up(offset, align) == align * (offset / align + 1) + 0) by (nonlinear_arith)
            requires
                offset == align * (offset / align) + offset % align,
                round_up(offset, align) == offset + (align - offset % align),
        ;
    }
}

/// For any run of requests against an arena: every granted span is aligned
/// (as an offset, and as an address when the base is aligned), lies inside the
/// arena, and starts at or after the end of every span granted before it, so
/// spans never overlap and their addresses only grow.
pub proof fn lemma_grants_disjoint(base: int, offset: int, capacity: int, reqs: Seq<(int, int)>)
    requires
        0 <= offset <= capacity,
        forall|k: int| 0 <= k < reqs.len() ==> reqs[k].0 >= 0 && reqs[k].1 > 0,
    ensures
        grants(offset, capacity, reqs).len() == reqs.len(),
        forall|i: int|
            0 <= i < reqs.len() && #[trigger] grants(offset, capacity, reqs)[i] is Some ==> {
                let a = grants(offset, capacity, reqs)[i]->0;
                &&& a % reqs[i].1 == 0
                &&& base % reqs[i].1 == 0 ==> (base + a) % reqs[i].1 == 0
                &&& offset <= a
                &&& a + reqs[i].0 <= capacity
            },
        forall|i: int, j: int|
            0 <= i < j < reqs.len() && #[trigger] grants(offset, capacity, reqs)[i] is Some
                && #[trigger] grants(offset, capacity, reqs)[j] is Some ==> grants(
                offset,
                capacity,
                reqs,
            )[i]->0 + reqs[i].0 <= grants(offset, capacity, reqs)[j]->0,
    decreases reqs.len(),
{
    if reqs.len() > 0 {
        let (size, align) = reqs[0];
        let next = next_offset(offset, capacity, size, align);
        let rest = reqs.drop_first();
        lemma_round_up(offset, align);
        lemma_grants_disjoint(base, next, capacity, rest);
        let g = grants(offset, capacity, reqs);
        let t = grants(next, capacity, rest);
        assert(forall|k: int| 0 < k < reqs.len() ==> g[k] == t[k - 1]);
        assert forall|i: int| 0 <= i < reqs.len() && #[trigger] g[i] is Some implies {
            let a = g[i]->0;
            &&& a % reqs[i].1 == 0
            &&& base % reqs[i].1 == 0 ==> (base + a) % reqs[i].1 == 0
            &&& offset <= a
            &&& a + reqs[i].0 <= capacity
        } by {
            let a = g[i]->0;
            if i > 0 {
                assert(t[i - 1] is Some);
                assert(rest[i - 1] == reqs[i]);
                assert(next >= offset);
            } else {
                assert(g[0] == grant(offset, capacity, size, align));
            }
            assert(a % reqs[i].1 == 0);
            if base % reqs[i].1 == 0 {
                let m = reqs[i].1;
                lemma_add_mod_noop(base, a, m);
                assert(0int % m == 0) by (nonlinear_arith)
                    requires
                        m > 0,
                ;
                assert((base + a) % m == 0);
            }
        }
        assert forall|i: int, j: int|
            0 <= i < j < reqs.len() && #[trigger] g[i] is Some && #[trigger] g[j] is Some implies g[i]->0
            + reqs[i].0 <= g[j]->0 by {
            assert(t[j - 1] is Some);
            assert(rest[j - 1] == reqs[j]);
            if i > 0 {
                assert(t[i - 1] is Some);
                assert(rest[i - 1] == reqs[i]);
            }
        }
    }
}

/// A request that does not fit leaves the arena as it was: the requests after
/// it are served exactly as if it had never been made.
pub proof fn lemma_failed_request_harmless(
    offset: int,
    capacity: int,
    size: int,
    align: int,
    rest: Seq<(int, int)>,
)
    requires
        grant(offset, capacity, size, align) is None,
    ensures
        next_offset(offset, capacity, size, align) == offset,
        grants(offset, capacity, seq![(size, align)] + rest) == seq![None::<int>] + grants(
            offset,
            capacity,
            rest,
        ),
{
    let reqs = seq![(size, align)] + rest;
    assert(reqs.drop_first() =~= rest);
    assert(reqs[0] == (size, align));
}

/// The allocator's error: the request does not fit in what is left.
#[derive(Debug, Clone, Copy, PartialEq, Eq, Structural)]
pub enum AllocError {
    OutOfMemory,
}

/// Bump allocator over the region `[base, base + capacity)`: each request is
/// served at the next suitably aligned offset, and nothing is ever reclaimed.
pub struct BumpAllocator {
    base: usize,
    capacity: usize,
    offset: usize,
}

impl BumpAllocator {
    pub closed spec fn base_spec(&self) -> int {
        self.base as int
    }

    pub closed spec fn capacity_spec(&self) -> int {
        self.capacity as int
    }

    pub closed spec fn offset_spec(&self) -> int {
        self.offset as int
    }

    pub open spec fn wf(&self) -> bool {
        &&& 0 <= self.base_spec()
        &&& 0 <= self.offset_spec() <= self.capacity_spec()
        &&& self.base_spec() + self.capacity_spec() <= usize::MAX
    }

    /// An empty arena over `capacity` bytes starting at address `base`.
    pub fn new(base: usize, capacity: usize) -> (r: Self)
        requires
            base + capacity <= usize::MAX,
        ensures
            r.wf(),
            r.base_spec() == base,
            r.capacity_spec() == capacity,
            r.offset_spec() == 0,
    {
        BumpAllocator { base, capacity, offset: 0 }
    }

    pub fn base(&self) -> (r: usize)
        ensures
            r == self.base_spec(),
    {
        self.base
    }

    pub fn capacity(&self) -> (r: usize)
        ensures
            r == self.capacity_spec(),
    {
        self.capacity
    }

    /// Bytes handed out so far, alignment padding included.
    pub fn offset(&self) -> (r: usize)
        ensures
            r == self.offset_spec(),
    {
        self.offset
    }

    /// Grants `size` bytes aligned to `align` (relative to the base), or
    /// fails without touching the arena.
    pub fn allocate(&mut self, size: usize, align: usize) -> (r: Result<usize, AllocError>)
        requires
            old(self).wf(),
            align > 0,
        ensures
            final(self).wf(),
            final(self).base_spec() == old(self).base_spec(),
            final(self).capacity_spec() == old(self).capacity_spec(),
            final(self).offset_spec() == next_offset(
                old(self).offset_spec(),
                old(self).capacity_spec(),
                size as int,
                align as int,
            ),
            match grant(old(self).offset_spec(), old(self).capacity_spec(), size as int, align as int) {
                Some(a) => r == Ok::<usize, AllocError>((old(self).base_spec() + a) as usize),
                None => r == Err::<usize, AllocError>(AllocError::OutOfMemory),
            },
    {
        let rem = self.offset % align;
        let pad: usize = if rem == 0 { 0 } else { align - rem };
        let room = self.capacity - self.offset;
        if pad > room || size > room - pad {
            return Err(AllocError::OutOfMemory);
        }
        let aligned = self.offset + pad;
        self.offset = aligned + size;
        Ok(self.base + aligned)
    }

    /// Releasing memory is a no-op: the arena never reclaims.
    pub fn deallocate(&mut self, address: usize)
        ensures
            *final(self) == *old(self),
    {
    }
}

/// The kernel heap: an empty arena of `HEAP_SIZE` bytes at `base`.
pub fn init_heap(base: usize) -> (r: BumpAllocator)
    requires
        base + HEAP_SIZE <= usize::MAX,
    ensures
        r.wf(),
        r.base_spec() == base,
        r.capacity_spec() == HEAP_SIZE,
        r.offset_spec() == 0,
{
    BumpAllocator::new(base, HEAP_SIZE)
}

} // verus!
