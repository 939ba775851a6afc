//! The arena: chunk-chain growth, the allocation entry point, and
//! teardown.
//!
//! The arena owns the chain of chunk footers through its `current` field
//! and models the two collaborators the core needs from its surroundings:
//! the system allocator, as an address space handed out low-to-high
//! (`next_block_addr`), and a leak-detecting ledger of outstanding blocks
//! (`outstanding_blocks` / `outstanding_bytes`).  A ghost history of every
//! granted range carries the proof that no two allocations ever overlap.

use vstd::prelude::*;
use crate::align::{is_pow2, is_power_of_two, round_down, round_up};
use crate::align::{lemma_pow2_pos, lemma_round_down_props, lemma_round_up_props};
use crate::chunkfooter::{ChunkFooter, ChunkData, FOOTER_SIZE};
use crate::chunkfooter::{lemma_allocated_bytes_le_block_end, lemma_chunk_count_le_allocated_bytes};

verus! {

/// Usable capacity a chunk gets when the growth policy has nothing to go
/// by (first growth of an arena built with [`Bump::new`]).
pub const DEFAULT_CHUNK_CAPACITY: usize = 512;

/// Upper bound the doubling policy saturates at; a single oversized
/// request may still exceed it, since such a request gets a chunk large
/// enough to satisfy it directly.
pub const MAX_CHUNK_USABLE: usize = 1073741824;

/// Where the modeled address space for chunk blocks begins: just past
/// the sentinel's own footer.
pub const INITIAL_BLOCK_ADDRESS: usize = 128;

/// Why an allocation attempt failed.  Chunk exhaustion is not here: it is
/// an internal signal, always resolved by growing before returning.
#[derive(Clone, Copy, Debug, PartialEq, Eq, Structural)]
pub enum AllocError {
    /// Caller error: a non-power-of-two alignment, or a size so large the
    /// address arithmetic for a chunk holding it would overflow.
    InvalidArgument,
    /// The system allocator could not supply memory for a new chunk.
    ReservationFailed,
}

/// The request is one `allocate` accepts: the alignment is a power of
/// two and a block holding the request fits in address arithmetic.
pub open spec fn valid_request(size: usize, align: usize) -> bool {
    &&& is_pow2(align as nat)
    &&& size + align + FOOTER_SIZE <= usize::MAX
}

/// Byte ranges `(start, length)` that share no byte.
pub open spec fn range_disjoint(a: (usize, usize), b: (usize, usize)) -> bool {
    ||| a.1 == 0
    ||| b.1 == 0
    ||| a.0 + a.1 <= b.0
    ||| b.0 + b.1 <= a.0
}

/// No two ranges in the sequence share a byte.
pub open spec fn all_disjoint(s: Seq<(usize, usize)>) -> bool {
    forall|i: int, j: int| 0 <= i < j < s.len() ==> #[trigger] range_disjoint(s[i], s[j])
}

/// A concurrent bump arena: hands out aligned byte ranges from the
/// current chunk's frontier, grows the chunk chain when the current
/// chunk is exhausted, and releases every block at teardown.
pub struct Bump {
    /// Footer of the most recently created chunk; the sentinel until the
    /// arena first grows.
    pub current: ChunkFooter,
    /// Smallest usable capacity the growth policy will reserve.
    pub min_chunk_usable: usize,
    /// The modeled system allocator: blocks are carved off the address
    /// space from here upward, so distinct blocks never overlap.
    pub next_block_addr: usize,
    /// Leak ledger: blocks reserved and not yet released.
    pub outstanding_blocks: usize,
    /// Leak ledger: bytes reserved and not yet released.
    pub outstanding_bytes: usize,
    /// Every range handed out since the last reset, in grant order.
    pub granted: Ghost<Seq<(usize, usize)>>,
}

impl Bump {
    /// The range was handed out of a region that can never be granted
    /// again: below the current chunk's usable region, or inside its
    /// already-allocated part `[top, footer_address)`.
    pub open spec fn grant_placed(self, g: (usize, usize)) -> bool {
        ||| g.1 == 0
        ||| g.0 + g.1 <= self.current.bottom_spec()
        ||| (self.current.top_spec() <= g.0
            && g.0 + g.1 <= self.current.footer_address_spec())
    }

    /// Arena invariant: the chain is well formed, the ledger agrees with
    /// the chain, every block lies below the address-space frontier, and
    /// the granted ranges are pairwise disjoint and placed where no
    /// future grant can reach them.
    pub open spec fn wf(self) -> bool {
        &&& self.current.wf()
        &&& 1 <= self.min_chunk_usable <= MAX_CHUNK_USABLE
        &&& INITIAL_BLOCK_ADDRESS <= self.next_block_addr
        &&& self.current.block_end_spec() <= self.next_block_addr
        &&& self.outstanding_bytes == self.current.allocated_bytes_spec()
        &&& self.outstanding_blocks == self.current.chunk_count_spec()
        &&& all_disjoint(self.granted@)
        &&& forall|k: int|
            0 <= k < self.granted@.len() ==> self.grant_placed(#[trigger] self.granted@[k])
    }

    /// Usable capacity the next chunk gets: the cumulative chain size
    /// doubled, saturated at [`MAX_CHUNK_USABLE`], never below the
    /// configured minimum, and never below what the triggering request
    /// needs (`size + align` leaves room to round the frontier down).
    pub open spec fn growth_usable_spec(self, size: int, align: int) -> int {
        let doubled = if 2 * self.current.allocated_bytes_spec() > MAX_CHUNK_USABLE {
            MAX_CHUNK_USABLE as int
        } else {
            2 * self.current.allocated_bytes_spec()
        };
        let base = if doubled > self.min_chunk_usable {
            doubled
        } else {
            self.min_chunk_usable as int
        };
        if size + align > base {
            size + align
        } else {
            base
        }
    }

    /// Where the next block's usable region would start.
    pub open spec fn growth_bottom_spec(self, align: int) -> int {
        round_up(self.next_block_addr as int, align)
    }

    /// The modeled system allocator can reserve the next chunk's block.
    pub open spec fn can_reserve(self, size: int, align: int) -> bool {
        self.growth_bottom_spec(align) + self.growth_usable_spec(size, align) + FOOTER_SIZE
            <= usize::MAX
    }

    /// An arena with the default minimum chunk capacity.  No chunk exists
    /// until the first allocation.
    pub fn new() -> (b: Bump)
        ensures
            b.wf(),
            b.current == ChunkFooter::sentinel(),
            b.min_chunk_usable == DEFAULT_CHUNK_CAPACITY,
            b.next_block_addr == INITIAL_BLOCK_ADDRESS,
            b.outstanding_blocks == 0,
            b.outstanding_bytes == 0,
            b.granted@ == Seq::<(usize, usize)>::empty(),
    {
        Bump {
            current: ChunkFooter { chunk: None },
            min_chunk_usable: DEFAULT_CHUNK_CAPACITY,
            next_block_addr: INITIAL_BLOCK_ADDRESS,
            outstanding_blocks: 0,
            outstanding_bytes: 0,
            granted: Ghost(Seq::empty()),
        }
    }

    /// An arena whose first chunk will have exactly `min_usable` usable
    /// bytes (unless a larger request forces more).
    pub fn with_capacity(min_usable: usize) -> (b: Bump)
        requires
            1 <= min_usable <= MAX_CHUNK_USABLE,
        ensures
            b.wf(),
            b.current == ChunkFooter::sentinel(),
            b.min_chunk_usable == min_usable,
            b.next_block_addr == INITIAL_BLOCK_ADDRESS,
            b.outstanding_blocks == 0,
            b.outstanding_bytes == 0,
            b.granted@ == Seq::<(usize, usize)>::empty(),
    {
        Bump {
            current: ChunkFooter { chunk: None },
            min_chunk_usable: min_usable,
            next_block_addr: INITIAL_BLOCK_ADDRESS,
            outstanding_blocks: 0,
            outstanding_bytes: 0,
            granted: Ghost(Seq::empty()),
        }
    }

    /// Allocates `size` bytes at alignment `align`.
    ///
    /// Exactly one of four things happens, and the contract says which:
    /// an invalid request is rejected eagerly; a zero-sized request is
    /// satisfied by an aligned address without touching any chunk; a
    /// request the current chunk fits is carved off its frontier; and
    /// otherwise the arena grows once and carves the request off the new
    /// chunk, unless the modeled system allocator cannot supply the
    /// block, which fails the request and leaves the arena untouched.
    pub fn allocate(&mut self, size: usize, align: usize) -> (r: Result<usize, AllocError>)
        requires
            old(self).wf(),
        ensures
            final(self).wf(),
            final(self).min_chunk_usable == old(self).min_chunk_usable,
            // caller errors: rejected eagerly, nothing changes
            !valid_request(size, align) ==> r == Err::<usize, AllocError>(
                AllocError::InvalidArgument,
            ) && *final(self) == *old(self),
            // zero-sized requests: an aligned address, frontier untouched
            valid_request(size, align) && size == 0 ==> r == Ok::<usize, AllocError>(align)
                && *final(self) == *old(self),
            // fast path: the current chunk satisfies the request
            valid_request(size, align) && size >= 1 && old(self).current.fits(
                size as int,
                align as int,
            ) ==> ({
                let p = old(self).current.bump_candidate(size as int, align as int);
                &&& r is Ok
                &&& r->Ok_0 == p
                &&& final(self).current.top_spec() == p
                &&& final(self).current.bottom_spec() == old(self).current.bottom_spec()
                &&& final(self).current.footer_address_spec() == old(
                    self,
                ).current.footer_address_spec()
                &&& final(self).current.layout_size_spec() == old(self).current.layout_size_spec()
                &&& final(self).current.layout_align_spec() == old(self).current.layout_align_spec()
                &&& final(self).current.allocated_bytes_spec() == old(
                    self,
                ).current.allocated_bytes_spec()
                &&& final(self).current.prev_spec() == old(self).current.prev_spec()
                &&& final(self).current.chunk_count_spec() == old(self).current.chunk_count_spec()
                &&& final(self).next_block_addr == old(self).next_block_addr
                &&& final(self).outstanding_blocks == old(self).outstanding_blocks
                &&& final(self).outstanding_bytes == old(self).outstanding_bytes
            }),
            // growth path: the current chunk is exhausted (or the sentinel)
            valid_request(size, align) && size >= 1 && !old(self).current.fits(
                size as int,
                align as int,
            ) && old(self).can_reserve(size as int, align as int) ==> ({
                let ub = old(self).growth_usable_spec(size as int, align as int);
                let bt = old(self).growth_bottom_spec(align as int);
                let p = round_down(bt + ub - size, align as int);
                &&& r is Ok
                &&& r->Ok_0 == p
                &&& !final(self).current.is_sentinel()
                &&& final(self).current.bottom_spec() == bt
                &&& final(self).current.layout_size_spec() == ub + FOOTER_SIZE
                &&& final(self).current.layout_align_spec() == align
                &&& final(self).current.footer_address_spec() == bt + ub
                &&& final(self).current.top_spec() == p
                &&& final(self).current.allocated_bytes_spec() == ub + FOOTER_SIZE + old(
                    self,
                ).current.allocated_bytes_spec()
                &&& final(self).current.prev_spec() == old(self).current
                &&& final(self).current.chunk_count_spec() == old(self).current.chunk_count_spec()
                    + 1
                &&& final(self).next_block_addr == bt + ub + FOOTER_SIZE
                &&& final(self).outstanding_blocks == old(self).outstanding_blocks + 1
                &&& final(self).outstanding_bytes == old(self).outstanding_bytes + ub + FOOTER_SIZE
            }),
            // reservation failure: reported, the chain uncorrupted
            valid_request(size, align) && size >= 1 && !old(self).current.fits(
                size as int,
                align as int,
            ) && !old(self).can_reserve(size as int, align as int) ==> r == Err::<
                usize,
                AllocError,
            >(AllocError::ReservationFailed) && *final(self) == *old(self),
            // success is owed exactly when the request is well formed and
            // either costs nothing, fits the current chunk, or a block
            // for it can still be reserved
            r is Ok <==> valid_request(size, align) && (size == 0 || old(self).current.fits(
                size as int,
                align as int,
            ) || old(self).can_reserve(size as int, align as int)),
            // every returned address honors the requested alignment
            r is Ok ==> r->Ok_0 as int % align as int == 0,
            // every nonempty grant is recorded; nothing else ever is
            r is Ok && size >= 1 ==> final(self).granted@ == old(self).granted@.push(
                (r->Ok_0, size),
            ),
            !(r is Ok && size >= 1) ==> final(self).granted@ == old(self).granted@,
    {
        if !is_power_of_two(align) {
            return Err(AllocError::InvalidArgument);
        }
        proof {
            lemma_pow2_pos(align as nat);
        }
        if align > usize::MAX - FOOTER_SIZE || size > usize::MAX - FOOTER_SIZE - align {
            return Err(AllocError::InvalidArgument);
        }
        if size == 0 {
            // satisfied trivially: any aligned address, typically dangling
            proof {
                assert(align as int % align as int == 0) by (nonlinear_arith)
                    requires
                        align >= 1,
                ;
            }
            return Ok(align);
        }
        let attempt = self.current.try_bump(size, align);
        match attempt {
            Some(p) => {
                self.granted = Ghost(self.granted@.push((p, size)));
                proof {
                    self.lemma_record_grant(*old(self), p, size);
                }
                Ok(p)
            },
            None => self.grow_then_bump(size, align),
        }
    }

    /// After a successful bump from the current chunk moved the frontier
    /// from above `p + size` down to `p`, recording `(p, size)` keeps the
    /// history disjoint and placed.
    proof fn lemma_record_grant(self, prior: Bump, p: usize, size: usize)
        requires
            prior.wf(),
            size >= 1,
            self.granted@ == prior.granted@.push((p, size)),
            self.current.bottom_spec() == prior.current.bottom_spec(),
            self.current.footer_address_spec() == prior.current.footer_address_spec(),
            self.current.top_spec() == p,
            prior.current.bottom_spec() <= p,
            p + size <= prior.current.top_spec(),
        ensures
            all_disjoint(self.granted@),
            forall|k: int|
                0 <= k < self.granted@.len() ==> self.grant_placed(#[trigger] self.granted@[k]),
    {
        let olds = prior.granted@;
        let g = (p, size);
        assert forall|k: int| 0 <= k < olds.len() implies range_disjoint(olds[k], g) by {
            assert(prior.grant_placed(olds[k]));
        }
        assert forall|i: int, j: int| 0 <= i < j < self.granted@.len() implies #[trigger]
        range_disjoint(self.granted@[i], self.granted@[j]) by {
            if j < olds.len() {
                assert(range_disjoint(olds[i], olds[j]));
            } else {
                assert(self.granted@[j] == g);
                assert(range_disjoint(olds[i], g));
            }
        }
        assert forall|k: int| 0 <= k < self.granted@.len() implies self.grant_placed(
            #[trigger] self.granted@[k],
        ) by {
            if k < olds.len() {
                assert(prior.grant_placed(olds[k]));
            }
        }
    }

    /// The slow path of `allocate`: the current chunk was observed
    /// exhausted.  Reserves a block sized by the growth policy, links a
    /// new chunk whose `prev` is the replaced footer, publishes it as
    /// current, and carves the request off it; the new chunk is sized so
    /// this bump cannot fail.
    fn grow_then_bump(&mut self, size: usize, align: usize) -> (r: Result<usize, AllocError>)
        requires
            old(self).wf(),
            valid_request(size, align),
            1 <= size,
            !old(self).current.fits(size as int, align as int),
        ensures
            final(self).wf(),
            final(self).min_chunk_usable == old(self).min_chunk_usable,
            !old(self).can_reserve(size as int, align as int) ==> r == Err::<usize, AllocError>(
                AllocError::ReservationFailed,
            ) && *final(self) == *old(self),
            old(self).can_reserve(size as int, align as int) ==> ({
                let ub = old(self).growth_usable_spec(size as int, align as int);
                let bt = old(self).growth_bottom_spec(align as int);
                let p = round_down(bt + ub - size, align as int);
                &&& r is Ok
                &&& r->Ok_0 == p
                &&& p as int % align as int == 0
                &&& !final(self).current.is_sentinel()
                &&& final(self).current.bottom_spec() == bt
                &&& final(self).current.layout_size_spec() == ub + FOOTER_SIZE
                &&& final(self).current.layout_align_spec() == align
                &&& final(self).current.footer_address_spec() == bt + ub
                &&& final(self).current.top_spec() == p
                &&& final(self).current.allocated_bytes_spec() == ub + FOOTER_SIZE + old(
                    self,
                ).current.allocated_bytes_spec()
                &&& final(self).current.prev_spec() == old(self).current
                &&& final(self).current.chunk_count_spec() == old(self).current.chunk_count_spec()
                    + 1
                &&& final(self).next_block_addr == bt + ub + FOOTER_SIZE
                &&& final(self).outstanding_blocks == old(self).outstanding_blocks + 1
                &&& final(self).outstanding_bytes == old(self).outstanding_bytes + ub + FOOTER_SIZE
                &&& final(self).granted@ == old(self).granted@.push((p as usize, size))
            }),
    {
        proof {
            lemma_pow2_pos(align as nat);
            lemma_allocated_bytes_le_block_end(old(self).current);
            lemma_chunk_count_le_allocated_bytes(old(self).current);
        }
        // growth policy: derive the new usable capacity
        let prev_alloc = self.current.allocated_bytes();
        let doubled: usize = if prev_alloc > MAX_CHUNK_USABLE / 2 {
            MAX_CHUNK_USABLE
        } else {
            prev_alloc * 2
        };
        let base: usize = if doubled > self.min_chunk_usable {
            doubled
        } else {
            self.min_chunk_usable
        };
        let needed: usize = size + align;
        let usable: usize = if needed > base {
            needed
        } else {
            base
        };
        // reserve the raw block from the modeled address space
        let na = self.next_block_addr;
        let rem: usize = na % align;
        let pad: usize = if rem == 0 {
            0
        } else {
            align - rem
        };
        proof {
            lemma_round_up_props(na as int, align as int);
            assert(na + pad == round_up(na as int, align as int));
        }
        if na > usize::MAX - pad {
            return Err(AllocError::ReservationFailed);
        }
        let bottom: usize = na + pad;
        let block: usize = usable + FOOTER_SIZE;
        if bottom > usize::MAX - block {
            return Err(AllocError::ReservationFailed);
        }
        let footer_addr: usize = bottom + usable;
        // link the new footer in front of the replaced one and publish it
        let taken = self.current.chunk.take();
        let prev_footer = ChunkFooter { chunk: taken };
        let total: usize = block + prev_alloc;
        let data = ChunkData {
            bottom,
            layout_size: block,
            layout_align: align,
            top: footer_addr,
            allocated_bytes: total,
            prev: prev_footer,
        };
        self.current = ChunkFooter { chunk: Some(Box::new(data)) };
        self.next_block_addr = bottom + block;
        self.outstanding_blocks = self.outstanding_blocks + 1;
        self.outstanding_bytes = self.outstanding_bytes + block;
        proof {
            lemma_round_down_props(footer_addr - size, align as int);
            assert(self.current.fits(size as int, align as int));
        }
        // the request that triggered growth is satisfied from the new chunk
        let attempt = self.current.try_bump(size, align);
        match attempt {
            Some(p) => {
                self.granted = Ghost(self.granted@.push((p, size)));
                proof {
                    self.lemma_record_grown_grant(*old(self), p, size);
                }
                Ok(p)
            },
            None => {
                proof {
                    assert(false);
                }
                Err(AllocError::ReservationFailed)
            },
        }
    }

    /// Recording the first grant from a freshly published chunk keeps the
    /// history disjoint and placed: every earlier grant lies below the
    /// new chunk's `bottom`.
    proof fn lemma_record_grown_grant(self, prior: Bump, p: usize, size: usize)
        requires
            prior.wf(),
            size >= 1,
            self.granted@ == prior.granted@.push((p, size)),
            prior.current.footer_address_spec() <= prior.current.block_end_spec(),
            prior.current.block_end_spec() <= self.current.bottom_spec(),
            self.current.bottom_spec() <= p,
            self.current.top_spec() == p,
            p + size <= self.current.footer_address_spec(),
        ensures
            all_disjoint(self.granted@),
            forall|k: int|
                0 <= k < self.granted@.len() ==> self.grant_placed(#[trigger] self.granted@[k]),
    {
        let olds = prior.granted@;
        let g = (p, size);
        assert forall|k: int| 0 <= k < olds.len() implies (olds[k].1 == 0 || olds[k].0 + olds[k].1
            <= self.current.bottom_spec()) by {
            assert(prior.grant_placed(olds[k]));
        }
        assert forall|i: int, j: int| 0 <= i < j < self.granted@.len() implies #[trigger]
        range_disjoint(self.granted@[i], self.granted@[j]) by {
            if j < olds.len() {
                assert(range_disjoint(olds[i], olds[j]));
            } else {
                assert(self.granted@[j] == g);
                assert(olds[i].1 == 0 || olds[i].0 + olds[i].1 <= self.current.bottom_spec());
            }
        }
        assert forall|k: int| 0 <= k < self.granted@.len() implies self.grant_placed(
            #[trigger] self.granted@[k],
        ) by {
            if k < olds.len() {
                assert(olds[k].1 == 0 || olds[k].0 + olds[k].1 <= self.current.bottom_spec());
            }
        }
    }

    /// Releases every chunk the arena owns, exactly once each, newest
    /// first, stopping at the sentinel; afterwards the leak ledger shows
    /// nothing outstanding and the arena is back in its never-grown
    /// state.  Must be the last operation against the memory previously
    /// handed out: earlier grants are forgotten, not preserved.
    pub fn reset_or_drop(&mut self)
        requires
            old(self).wf(),
        ensures
            final(self).wf(),
            final(self).current == ChunkFooter::sentinel(),
            final(self).outstanding_blocks == 0,
            final(self).outstanding_bytes == 0,
            final(self).min_chunk_usable == old(self).min_chunk_usable,
            final(self).next_block_addr == old(self).next_block_addr,
            final(self).granted@ == Seq::<(usize, usize)>::empty(),
    {
        let mut remaining: Option<Box<ChunkData>> = self.current.chunk.take();
        self.granted = Ghost(Seq::empty());
        while remaining.is_some()
            invariant
                (ChunkFooter { chunk: remaining }).wf(),
                self.outstanding_bytes == (ChunkFooter { chunk: remaining }).allocated_bytes_spec(),
                self.outstanding_blocks == (ChunkFooter { chunk: remaining }).chunk_count_spec(),
                self.current == ChunkFooter::sentinel(),
                self.min_chunk_usable == old(self).min_chunk_usable,
                self.next_block_addr == old(self).next_block_addr,
                self.granted@ == Seq::<(usize, usize)>::empty(),
                1 <= self.min_chunk_usable <= MAX_CHUNK_USABLE,
                INITIAL_BLOCK_ADDRESS <= self.next_block_addr,
            decreases remaining,
        {
            match remaining {
                Some(b) => {
                    proof {
                        lemma_allocated_bytes_le_block_end(b.prev);
                    }
                    // free this block via its own recorded layout
                    self.outstanding_bytes = self.outstanding_bytes - b.layout_size;
                    self.outstanding_blocks = self.outstanding_blocks - 1;
                    remaining = b.prev.chunk;
                },
                None => {
                    proof {
                        assert(false);
                    }
                },
            }
        }
    }

    /// Number of real chunks currently in the chain.
    pub fn chunk_count(&self) -> (n: usize)
        requires
            self.wf(),
        ensures
            n == self.current.chunk_count_spec(),
    {
        proof {
            lemma_chunk_count_le_allocated_bytes(self.current);
            lemma_allocated_bytes_le_block_end(self.current);
        }
        self.outstanding_blocks
    }

    /// The footer of the current chunk (the sentinel before any growth).
    pub fn current_footer(&self) -> (c: &ChunkFooter)
        ensures
            *c == self.current,
    {
        &self.current
    }

    /// Leak ledger: blocks reserved from the system allocator and not
    /// yet released.
    pub fn outstanding_blocks(&self) -> (n: usize)
        ensures
            n == self.outstanding_blocks,
    {
        self.outstanding_blocks
    }

    /// Leak ledger: bytes reserved from the system allocator and not yet
    /// released.
    pub fn outstanding_bytes(&self) -> (n: usize)
        ensures
            n == self.outstanding_bytes,
    {
        self.outstanding_bytes
    }

    /// Cumulative size of every block in the chain, as the newest
    /// chunk's footer records it.
    pub fn allocated_bytes(&self) -> (n: usize)
        ensures
            n == self.current.allocated_bytes_spec(),
    {
        self.current.allocated_bytes()
    }

    /// Smallest usable capacity the growth policy will reserve.
    pub fn min_chunk_capacity(&self) -> (n: usize)
        ensures
            n == self.min_chunk_usable,
    {
        self.min_chunk_usable
    }
}

/// No overlap: in a well-formed arena the ranges handed out since the
/// last reset are pairwise disjoint, however many allocations and growths
/// produced them.
pub proof fn lemma_grants_never_overlap(b: Bump)
    requires
        b.wf(),
    ensures
        all_disjoint(b.granted@),
{
}

/// Growth monotonicity: the capacity the policy picks is never below
/// what the triggering request needs, never below the configured
/// minimum, and at least doubles the chain until the saturation bound.
pub proof fn lemma_growth_policy_monotone(b: Bump, size: int, align: int)
    requires
        b.wf(),
        size >= 0,
        align >= 0,
    ensures
        b.growth_usable_spec(size, align) >= size + align,
        b.growth_usable_spec(size, align) >= b.min_chunk_usable,
        2 * b.current.allocated_bytes_spec() <= MAX_CHUNK_USABLE ==> b.growth_usable_spec(
            size,
            align,
        ) >= 2 * b.current.allocated_bytes_spec(),
{
}

} // verus!
