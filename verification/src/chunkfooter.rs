//! Per-chunk metadata ("footer") and the sentinel that stands for
//! "the arena has not grown yet".
//!
//! A real chunk is one contiguous block of the modeled address space.  Its
//! usable region `[bottom, footer_address)` precedes the footer record,
//! which occupies the top `FOOTER_SIZE` bytes of the block.  Allocation
//! moves the frontier `top` downward from `footer_address` toward `bottom`.
//! Footers form a singly linked, most-recent-first chain: each real chunk
//! owns the footer of the chunk allocated immediately before it.
//!
//! Instead of a process-wide static whose identity is tested by address,
//! the sentinel here is the tagged "no chunk" state of [`ChunkFooter`]:
//! every sentinel value is the sentinel, no address comparison is needed,
//! and no handle through which the sentinel could be mutated ever exists.

use vstd::prelude::*;

verus! {

/// Modeled size in bytes of the footer record at the top of every block.
pub const FOOTER_SIZE: usize = 64;

/// The address the sentinel reports for its `bottom`, `top` and its own
/// footer; the degenerate zero-capacity region `[SENTINEL_ADDRESS, SENTINEL_ADDRESS)`.
pub const SENTINEL_ADDRESS: usize = 64;

/// Metadata for one real chunk.
pub struct ChunkData {
    /// Address of the first byte of this chunk's usable region.
    /// Immutable once the chunk exists.
    pub bottom: usize,
    /// Size in bytes of the entire block (usable region + footer).
    /// Immutable.
    pub layout_size: usize,
    /// Alignment the block was reserved with.  Immutable.
    pub layout_align: usize,
    /// The allocation frontier: the boundary between the free region
    /// `[bottom, top)` and the allocated region `[top, footer_address)`.
    /// The only mutable field.
    pub top: usize,
    /// Size of this block plus all blocks reachable through `prev`.
    /// Computed at creation time, never mutated.
    pub allocated_bytes: usize,
    /// Footer of the chunk allocated immediately before this one;
    /// the sentinel for the oldest chunk.
    pub prev: ChunkFooter,
}

/// Footer of the current chunk: either the sentinel ("no chunk yet")
/// or a real chunk's metadata.
pub struct ChunkFooter {
    pub chunk: Option<Box<ChunkData>>,
}

impl ChunkFooter {
    /// The sentinel, standing for "the arena has never grown".
    pub open spec fn sentinel() -> ChunkFooter {
        ChunkFooter { chunk: None }
    }

    pub open spec fn is_sentinel(self) -> bool {
        self.chunk is None
    }

    /// Address of the first usable byte.
    pub open spec fn bottom_spec(self) -> int {
        match self.chunk {
            None => SENTINEL_ADDRESS as int,
            Some(c) => c.bottom as int,
        }
    }

    /// Size of the whole block, usable region and footer together.
    pub open spec fn layout_size_spec(self) -> int {
        match self.chunk {
            None => FOOTER_SIZE as int,
            Some(c) => c.layout_size as int,
        }
    }

    /// Alignment of the block.
    pub open spec fn layout_align_spec(self) -> int {
        match self.chunk {
            None => FOOTER_SIZE as int,
            Some(c) => c.layout_align as int,
        }
    }

    /// The allocation frontier.
    pub open spec fn top_spec(self) -> int {
        match self.chunk {
            None => SENTINEL_ADDRESS as int,
            Some(c) => c.top as int,
        }
    }

    /// Address of the footer record, one past the usable region.
    pub open spec fn footer_address_spec(self) -> int {
        match self.chunk {
            None => SENTINEL_ADDRESS as int,
            Some(c) => c.bottom + c.layout_size - FOOTER_SIZE,
        }
    }

    /// One past the last byte of the whole block.
    pub open spec fn block_end_spec(self) -> int {
        match self.chunk {
            None => SENTINEL_ADDRESS as int,
            Some(c) => c.bottom + c.layout_size,
        }
    }

    /// Cumulative size of this block and all older blocks in the chain.
    pub open spec fn allocated_bytes_spec(self) -> int {
        match self.chunk {
            None => 0,
            Some(c) => c.allocated_bytes as int,
        }
    }

    /// The footer of the next-older chunk; the sentinel's `prev` is itself.
    pub open spec fn prev_spec(self) -> ChunkFooter {
        match self.chunk {
            None => self,
            Some(c) => c.prev,
        }
    }

    /// Number of real chunks in the chain.
    pub open spec fn chunk_count_spec(self) -> nat
        decreases self,
    {
        match self.chunk {
            None => 0,
            Some(c) => 1 + c.prev.chunk_count_spec(),
        }
    }

    /// Sum of the block sizes of every real chunk in the chain.
    pub open spec fn chain_bytes_spec(self) -> int
        decreases self,
    {
        match self.chunk {
            None => 0,
            Some(c) => c.layout_size + c.prev.chain_bytes_spec(),
        }
    }

    /// Well-formedness of a footer and of everything it owns:
    /// for every real chunk `bottom <= top <= footer_address`, the block
    /// fits in the address space above the sentinel, `allocated_bytes`
    /// carries the running total of block sizes, and older chunks occupy
    /// strictly lower addresses than newer ones.
    pub open spec fn wf(self) -> bool
        decreases self,
    {
        match self.chunk {
            None => true,
            Some(c) => {
                &&& SENTINEL_ADDRESS + FOOTER_SIZE <= c.bottom
                &&& c.layout_size >= FOOTER_SIZE
                &&& c.bottom + c.layout_size <= usize::MAX
                &&& c.bottom <= c.top
                &&& c.top <= c.bottom + c.layout_size - FOOTER_SIZE
                &&& crate::align::is_pow2(c.layout_align as nat)
                &&& c.allocated_bytes == c.layout_size + c.prev.allocated_bytes_spec()
                &&& c.prev.block_end_spec() <= c.bottom || c.prev.is_sentinel()
                &&& c.prev.wf()
            },
        }
    }

    /// The chunk can satisfy a bump of `size` bytes at alignment `align`:
    /// it is real, and the frontier rounded down by the request still
    /// lies at or above `bottom`.
    pub open spec fn fits(self, size: int, align: int) -> bool {
        &&& !self.is_sentinel()
        &&& size <= self.top_spec()
        &&& crate::align::round_down(self.top_spec() - size, align) >= self.bottom_spec()
    }

    /// The frontier a successful bump of `size` at `align` moves `top` to,
    /// and the address it hands out.
    pub open spec fn bump_candidate(self, size: int, align: int) -> int {
        crate::align::round_down(self.top_spec() - size, align)
    }

    /// True iff this footer is the sentinel: the identity test the
    /// allocation protocol and the growth policy use for
    /// "the arena has no chunk yet".
    pub fn is_empty(&self) -> (b: bool)
        ensures
            b == self.is_sentinel(),
    {
        self.chunk.is_none()
    }

    /// Loads the current frontier, the first step of the bump protocol.
    pub fn load_top(&self) -> (t: usize)
        ensures
            t == self.top_spec(),
    {
        match &self.chunk {
            None => SENTINEL_ADDRESS,
            Some(c) => c.top,
        }
    }

    /// Address of the first usable byte.
    pub fn bottom(&self) -> (b: usize)
        ensures
            b == self.bottom_spec(),
    {
        match &self.chunk {
            None => SENTINEL_ADDRESS,
            Some(c) => c.bottom,
        }
    }

    /// Address of the footer record itself.
    pub fn footer_address(&self) -> (a: usize)
        requires
            self.wf(),
        ensures
            a == self.footer_address_spec(),
    {
        match &self.chunk {
            None => SENTINEL_ADDRESS,
            Some(c) => c.bottom + (c.layout_size - FOOTER_SIZE),
        }
    }

    /// Size in bytes of the whole block, usable region and footer.
    pub fn layout_size(&self) -> (n: usize)
        ensures
            n == self.layout_size_spec(),
    {
        match &self.chunk {
            None => FOOTER_SIZE,
            Some(c) => c.layout_size,
        }
    }

    /// Alignment the block was reserved with.
    pub fn layout_align(&self) -> (n: usize)
        ensures
            n == self.layout_align_spec(),
    {
        match &self.chunk {
            None => FOOTER_SIZE,
            Some(c) => c.layout_align,
        }
    }

    /// Cumulative size of this block and every older block.
    pub fn allocated_bytes(&self) -> (n: usize)
        ensures
            n == self.allocated_bytes_spec(),
    {
        match &self.chunk {
            None => 0,
            Some(c) => c.allocated_bytes,
        }
    }

    /// The next-older footer in the chain; the sentinel yields itself.
    pub fn prev(&self) -> (p: &ChunkFooter)
        ensures
            *p == self.prev_spec(),
    {
        match &self.chunk {
            None => self,
            Some(c) => &c.prev,
        }
    }

    /// Diagnostic accessor: the current frontier pointer together with the
    /// number of bytes currently allocated in this chunk
    /// (`footer_address - top`); the chunk invariant guarantees the
    /// subtraction is exact.
    pub fn get_current_top_and_allocated_size(&self) -> (r: (usize, usize))
        requires
            self.wf(),
        ensures
            r.0 == self.top_spec(),
            r.1 == self.footer_address_spec() - self.top_spec(),
            self.bottom_spec() <= r.0 <= self.footer_address_spec(),
    {
        match &self.chunk {
            None => (SENTINEL_ADDRESS, 0),
            Some(c) => {
                let footer_addr = c.bottom + (c.layout_size - FOOTER_SIZE);
                (c.top, footer_addr - c.top)
            },
        }
    }

    /// One compare-and-swap attempt on the frontier: succeeds, and moves
    /// `top` to `candidate`, exactly when the frontier still holds the
    /// value `observed` that the caller loaded.
    pub fn cas_top(&mut self, observed: usize, candidate: usize) -> (won: bool)
        requires
            old(self).wf(),
            !old(self).is_sentinel(),
            old(self).bottom_spec() <= candidate,
            candidate <= old(self).footer_address_spec(),
        ensures
            final(self).wf(),
            won == (observed == old(self).top_spec()),
            !won ==> *final(self) == *old(self),
            won ==> {
                &&& !final(self).is_sentinel()
                &&& final(self).top_spec() == candidate
                &&& final(self).bottom_spec() == old(self).bottom_spec()
                &&& final(self).layout_size_spec() == old(self).layout_size_spec()
                &&& final(self).layout_align_spec() == old(self).layout_align_spec()
                &&& final(self).footer_address_spec() == old(self).footer_address_spec()
                &&& final(self).block_end_spec() == old(self).block_end_spec()
                &&& final(self).allocated_bytes_spec() == old(self).allocated_bytes_spec()
                &&& final(self).prev_spec() == old(self).prev_spec()
                &&& final(self).chunk_count_spec() == old(self).chunk_count_spec()
            },
    {
        let t = self.load_top();
        if t != observed {
            return false;
        }
        match self.chunk.take() {
            Some(mut c) => {
                c.top = candidate;
                self.chunk = Some(c);
                true
            },
            None => {
                proof {
                    assert(false);
                }
                false
            },
        }
    }

    /// The bump allocation protocol on one chunk: load the frontier,
    /// round it down by the request, report exhaustion if the candidate
    /// falls below `bottom`, otherwise claim `[candidate, observed)` with
    /// a compare-and-swap.  Exactly when the chunk fits the request, the
    /// aligned candidate frontier is returned and `top` moves to it;
    /// everything else about the chunk is unchanged.
    pub fn try_bump(&mut self, size: usize, align: usize) -> (r: Option<usize>)
        requires
            old(self).wf(),
            crate::align::is_pow2(align as nat),
            size >= 1,
        ensures
            final(self).wf(),
            r is Some <==> old(self).fits(size as int, align as int),
            r is None ==> *final(self) == *old(self),
            r is Some ==> {
                &&& r->Some_0 == old(self).bump_candidate(size as int, align as int)
                &&& r->Some_0 as int % align as int == 0
                &&& old(self).bottom_spec() <= r->Some_0
                &&& r->Some_0 + size <= old(self).top_spec()
                &&& !final(self).is_sentinel()
                &&& final(self).top_spec() == r->Some_0
                &&& final(self).bottom_spec() == old(self).bottom_spec()
                &&& final(self).layout_size_spec() == old(self).layout_size_spec()
                &&& final(self).layout_align_spec() == old(self).layout_align_spec()
                &&& final(self).footer_address_spec() == old(self).footer_address_spec()
                &&& final(self).block_end_spec() == old(self).block_end_spec()
                &&& final(self).allocated_bytes_spec() == old(self).allocated_bytes_spec()
                &&& final(self).prev_spec() == old(self).prev_spec()
                &&& final(self).chunk_count_spec() == old(self).chunk_count_spec()
            },
    {
        proof {
            crate::align::lemma_pow2_pos(align as nat);
        }
        let observed = self.load_top();
        if self.is_empty() {
            return None;
        }
        if size > observed {
            return None;
        }
        let candidate = crate::align::round_down_to(observed - size, align);
        proof {
            crate::align::lemma_round_down_props(observed - size, align as int);
        }
        let bottom = self.bottom();
        if candidate < bottom {
            return None;
        }
        let won = self.cas_top(observed, candidate);
        proof {
            // nothing ran between the load and the swap, so this attempt won
            assert(won);
        }
        Some(candidate)
    }
}

/// The sentinel's observable fields are degenerate: `bottom`, `top`,
/// its own footer address and its `prev` all name the sentinel itself,
/// and it accounts for no allocated bytes.
pub proof fn lemma_sentinel_degenerate()
    ensures
        ChunkFooter::sentinel().bottom_spec() == SENTINEL_ADDRESS as int,
        ChunkFooter::sentinel().top_spec() == SENTINEL_ADDRESS as int,
        ChunkFooter::sentinel().footer_address_spec() == SENTINEL_ADDRESS as int,
        ChunkFooter::sentinel().prev_spec() == ChunkFooter::sentinel(),
        ChunkFooter::sentinel().allocated_bytes_spec() == 0,
        ChunkFooter::sentinel().is_sentinel(),
{
}

/// For every well-formed chunk, the recorded cumulative total equals the
/// sum of the block sizes of every chunk in its chain.
pub proof fn lemma_allocated_bytes_is_chain_sum(c: ChunkFooter)
    requires
        c.wf(),
    ensures
        c.allocated_bytes_spec() == c.chain_bytes_spec(),
    decreases c,
{
    match c.chunk {
        None => {},
        Some(d) => {
            lemma_allocated_bytes_is_chain_sum(d.prev);
        },
    }
}

/// Invariant preservation: a well-formed real chunk's frontier always
/// lies between `bottom` and the footer's own address, which in turn lie
/// inside the chunk's block.
pub proof fn lemma_chunk_invariant(c: ChunkFooter)
    requires
        c.wf(),
        !c.is_sentinel(),
    ensures
        c.bottom_spec() <= c.top_spec(),
        c.top_spec() <= c.footer_address_spec(),
        c.footer_address_spec() + FOOTER_SIZE == c.block_end_spec(),
{
}

/// Every chunk's block carries at least a footer, so the chain holds no
/// more chunks than `allocated_bytes` divided by the footer size.
pub proof fn lemma_chunk_count_le_allocated_bytes(c: ChunkFooter)
    requires
        c.wf(),
    ensures
        FOOTER_SIZE * c.chunk_count_spec() <= c.allocated_bytes_spec(),
    decreases c,
{
    match c.chunk {
        None => {},
        Some(d) => {
            lemma_chunk_count_le_allocated_bytes(d.prev);
        },
    }
}

/// The chain's cumulative byte total never exceeds the end address of the
/// newest block: blocks occupy disjoint, increasing regions of the
/// address space, so their sizes sum to less than the space below the
/// newest block's end.
pub proof fn lemma_allocated_bytes_le_block_end(c: ChunkFooter)
    requires
        c.wf(),
    ensures
        c.allocated_bytes_spec() <= c.block_end_spec(),
        c.allocated_bytes_spec() >= 0,
    decreases c,
{
    match c.chunk {
        None => {},
        Some(d) => {
            lemma_allocated_bytes_le_block_end(d.prev);
        },
    }
}

/// Hands out the sentinel.  Rather than publishing one static footer
/// instance whose identity callers compare by address, every sentinel
/// value here is the sentinel; and because [`EmptyChunkFooter::get`]
/// returns a fresh "current chunk" seed rather than a handle into shared
/// state, nothing can mutate the sentinel through it.
pub struct EmptyChunkFooter;

impl EmptyChunkFooter {
    /// A "current chunk" cell seeded with the sentinel, for a data
    /// structure that needs its own swappable current-chunk state.
    pub fn get(&self) -> (c: ChunkFooter)
        ensures
            c == ChunkFooter::sentinel(),
            c.wf(),
    {
        ChunkFooter { chunk: None }
    }
}

} // verus!
