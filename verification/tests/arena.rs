use bump_arena::arena::{AllocError, Bump, DEFAULT_CHUNK_CAPACITY};

#[test]
fn new_arena_has_no_chunk() {
    let b = Bump::new();
    assert!(b.current_footer().is_empty());
    assert_eq!(b.chunk_count(), 0);
    assert_eq!(b.outstanding_blocks(), 0);
    assert_eq!(b.outstanding_bytes(), 0);
    assert_eq!(b.allocated_bytes(), 0);
    assert_eq!(b.min_chunk_capacity(), DEFAULT_CHUNK_CAPACITY);
}

#[test]
fn single_threaded_scenario() {
    // 100 bytes aligned to 8 from a chunk sized to exactly 128 usable bytes
    let mut b = Bump::with_capacity(128);
    let p1 = b.allocate(100, 8).unwrap();
    assert_eq!(b.chunk_count(), 1);
    let first_bottom = b.current_footer().bottom();
    let first_footer = b.current_footer().footer_address();
    assert_eq!(first_footer - first_bottom, 128, "first chunk has exactly 128 usable bytes");
    assert_eq!(p1 % 8, 0);
    assert!(first_bottom <= p1 && p1 + 100 <= first_footer);
    assert_eq!(p1, 152);

    // a further 64 bytes do not fit: growth occurs exactly once
    let p2 = b.allocate(64, 8).unwrap();
    assert_eq!(b.chunk_count(), 2);
    assert_eq!(p2, 640);

    // no move-on-growth: the first chunk hangs unchanged behind the new one
    let old_chunk = b.current_footer().prev();
    assert!(!old_chunk.is_empty());
    assert_eq!(old_chunk.bottom(), first_bottom);
    assert_eq!(old_chunk.footer_address(), first_footer);
    assert_eq!(old_chunk.load_top(), p1);

    // the two grants are disjoint
    assert!(p1 + 100 <= p2 || p2 + 64 <= p1);
}

#[test]
fn alignment_is_honored() {
    let mut b = Bump::new();
    let aligns: [usize; 6] = [1, 2, 4, 8, 16, 32];
    for &a in aligns.iter() {
        let p = b.allocate(13, a).unwrap();
        assert_eq!(p % a, 0, "address must be a multiple of the alignment");
    }
}

#[test]
fn growth_monotonicity() {
    let mut b = Bump::with_capacity(1);
    let p1 = b.allocate(100, 1).unwrap();
    let p2 = b.allocate(200, 1).unwrap();
    let p3 = b.allocate(500, 1).unwrap();
    assert_eq!(p1, 129);
    assert_eq!(p2, 423);
    assert_eq!(p3, 1305);
    assert_eq!(b.chunk_count(), 3);

    // capacities along the chain, newest first
    let c3 = b.current_footer();
    let cap3 = c3.footer_address() - c3.bottom();
    let c2 = c3.prev();
    let cap2 = c2.footer_address() - c2.bottom();
    let c1 = c2.prev();
    let cap1 = c1.footer_address() - c1.bottom();
    assert!(c1.prev().is_empty());
    assert_eq!(cap1, 101);
    assert_eq!(cap2, 330);
    assert_eq!(cap3, 1118);
    // each growth at least doubles the cumulative chain size
    assert!(cap2 >= 2 * c1.allocated_bytes());
    assert!(cap3 >= 2 * c2.allocated_bytes());

    // allocated_bytes of the newest chunk is the sum of all block sizes
    let sum = c3.layout_size() + c2.layout_size() + c1.layout_size();
    assert_eq!(b.allocated_bytes(), sum);
    assert_eq!(b.allocated_bytes(), 1741);
}

#[test]
fn teardown_completeness() {
    let mut b = Bump::with_capacity(1);
    b.allocate(100, 1).unwrap();
    b.allocate(200, 1).unwrap();
    b.allocate(500, 1).unwrap();
    assert_eq!(b.outstanding_blocks(), 3);
    assert_eq!(b.outstanding_bytes(), 1741);

    b.reset_or_drop();
    assert_eq!(b.outstanding_blocks(), 0, "no chunk-sized block may remain outstanding");
    assert_eq!(b.outstanding_bytes(), 0);
    assert!(b.current_footer().is_empty());

    // the arena is usable again after a reset
    let p = b.allocate(8, 8).unwrap();
    assert_eq!(p % 8, 0);
    assert_eq!(b.chunk_count(), 1);
}

#[test]
fn zero_sized_requests_are_trivial() {
    let mut b = Bump::new();
    let p = b.allocate(0, 8).unwrap();
    assert_eq!(p, 8);
    assert_eq!(p % 8, 0);
    // no chunk was created, no frontier moved
    assert_eq!(b.chunk_count(), 0);
    assert_eq!(b.outstanding_bytes(), 0);

    b.allocate(16, 4).unwrap();
    let top_before = b.current_footer().load_top();
    let q = b.allocate(0, 2).unwrap();
    assert_eq!(q % 2, 0);
    assert_eq!(b.current_footer().load_top(), top_before);
}

#[test]
fn invalid_arguments_are_rejected() {
    let mut b = Bump::new();
    assert_eq!(b.allocate(8, 0), Err(AllocError::InvalidArgument));
    assert_eq!(b.allocate(8, 3), Err(AllocError::InvalidArgument));
    assert_eq!(b.allocate(8, 6), Err(AllocError::InvalidArgument));
    assert_eq!(b.allocate(8, 100), Err(AllocError::InvalidArgument));
    // a size that would overflow the address arithmetic for its chunk
    assert_eq!(b.allocate(usize::MAX, 1), Err(AllocError::InvalidArgument));
    // the arena is untouched by rejected requests
    assert_eq!(b.chunk_count(), 0);
    assert_eq!(b.outstanding_bytes(), 0);
}

#[test]
fn reservation_failure_is_reported() {
    let mut b = Bump::new();
    // a request this large is well formed, but no block for it can be reserved
    let huge = usize::MAX - 64 - 1;
    assert_eq!(b.allocate(huge, 1), Err(AllocError::ReservationFailed));
    // the failure corrupts nothing: the chain is untouched and still works
    assert_eq!(b.chunk_count(), 0);
    assert_eq!(b.outstanding_bytes(), 0);
    let p = b.allocate(32, 8).unwrap();
    assert_eq!(p % 8, 0);
}

#[test]
fn large_alignment_is_honored() {
    let mut b = Bump::new();
    let p = b.allocate(10, 1024).unwrap();
    assert_eq!(p % 1024, 0);
    assert_eq!(p, 2048);
    // the block itself was reserved at the requested alignment
    assert_eq!(b.current_footer().bottom() % 1024, 0);
    assert_eq!(b.current_footer().layout_align(), 1024);
}

#[test]
fn growth_produces_nonempty_chunks() {
    // the sentinel reports empty; every chunk produced by growth does not
    let mut b = Bump::new();
    assert!(b.current_footer().is_empty());
    b.allocate(1, 1).unwrap();
    assert!(!b.current_footer().is_empty());
    b.allocate(DEFAULT_CHUNK_CAPACITY, 1).unwrap();
    assert!(!b.current_footer().is_empty());
    assert!(!b.current_footer().prev().is_empty());
    b.reset_or_drop();
    assert!(b.current_footer().is_empty());
}

#[test]
fn cas_protocol_on_the_frontier() {
    let mut b = Bump::new();
    b.allocate(8, 1).unwrap();
    let observed = b.current_footer().load_top();
    let bottom = b.current_footer().bottom();

    // a compare-and-swap against a stale frontier fails and changes nothing
    let stale = observed - 1;
    assert!(!b.current.cas_top(stale, bottom));
    assert_eq!(b.current.load_top(), observed);

    // against the loaded frontier it wins and moves `top`
    assert!(b.current.cas_top(observed, bottom));
    assert_eq!(b.current.load_top(), bottom);
}
