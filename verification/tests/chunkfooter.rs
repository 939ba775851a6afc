use bump_arena::chunkfooter::{ChunkFooter, EmptyChunkFooter, FOOTER_SIZE, SENTINEL_ADDRESS};

#[test]
fn test_empty_chunk_initialization_and_size() {
    let empty: ChunkFooter = EmptyChunkFooter.get();

    assert!(empty.is_empty(), "EMPTY_CHUNK should be identified as empty");

    assert_eq!(
        empty.allocated_bytes(),
        0,
        "EMPTY_CHUNK should have 0 allocated bytes"
    );

    assert!(
        empty.prev().is_empty(),
        "EMPTY_CHUNK's prev should point to itself"
    );
    assert_eq!(
        empty.prev().footer_address(),
        empty.footer_address(),
        "EMPTY_CHUNK's prev should point to itself"
    );

    let (top_ptr, allocated_size) = empty.get_current_top_and_allocated_size();

    assert_eq!(
        top_ptr,
        empty.footer_address(),
        "Top pointer should point to the end of the footer itself"
    );

    assert_eq!(
        allocated_size, 0,
        "Allocated size within the empty chunk should be 0"
    );
}

#[test]
fn sentinel_degeneracy() {
    // bottom == top == prev == address_of(self), and no allocated bytes
    let empty = EmptyChunkFooter.get();
    assert_eq!(empty.bottom(), SENTINEL_ADDRESS);
    assert_eq!(empty.load_top(), SENTINEL_ADDRESS);
    assert_eq!(empty.footer_address(), SENTINEL_ADDRESS);
    assert_eq!(empty.prev().bottom(), SENTINEL_ADDRESS);
    assert!(empty.prev().is_empty());
    assert_eq!(empty.allocated_bytes(), 0);
    assert_eq!(empty.layout_size(), FOOTER_SIZE);
    assert_eq!(empty.layout_align(), FOOTER_SIZE);
}

#[test]
fn sentinel_never_bumps() {
    // the sentinel always reports itself exhausted, whatever the request
    let mut empty = EmptyChunkFooter.get();
    assert_eq!(empty.try_bump(1, 1), None);
    assert_eq!(empty.try_bump(64, 8), None);
    assert!(empty.is_empty());
    assert_eq!(empty.load_top(), SENTINEL_ADDRESS);
}
