use bump_arena::arena::Bump;

fn ranges_disjoint(a: (usize, usize), b: (usize, usize)) -> bool {
    a.1 == 0 || b.1 == 0 || a.0 + a.1 <= b.0 || b.0 + b.1 <= a.0
}

#[test]
fn no_overlap_across_many_allocations_and_growths() {
    // a small initial chunk forces growth many times over the run
    let mut b = Bump::with_capacity(1);
    let aligns: [usize; 6] = [1, 2, 4, 8, 16, 32];
    let mut grants: Vec<(usize, usize)> = Vec::new();

    for i in 0..2000usize {
        let size = 1 + (i % 64);
        let align = aligns[i % 6];
        let p = b
            .allocate(size, align)
            .expect("allocation from a growable arena must succeed");
        assert_eq!(p % align, 0);
        grants.push((p, size));
    }
    assert!(b.chunk_count() >= 2, "the run must have grown the arena");

    for i in 0..grants.len() {
        for j in (i + 1)..grants.len() {
            assert!(
                ranges_disjoint(grants[i], grants[j]),
                "granted ranges must never share a byte"
            );
        }
    }
}

#[test]
fn no_overlap_between_chunks() {
    // ranges granted before and after a growth stay disjoint
    let mut b = Bump::with_capacity(64);
    let p1 = b.allocate(48, 8).unwrap();
    let p2 = b.allocate(48, 8).unwrap();
    assert_eq!(b.chunk_count(), 2);
    assert!(ranges_disjoint((p1, 48), (p2, 48)));
}
