use bolt_load::id::Generator;

#[test]
fn id_test_basic_allocation() {
    let mut g = Generator::new(5);

    assert_eq!(g.next(), Some(0));
    assert_eq!(g.next(), Some(1));
    assert_eq!(g.allocated_count(), 2);
    assert!(!g.is_full());
}

#[test]
fn test_release_and_reuse() {
    let mut g = Generator::new(3);

    let id1 = g.next().unwrap();
    let _id2 = g.next().unwrap();

    assert!(g.release(id1));
    assert!(!g.release(id1)); // Duplicate release should fail

    let id3 = g.next().unwrap();
    assert_eq!(id3, id1); // Should reuse the just released ID
}

#[test]
fn test_capacity_limits() {
    let mut g = Generator::new(2);

    assert_eq!(g.next(), Some(0));
    assert_eq!(g.next(), Some(1));
    assert_eq!(g.next(), None); // Should be full
    assert!(g.is_full());

    g.release(0);
    assert!(!g.is_full());
    assert_eq!(g.next(), Some(0));
}

#[test]
fn test_reset() {
    let mut g = Generator::new(3);
    let _ = g.next();
    let _ = g.next();

    assert_eq!(g.allocated_count(), 2);

    g.reset();
    assert_eq!(g.allocated_count(), 0);
    assert!(g.is_empty());
    assert_eq!(g.next(), Some(0));
}

#[test]
fn the_smallest_free_id_comes_next() {
    let mut g = Generator::new(4);
    for id in 0..4 {
        assert_eq!(g.next(), Some(id));
    }
    g.release(3);
    g.release(1);
    g.release(2);
    assert_eq!(g.next(), Some(1));
    assert_eq!(g.next(), Some(2));
    g.release(0);
    assert_eq!(g.next(), Some(0));
    assert_eq!(g.next(), Some(3));
    assert_eq!(g.next(), None);
}
