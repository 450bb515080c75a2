use messenger::ring::Ring;

#[test]
fn push_and_contains_within_cap() {
    let mut ring: Ring<u64, 4> = Ring::new();
    ring.push(10);
    ring.push(20);
    ring.push(30);
    assert!(ring.contains(10));
    assert!(ring.contains(20));
    assert!(ring.contains(30));
    assert!(!ring.contains(40));
}

#[test]
fn overwrites_oldest_on_overflow() {
    let mut ring: Ring<u64, 3> = Ring::new();
    ring.push(1);
    ring.push(2);
    ring.push(3);
    ring.push(4); // evicts 1
    ring.push(5); // evicts 2
    assert!(!ring.contains(1));
    assert!(!ring.contains(2));
    assert!(ring.contains(3));
    assert!(ring.contains(4));
    assert!(ring.contains(5));
}

#[test]
fn default_value_appears_in_unfilled_ring() {
    let mut ring: Ring<u64, 4> = Ring::new();
    assert!(ring.contains(0));
    ring.push(7);
    assert!(ring.contains(0));
    ring.push(8);
    ring.push(9);
    ring.push(10);
    assert!(!ring.contains(0));
}

#[test]
fn ring_keeps_exactly_the_last_cap_pushes() {
    let mut ring: Ring<u32, 2> = Ring::default();
    for v in 1..=5u32 {
        ring.push(v);
    }
    assert!(ring.contains(4) && ring.contains(5));
    assert!(!ring.contains(3) && !ring.contains(0));
}
