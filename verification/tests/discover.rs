use riot_tracker::discover::Cycle;

#[test]
fn cycle_walks_forever_and_restarts() {
    let mut c = Cycle::new(vec!["a", "b", "c"]);
    let seen: Vec<usize> = (0..7).map(|_| c.advance().expect("items exist")).collect();
    assert_eq!(seen, vec![0, 1, 2, 0, 1, 2, 0]);
}

#[test]
fn empty_cycle_idles() {
    let mut c: Cycle<&str> = Cycle::new(vec![]);
    assert_eq!(c.advance(), None);
    assert_eq!(c.advance(), None);
}
