use mahjong_session::ClientIdGenerator;

#[test]
fn sequential_ids_are_distinct_and_strictly_increasing() {
    let mut generator = ClientIdGenerator::new();
    let mut issued = Vec::new();
    for _ in 0..100 {
        issued.push(generator.next());
    }
    for i in 0..issued.len() {
        for j in (i + 1)..issued.len() {
            assert!(issued[i] < issued[j]);
            assert_ne!(issued[i], issued[j]);
        }
    }
}

#[test]
fn ids_start_at_zero_and_count_up() {
    let mut generator = ClientIdGenerator::new();
    assert_eq!(generator.next().0, 0);
    assert_eq!(generator.next().0, 1);
    assert_eq!(generator.next().0, 2);
}
