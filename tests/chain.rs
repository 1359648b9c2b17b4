use discord_bots::chain::{Chain, WeightedSet};

#[test]
fn transitions_of_abcde() {
    let t = Chain::transitions(b"abcde", 3);
    let expected: Vec<(Option<Vec<u8>>, Option<Vec<u8>>)> = vec![
        (None, Some(b"abc".to_vec())),
        (Some(b"abc".to_vec()), Some(b"bcd".to_vec())),
        (Some(b"bcd".to_vec()), Some(b"cde".to_vec())),
        (Some(b"cde".to_vec()), None),
    ];
    assert_eq!(t, expected);
}

#[test]
fn transitions_of_short_and_empty_messages() {
    assert!(Chain::transitions(b"", 3).is_empty());
    let t = Chain::transitions(b"ab", 3);
    assert_eq!(t, vec![(None, Some(b"ab".to_vec())), (Some(b"ab".to_vec()), None)]);
}

#[test]
fn weighted_set_counts_and_picks() {
    let mut set = WeightedSet::new();
    set.insert("a");
    set.insert("b");
    set.insert("a");
    set.insert("c");
    assert_eq!(set.total_size(), 4);
    // counts in first-insertion order: a=2, b=1, c=1
    assert_eq!(set.pick(1), Some(0));
    assert_eq!(set.pick(2), Some(0));
    assert_eq!(set.pick(3), Some(1));
    assert_eq!(set.pick(4), Some(2));
    assert_eq!(set.pick(5), None);
    let drawn = set.sample().unwrap();
    assert!(["a", "b", "c"].contains(&drawn));
    let empty: WeightedSet<u8> = WeightedSet::new();
    assert_eq!(empty.sample(), None);
}

#[test]
fn chain_replays_a_single_message() {
    let mut chain = Chain::new(3);
    chain.feed(b"abcde".to_vec());
    assert_eq!(chain.generate(100), b"abcde".to_vec());
    assert_eq!(chain.generate(4), b"abcd".to_vec());
    assert_eq!(Chain::new(3).generate(10), Vec::<u8>::new());
}

#[test]
fn record_counts_transitions() {
    let mut chain = Chain::new(2);
    chain.record(None, Some(b"ab".to_vec()));
    chain.record(None, Some(b"ab".to_vec()));
    chain.record(Some(b"ab".to_vec()), None);
    assert_eq!(chain.generate(10), b"ab".to_vec());
}

#[test]
fn weighted_set_sample_from_single_value() {
    let mut set = WeightedSet::new();
    set.insert(7u32);
    set.insert(7u32);
    assert_eq!(set.total_size(), 2);
    assert_eq!(set.pick(2), Some(0));
    assert_eq!(set.sample(), Some(7));
}
