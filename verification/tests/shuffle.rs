use taup::shuffle::{shuffle_files, shuffle_step, shuffle_with};

#[test]
fn shuffle_step_exchanges_with_the_drawn_partner() {
    let mut v = vec!['a', 'b', 'c', 'd'];
    shuffle_step(&mut v, 3, 5);
    assert_eq!(v, vec!['a', 'd', 'c', 'b']);
    shuffle_step(&mut v, 2, 7);
    assert_eq!(v, vec!['a', 'c', 'd', 'b']);
    shuffle_step(&mut v, 2, 2);
    assert_eq!(v, vec!['a', 'c', 'd', 'b']);
    shuffle_step(&mut v, 0, usize::MAX);
    assert_eq!(v, vec!['a', 'c', 'd', 'b']);
}

#[test]
fn shuffle_with_zero_draws_rotates_left() {
    let mut v = vec![1, 2, 3];
    shuffle_with(&mut v, &vec![0, 0, 0]);
    assert_eq!(v, vec![2, 3, 1]);
}

#[test]
fn shuffle_with_follows_the_draws() {
    let mut v = vec![10, 20, 30, 40];
    shuffle_with(&mut v, &vec![3, 2, 1, 0]);
    assert_eq!(v, vec![10, 20, 30, 40]);

    let mut v = vec![10, 20, 30, 40];
    shuffle_with(&mut v, &vec![6, 4, 9, 123]);
    // position 3 with 6 % 4 = 2, position 2 with 4 % 3 = 1, position 1 with 9 % 2 = 1
    assert_eq!(v, vec![10, 40, 20, 30]);
}

#[test]
fn shuffle_with_uses_only_as_many_draws_as_items() {
    let mut v = vec![1, 2];
    shuffle_with(&mut v, &vec![0, 5, 1, 1, 1]);
    assert_eq!(v, vec![2, 1]);
    let mut empty: Vec<u8> = Vec::new();
    shuffle_with(&mut empty, &Vec::new());
    assert_eq!(empty, Vec::<u8>::new());
}

#[test]
fn shuffle_with_stops_where_the_draws_end() {
    let mut v = vec![1, 2, 3, 4];
    shuffle_with(&mut v, &Vec::new());
    assert_eq!(v, vec![1, 2, 3, 4]);
    shuffle_with(&mut v, &vec![1]);
    assert_eq!(v, vec![1, 4, 3, 2]);
    shuffle_with(&mut v, &vec![3, 0]);
    assert_eq!(v, vec![3, 4, 1, 2]);
}

#[test]
fn shuffle_with_reaches_every_arrangement_of_three() {
    let mut seen: Vec<Vec<u8>> = Vec::new();
    for a in 0..3usize {
        for b in 0..2usize {
            let mut v = vec![1u8, 2, 3];
            shuffle_with(&mut v, &vec![a, b, 0]);
            assert!(!seen.contains(&v), "{:?} came out twice", v);
            seen.push(v);
        }
    }
    assert_eq!(seen.len(), 6);
}

#[test]
fn shuffle_files_keeps_the_multiset() {
    for n in 0..40usize {
        let mut v: Vec<usize> = (0..n).map(|k| k % 7).collect();
        let mut before = v.clone();
        shuffle_files(&mut v);
        assert_eq!(v.len(), n);
        let mut after = v.clone();
        before.sort();
        after.sort();
        assert_eq!(after, before);
    }
}

#[test]
fn shuffle_files_produces_each_arrangement_about_equally_often() {
    let arrangements: Vec<Vec<u8>> = vec![
        vec![1, 2, 3],
        vec![1, 3, 2],
        vec![2, 1, 3],
        vec![2, 3, 1],
        vec![3, 1, 2],
        vec![3, 2, 1],
    ];
    let mut counts = vec![0u32; 6];
    let trials = 12000;
    for _ in 0..trials {
        let mut v = vec![1u8, 2, 3];
        shuffle_files(&mut v);
        let which = arrangements.iter().position(|a| *a == v);
        assert!(which.is_some(), "{:?} is no arrangement of the input", v);
        counts[which.unwrap()] += 1;
    }
    for (k, count) in counts.iter().enumerate() {
        assert!(
            *count > 1600 && *count < 2400,
            "{:?} came out {} times of {}",
            arrangements[k],
            count,
            trials
        );
    }
}

#[test]
fn shuffle_files_moves_something_in_a_long_sequence() {
    let before: Vec<u32> = (0..200).collect();
    let mut v = before.clone();
    shuffle_files(&mut v);
    assert_ne!(v, before);
}
