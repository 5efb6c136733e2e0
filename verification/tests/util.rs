use staccato::util::{
    clamp_index, counted, on_off, range_set, step_index, wrap_index, xorshift_shuffle,
};

#[test]
fn step_index_clamps_and_handles_empty() {
    assert_eq!(step_index(0, -1, 0), 0);
    assert_eq!(step_index(2, 5, 4), 3);
    assert_eq!(step_index(2, -2, 4), 0);
    assert_eq!(step_index(1, 1, 3), 2);
}

#[test]
fn wrap_index_wraps_and_handles_empty() {
    assert_eq!(wrap_index(0, -1, 0), 0);
    assert_eq!(wrap_index(0, -1, 3), 2);
    assert_eq!(wrap_index(2, 1, 3), 0);
    assert_eq!(wrap_index(1, 2, 4), 3);
}

#[test]
fn xorshift_shuffle_is_a_stable_permutation() {
    let mut first = [0, 1, 2, 3, 4];
    xorshift_shuffle(&mut first, 42);
    let mut second = [0, 1, 2, 3, 4];
    xorshift_shuffle(&mut second, 42);
    assert_eq!(first, second);
    let mut sorted = first;
    sorted.sort_unstable();
    assert_eq!(sorted, [0, 1, 2, 3, 4]);
}

#[test]
fn wrapping_goes_round_more_than_once() {
    assert_eq!(wrap_index(0, -7, 3), 2);
    assert_eq!(wrap_index(1, i32::MIN, 5), (1 + i32::MIN as i64).rem_euclid(5) as usize);
    assert_eq!(wrap_index(usize::MAX, 1, 10), ((usize::MAX as u128 + 1) % 10) as usize);
}

#[test]
fn clamping_keeps_the_last_row() {
    assert_eq!(clamp_index(9, 4), 3);
    assert_eq!(clamp_index(2, 4), 2);
    assert_eq!(clamp_index(9, 0), 0);
}

#[test]
fn ranges_hold_both_ends() {
    let rows: Vec<usize> = range_set(5, 2).into_iter().collect();
    assert_eq!(rows, vec![2, 3, 4, 5]);
    assert_eq!(range_set(3, 3).len(), 1);
}

#[test]
fn counts_and_switches_have_words() {
    assert_eq!(counted(1, "track"), "1 track");
    assert_eq!(counted(0, "track"), "0 tracks");
    assert_eq!(counted(12, "file"), "12 files");
    assert_eq!(on_off(true), "On");
    assert_eq!(on_off(false), "Off");
}

#[test]
fn shuffle_follows_the_generator() {
    let mut items = vec!['a', 'b', 'c'];
    let mut state: u64 = 7;
    let mut expected = items.clone();
    for index in (1..expected.len()).rev() {
        state ^= state << 13;
        state ^= state >> 7;
        state ^= state << 17;
        expected.swap(index, state as usize % (index + 1));
    }
    xorshift_shuffle(&mut items, 7);
    assert_eq!(items, expected);
}
