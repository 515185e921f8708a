use geigercounter::decimal::to_decimal;
use geigercounter::leaderboard::rank;

fn entries(given: &[(&str, u64)]) -> Vec<(String, u64)> {
    given.iter().map(|(id, score)| (id.to_string(), *score)).collect()
}

#[test]
fn rank_of_nothing() {
    let mut board = entries(&[]);
    rank(&mut board);
    assert!(board.is_empty());
}

#[test]
fn rank_of_one() {
    let mut board = entries(&[("a", 3)]);
    rank(&mut board);
    assert_eq!(board, entries(&[("a", 3)]));
}

#[test]
fn rank_sorts_highest_first() {
    let mut board = entries(&[("a", 1), ("b", 5), ("c", 3), ("d", 4), ("e", 2)]);
    rank(&mut board);
    assert_eq!(board, entries(&[("b", 5), ("d", 4), ("c", 3), ("e", 2), ("a", 1)]));
}

#[test]
fn rank_keeps_the_order_of_equals() {
    let mut board = entries(&[("z", 2), ("a", 2), ("m", 9), ("b", 2), ("y", 9), ("c", 0)]);
    rank(&mut board);
    assert_eq!(
        board,
        entries(&[("m", 9), ("y", 9), ("z", 2), ("a", 2), ("b", 2), ("c", 0)])
    );
}

#[test]
fn rank_keeps_entries_that_come_twice() {
    let mut board = entries(&[("a", 1), ("a", 1), ("b", 2), ("a", 1)]);
    rank(&mut board);
    assert_eq!(board, entries(&[("b", 2), ("a", 1), ("a", 1), ("a", 1)]));
}

#[test]
fn rank_of_a_sorted_and_of_a_reversed_board() {
    let mut sorted = entries(&[("a", 4), ("b", 3), ("c", 2), ("d", 1)]);
    rank(&mut sorted);
    assert_eq!(sorted, entries(&[("a", 4), ("b", 3), ("c", 2), ("d", 1)]));
    let mut reversed = entries(&[("a", 1), ("b", 2), ("c", 3), ("d", 4)]);
    rank(&mut reversed);
    assert_eq!(reversed, entries(&[("d", 4), ("c", 3), ("b", 2), ("a", 1)]));
}

#[test]
fn rank_at_the_ends_of_the_range() {
    let mut board = entries(&[("a", 0), ("b", u64::MAX), ("c", 0), ("d", u64::MAX)]);
    rank(&mut board);
    assert_eq!(
        board,
        entries(&[("b", u64::MAX), ("d", u64::MAX), ("a", 0), ("c", 0)])
    );
}

#[test]
fn rank_agrees_with_a_stable_sort() {
    let mut seed: u64 = 12345;
    let mut board: Vec<(String, u64)> = Vec::new();
    for i in 0..200u64 {
        seed = seed.wrapping_mul(6364136223846793005).wrapping_add(1442695040888963407);
        board.push((format!("id{}", i), (seed >> 33) % 7));
    }
    let mut expected = board.clone();
    expected.sort_by(|a, b| b.1.cmp(&a.1));
    rank(&mut board);
    assert_eq!(board, expected);
}

#[test]
fn decimal_of_small_numbers() {
    assert_eq!(to_decimal(0), "0");
    assert_eq!(to_decimal(7), "7");
    assert_eq!(to_decimal(9), "9");
    assert_eq!(to_decimal(10), "10");
    assert_eq!(to_decimal(86400), "86400");
    assert_eq!(to_decimal(1000000), "1000000");
    assert_eq!(to_decimal(1234567890), "1234567890");
}

#[test]
fn decimal_of_the_largest_number() {
    assert_eq!(to_decimal(u64::MAX), "18446744073709551615");
}

#[test]
fn decimal_agrees_with_the_standard_library() {
    let mut n: u64 = 1;
    for _ in 0..64 {
        assert_eq!(to_decimal(n), n.to_string());
        assert_eq!(to_decimal(n - 1), (n - 1).to_string());
        n = n.wrapping_mul(2);
    }
}
