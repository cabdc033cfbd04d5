use orderbook_imbalance::orderbook::{
    is_zero_quantity, price_key_of, FinalOrderbook, OrderbookUpdate, IMBALANCE_DEPTHS, SIGN_BIT,
};

fn levels(pairs: &[(f64, f64)]) -> Vec<(u64, u64)> {
    pairs.iter().map(|(p, q)| (p.to_bits(), q.to_bits())).collect()
}

fn update(timestamp: u64, bids: &[(f64, f64)], asks: &[(f64, f64)]) -> OrderbookUpdate {
    OrderbookUpdate { timestamp, bids: levels(bids), asks: levels(asks) }
}

fn quantities(bits: &[u64]) -> Vec<f64> {
    bits.iter().map(|b| f64::from_bits(*b)).collect()
}

#[test]
fn price_keys_follow_the_order_of_doubles() {
    let order = [f64::NEG_INFINITY, -2.5, -1.0, -0.0, 1e-300, 1.0, 2.5, 1e300, f64::INFINITY, f64::NAN];
    for i in 0..order.len() {
        for j in (i + 1)..order.len() {
            assert!(price_key_of(order[i].to_bits()) < price_key_of(order[j].to_bits()));
        }
    }
}

#[test]
fn price_keys_identify_equal_doubles() {
    assert_eq!(price_key_of(0.0f64.to_bits()), price_key_of((-0.0f64).to_bits()));
    assert_eq!(price_key_of(0.0f64.to_bits()), SIGN_BIT);
    assert_eq!(price_key_of(1.0f64.to_bits()), SIGN_BIT + 1.0f64.to_bits());
    assert_eq!(price_key_of((-1.0f64).to_bits()), SIGN_BIT - 1.0f64.to_bits());
    assert_eq!(price_key_of(f64::NAN.to_bits()), u64::MAX);
    assert_eq!(price_key_of(0x7ff0_0000_0000_0001), u64::MAX);
    assert_eq!(price_key_of(0xfff8_0000_0000_0000), u64::MAX);
}

#[test]
fn zero_quantities() {
    assert!(is_zero_quantity(0.0f64.to_bits()));
    assert!(is_zero_quantity((-0.0f64).to_bits()));
    assert!(!is_zero_quantity(1e-320f64.to_bits()));
    assert!(!is_zero_quantity(f64::NAN.to_bits()));
}

#[test]
fn new_book_is_empty() {
    let book = FinalOrderbook::new();
    assert_eq!(book.timestamp, 0);
    let (bids, asks) = book.depth_quantities(50);
    assert!(bids.is_empty());
    assert!(asks.is_empty());
}

#[test]
fn snapshot_sorts_levels_from_lowest_price() {
    let mut book = FinalOrderbook::new();
    book.update_snapshot(&update(7, &[(100.5, 1.0), (99.0, 2.0), (101.0, 3.0)], &[(102.0, 4.0), (103.0, 5.0)]));
    assert_eq!(book.timestamp, 7);
    let (bids, asks) = book.depth_quantities(50);
    assert_eq!(quantities(&bids), vec![2.0, 1.0, 3.0]);
    assert_eq!(quantities(&asks), vec![4.0, 5.0]);
    let (bids, asks) = book.depth_quantities(1);
    assert_eq!(quantities(&bids), vec![2.0]);
    assert_eq!(quantities(&asks), vec![4.0]);
    let (bids, asks) = book.depth_quantities(0);
    assert!(bids.is_empty() && asks.is_empty());
}

#[test]
fn snapshot_keeps_last_of_repeated_price_and_zero_quantities() {
    let mut book = FinalOrderbook::new();
    book.update_snapshot(&update(1, &[(10.0, 1.0), (10.0, 2.0), (11.0, 0.0)], &[]));
    let (bids, _) = book.depth_quantities(5);
    assert_eq!(quantities(&bids), vec![2.0, 0.0]);
}

#[test]
fn snapshot_replaces_the_whole_book() {
    let mut book = FinalOrderbook::new();
    book.update_snapshot(&update(1, &[(10.0, 1.0), (11.0, 2.0)], &[(12.0, 3.0)]));
    book.update_snapshot(&update(2, &[(9.0, 5.0)], &[]));
    assert_eq!(book.timestamp, 2);
    let (bids, asks) = book.depth_quantities(50);
    assert_eq!(quantities(&bids), vec![5.0]);
    assert!(asks.is_empty());
}

#[test]
fn delta_sets_and_removes_levels() {
    let mut book = FinalOrderbook::new();
    book.update_snapshot(&update(1, &[(10.0, 1.0), (11.0, 2.0)], &[(12.0, 3.0), (13.0, 4.0)]));
    book.update_delta(&update(2, &[(11.0, 0.0), (10.5, 6.0), (10.0, 7.0)], &[(13.0, -0.0), (14.0, 8.0)]));
    assert_eq!(book.timestamp, 2);
    let (bids, asks) = book.depth_quantities(50);
    assert_eq!(quantities(&bids), vec![7.0, 6.0]);
    assert_eq!(quantities(&asks), vec![3.0, 8.0]);
}

#[test]
fn delta_removing_absent_level_changes_nothing() {
    let mut book = FinalOrderbook::new();
    book.update_snapshot(&update(1, &[(10.0, 1.0)], &[]));
    book.update_delta(&update(3, &[(20.0, 0.0)], &[]));
    let (bids, _) = book.depth_quantities(50);
    assert_eq!(quantities(&bids), vec![1.0]);
}

#[test]
fn delta_at_zero_and_negative_zero_price_is_one_level() {
    let mut book = FinalOrderbook::new();
    book.update_delta(&update(1, &[(0.0, 1.0), (-0.0, 2.0)], &[]));
    let (bids, _) = book.depth_quantities(50);
    assert_eq!(quantities(&bids), vec![2.0]);
}

#[test]
fn delta_applied_twice_equals_once() {
    let delta = update(5, &[(1.0, 2.0), (2.0, 0.0), (1.0, 0.0), (3.0, 4.0)], &[(7.0, 1.0)]);
    let mut once = FinalOrderbook::new();
    once.update_snapshot(&update(1, &[(1.0, 9.0), (2.0, 9.0), (5.0, 9.0)], &[]));
    let mut twice = FinalOrderbook::new();
    twice.update_snapshot(&update(1, &[(1.0, 9.0), (2.0, 9.0), (5.0, 9.0)], &[]));
    once.update_delta(&delta);
    twice.update_delta(&delta);
    twice.update_delta(&delta);
    assert_eq!(once.depth_quantities(50), twice.depth_quantities(50));
    assert_eq!(quantities(&once.depth_quantities(50).0), vec![4.0, 9.0]);
}

#[test]
fn snapshot_equals_delta_on_empty_book() {
    let levels = update(4, &[(3.0, 1.0), (1.0, 2.0), (3.0, 5.0)], &[(8.0, 1.5)]);
    let mut by_snapshot = FinalOrderbook::new();
    by_snapshot.update_snapshot(&levels);
    let mut by_delta = FinalOrderbook::new();
    by_delta.update_delta(&levels);
    assert_eq!(by_snapshot.depth_quantities(50), by_delta.depth_quantities(50));
    assert_eq!(by_snapshot.timestamp, by_delta.timestamp);
}

#[test]
fn smaller_depth_is_a_prefix() {
    let mut book = FinalOrderbook::new();
    let bids: Vec<(f64, f64)> = (0..60).map(|i| (100.0 - i as f64, 1.0 + i as f64)).collect();
    book.update_snapshot(&update(1, &bids, &[]));
    let mut previous: Vec<u64> = Vec::new();
    for depth in IMBALANCE_DEPTHS {
        let (b, _) = book.depth_quantities(depth);
        assert_eq!(b.len(), depth);
        assert_eq!(&b[..previous.len()], &previous[..]);
        previous = b;
    }
    assert_eq!(f64::from_bits(previous[0]), 60.0);
    assert_eq!(IMBALANCE_DEPTHS, [1, 5, 10, 25, 50]);
}

#[test]
fn delta_on_empty_equals_snapshot_of_final_levels() {
    let delta = update(
        6,
        &[(1.0, 2.0), (2.0, 3.0), (1.0, 0.0), (3.0, 0.0), (3.0, 4.0), (2.0, 5.0)],
        &[(9.0, 1.0), (9.0, -0.0)],
    );
    let mut by_delta = FinalOrderbook::new();
    by_delta.update_delta(&delta);
    let final_levels = update(6, &[(2.0, 3.0), (3.0, 0.0), (3.0, 4.0), (2.0, 5.0)], &[]);
    let mut by_snapshot = FinalOrderbook::new();
    by_snapshot.update_snapshot(&final_levels);
    assert_eq!(by_delta.depth_quantities(50), by_snapshot.depth_quantities(50));
    assert_eq!(quantities(&by_delta.depth_quantities(50).0), vec![5.0, 4.0]);
    assert_eq!(by_delta.timestamp, by_snapshot.timestamp);
}
