use acterminal::feed::{route_update, DataType};
use acterminal::ladder::{build_ladder, price_tone, LadderLevel, LadderRow, PriceTone};

fn lvl(key: i64, size_positive: bool) -> LadderLevel {
    LadderLevel { key, size_positive }
}

#[test]
fn ladder_merges_sides_highest_first() {
    let bids = vec![lvl(100, true), lvl(99, true), lvl(98, false), lvl(97, true)];
    let offers = vec![lvl(101, true), lvl(102, true), lvl(100, true)];
    let rows = build_ladder(&bids, &offers);
    let keys: Vec<i64> = rows.iter().map(|r| r.key).collect();
    assert_eq!(keys, vec![102, 101, 100, 99, 97]);
    assert_eq!(
        rows[2],
        LadderRow { key: 100, bid: Some(0), ask: Some(2), is_best_bid: true, is_best_ask: true }
    );
    assert_eq!(
        rows[1],
        LadderRow { key: 101, bid: None, ask: Some(0), is_best_bid: false, is_best_ask: false }
    );
    assert_eq!(
        rows[4],
        LadderRow { key: 97, bid: Some(3), ask: None, is_best_bid: false, is_best_ask: false }
    );
}

#[test]
fn ladder_best_ask_is_lowest_offer() {
    let bids = vec![lvl(10, true)];
    let offers = vec![lvl(13, true), lvl(11, true), lvl(12, true)];
    let rows = build_ladder(&bids, &offers);
    let best: Vec<i64> = rows.iter().filter(|r| r.is_best_ask).map(|r| r.key).collect();
    assert_eq!(best, vec![11]);
    let best_bid: Vec<i64> = rows.iter().filter(|r| r.is_best_bid).map(|r| r.key).collect();
    assert_eq!(best_bid, vec![10]);
}

#[test]
fn ladder_skips_empty_levels_and_keeps_first_duplicate() {
    let bids = vec![lvl(5, false), lvl(5, true), lvl(5, true)];
    let offers = vec![lvl(7, false)];
    let rows = build_ladder(&bids, &offers);
    assert_eq!(rows.len(), 1);
    assert_eq!(rows[0].bid, Some(1));
    assert_eq!(rows[0].ask, None);
    assert!(build_ladder(&vec![lvl(1, false)], &vec![]).is_empty());
}

#[test]
fn ladder_negative_keys_order() {
    let rows = build_ladder(&vec![lvl(-3, true), lvl(2, true)], &vec![lvl(-1, true)]);
    let keys: Vec<i64> = rows.iter().map(|r| r.key).collect();
    assert_eq!(keys, vec![2, -1, -3]);
}

#[test]
fn price_tone_by_best_flags() {
    let row = |b: bool, a: bool| LadderRow { key: 0, bid: None, ask: None, is_best_bid: b, is_best_ask: a };
    assert_eq!(price_tone(&row(true, false)), PriceTone::Bid);
    assert_eq!(price_tone(&row(false, true)), PriceTone::Ask);
    assert_eq!(price_tone(&row(true, true)), PriceTone::Plain);
    assert_eq!(price_tone(&row(false, false)), PriceTone::Plain);
}

#[test]
fn updates_for_other_symbols_are_dropped() {
    assert_eq!(route_update("6E", "6E", DataType::Dom), Some(DataType::Dom));
    assert_eq!(route_update("6E", "6J", DataType::Tick), None);
}

#[test]
fn exactly_one_best_row_each_side() {
    let bids = vec![lvl(4, true), lvl(6, true), lvl(6, true), lvl(2, false)];
    let offers = vec![lvl(9, true), lvl(7, true), lvl(8, false)];
    let rows = build_ladder(&bids, &offers);
    assert_eq!(rows.iter().filter(|r| r.is_best_bid).count(), 1);
    assert_eq!(rows.iter().filter(|r| r.is_best_ask).count(), 1);
    let empty = build_ladder(&vec![lvl(3, false)], &vec![lvl(5, true)]);
    assert_eq!(empty.iter().filter(|r| r.is_best_bid).count(), 0);
}
