use acterminal::side::TradeSide;
use acterminal::tape::{RecentRows, TicksEntry, TicksView, TimesAndSalesEntry, TimesAndSalesView, MAX_ROWS};

fn entry(i: u64, symbol: &str) -> TimesAndSalesEntry<f64> {
    TimesAndSalesEntry { time: format!("{}", i), price: i as f64, size: i, side: TradeSide::Mid, symbol: symbol.to_string() }
}

#[test]
fn newest_first_and_capped() {
    let mut r: RecentRows<u64> = RecentRows::new();
    for i in 0..(MAX_ROWS as u64 + 10) {
        r.push(i);
    }
    assert_eq!(r.len(), MAX_ROWS);
    assert_eq!(r.rows()[0], MAX_ROWS as u64 + 9);
    assert_eq!(r.rows()[MAX_ROWS - 1], 10);
    r.clear();
    assert_eq!(r.len(), 0);
}

#[test]
fn few_pushes_keep_everything_in_reverse() {
    let mut r: RecentRows<u64> = RecentRows::new();
    for i in 0..5u64 {
        r.push(i);
    }
    assert_eq!(r.rows().iter().copied().collect::<Vec<_>>(), vec![4, 3, 2, 1, 0]);
}

#[test]
fn times_and_sales_tracks_symbol() {
    let mut v: TimesAndSalesView<f64> = TimesAndSalesView::new();
    v.push(entry(1, "6E"));
    assert_eq!(v.symbol, "6E");
    v.push(entry(2, ""));
    assert_eq!(v.symbol, "6E");
    assert_eq!(v.rows.len(), 2);
    assert_eq!(v.rows.rows()[0].size, 2);
    v.clear();
    assert_eq!(v.symbol, "");
    assert_eq!(v.rows.len(), 0);
}

#[test]
fn ticks_view_push_and_clear() {
    let mut v: TicksView<f64> = TicksView::new();
    for i in 0..600u64 {
        v.push(TicksEntry { time: String::new(), price: 1.5, size: i, side: TradeSide::BuyMarket, decimals: 5 });
    }
    assert_eq!(v.rows.len(), MAX_ROWS);
    assert_eq!(v.rows.rows()[0].size, 599);
    v.clear();
    assert_eq!(v.rows.len(), 0);
}
