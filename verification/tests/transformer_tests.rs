use acterminal::side::TradeSide;
use acterminal::transformer::{
    arrange_dom, get_decimals_for_symbol, needs_inversion, present_tick, quote_routing, tick_size_units, BookSide,
    LevelFacts, QuoteSource,
};

#[test]
fn inversion_and_decimals() {
    for s in ["6J", "6L", "6M", "6C", "6S"] {
        assert!(needs_inversion(s));
    }
    for s in ["6E", "6B", "6A", "6N", "", "6"] {
        assert!(!needs_inversion(s));
    }
    assert_eq!(get_decimals_for_symbol("6L"), 2);
    assert_eq!(get_decimals_for_symbol("6J"), 2);
    assert_eq!(get_decimals_for_symbol("6M"), 4);
    assert_eq!(get_decimals_for_symbol("6C"), 4);
    assert_eq!(get_decimals_for_symbol("6S"), 5);
    assert_eq!(get_decimals_for_symbol("6E"), 5);
}

#[test]
fn tick_sizes() {
    let ts = |s: &str| tick_size_units(s) as f64 / 100000.0;
    assert_eq!(ts("6L"), 0.5);
    assert_eq!(ts("6J"), 0.01);
    assert_eq!(ts("6M"), 0.0001);
    assert_eq!(ts("6C"), 0.0001);
    assert_eq!(ts("6S"), 0.00001);
    assert_eq!(ts("6E"), 0.00005);
}

#[test]
fn tick_presentation() {
    let p = present_tick(3_723_000 + 1_000_000_000_000, "BUY_MARKET", "6E");
    assert!(!p.inverted);
    assert_eq!(p.side, TradeSide::BuyMarket);
    assert_eq!(p.decimals, 5);
    let p = present_tick(3_725, "BUY_PENDING", "6J");
    assert!(p.inverted);
    assert_eq!(p.side, TradeSide::SellPending);
    assert_eq!(p.time, "01:02:05");
    assert_eq!(p.decimals, 2);
}

fn lv(size: bool, price: bool, key: u64) -> LevelFacts {
    LevelFacts { size_positive: size, price_positive: price, price_key: key }
}

#[test]
fn dom_for_normal_symbols_keeps_book_order() {
    let bids = vec![lv(true, true, 9), lv(false, true, 8), lv(true, false, 7)];
    let offers = vec![lv(true, true, 1), lv(true, true, 2)];
    let a = arrange_dom(&bids, &offers, "6E");
    assert_eq!(a.bids_from, BookSide::Bids);
    assert_eq!(a.bids, vec![0, 2]);
    assert_eq!(a.offers_from, BookSide::Offers);
    assert_eq!(a.offers, vec![0, 1]);
}

#[test]
fn dom_for_inverted_symbols_swaps_and_sorts() {
    let bids = vec![lv(true, true, 5), lv(true, true, 3), lv(true, false, 1), lv(true, true, 3), lv(false, true, 2)];
    let offers = vec![lv(true, true, 10), lv(true, true, 30), lv(true, true, 20), lv(true, true, 30)];
    let a = arrange_dom(&bids, &offers, "6J");
    assert_eq!(a.bids_from, BookSide::Offers);
    assert_eq!(a.bids, vec![1, 3, 2, 0]);
    assert_eq!(a.offers_from, BookSide::Bids);
    assert_eq!(a.offers, vec![1, 3, 0]);
    let prices = [1.0f64, 0.5, 0.25];
    let mut keyed: Vec<(u64, usize)> = prices.iter().enumerate().map(|(i, p)| (p.to_bits(), i)).collect();
    keyed.sort();
    assert_eq!(keyed.iter().map(|k| k.1).collect::<Vec<_>>(), vec![2, 1, 0]);
}

#[test]
fn quote_routes() {
    let n = quote_routing("6E");
    assert_eq!(n.bid, QuoteSource::Bid);
    assert_eq!(n.ask, QuoteSource::Offer);
    assert_eq!(n.high, QuoteSource::HighPrice);
    assert!(!n.invert_prices);
    let i = quote_routing("6L");
    assert_eq!(i.bid, QuoteSource::Offer);
    assert_eq!(i.ask, QuoteSource::Bid);
    assert_eq!(i.high, QuoteSource::LowPrice);
    assert_eq!(i.low, QuoteSource::HighPrice);
    assert_eq!(i.last, QuoteSource::Trade);
    assert_eq!(i.open, QuoteSource::OpeningPrice);
    assert_eq!(i.volume, QuoteSource::TotalTradeVolume);
    assert!(i.invert_prices);
}

#[test]
fn tick_is_whole_last_decimals() {
    for s in ["6L", "6J", "6M", "6C", "6S", "6E", "6B", "6A", "6N", "XX"] {
        let d = get_decimals_for_symbol(s) as u32;
        assert!(d <= 5);
        let unit = 10u64.pow(5 - d);
        let t = tick_size_units(s);
        assert_eq!(t % unit, 0, "{s}");
        assert!(t >= unit, "{s}");
    }
}
