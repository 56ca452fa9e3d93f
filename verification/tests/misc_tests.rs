use acterminal::chart::{chart_side, ChartSide, ChartType};
use acterminal::parse::{parse_i64, parse_timestamp};
use acterminal::simulator::SimCore;
use acterminal::state::{MarketDataState, MonitorTab};

#[test]
fn timestamps_parse_like_std() {
    let cases = [
        "1700000000000", " 1700000000000Z ", "42ZZZ", "-17", "+5", "", "Z", "12a", "2024-01-01T00:00:00Z", "9223372036854775807",
        "9223372036854775808", "-9223372036854775808", "-9223372036854775809", "00012", "-", "+", "\t7\n", "1 2", "\u{3000}8\u{2029}",
        "99999999999999999999999", "5Z ", "١٢",
    ];
    for c in cases {
        let expected = c.trim().trim_end_matches('Z').parse::<i64>().unwrap_or(0);
        assert_eq!(parse_timestamp(c), expected, "{:?}", c);
    }
    assert_eq!(parse_timestamp("1700000000000Z"), 1_700_000_000_000);
}

#[test]
fn integers_parse_like_std() {
    for c in ["0", "-0", "+0", "123", "-123", "1_000", " 1", "", "-", "18446744073709551616"] {
        assert_eq!(parse_i64(c), c.parse::<i64>().ok(), "{:?}", c);
    }
}

#[test]
fn tabs_from_index() {
    assert_eq!(MonitorTab::from_index(0), MonitorTab::OrderFlow);
    assert_eq!(MonitorTab::from_index(1), MonitorTab::Infos);
    assert_eq!(MonitorTab::from_index(2), MonitorTab::Settings);
    assert_eq!(MonitorTab::from_index(7), MonitorTab::OrderFlow);
    assert_eq!(MonitorTab::Settings.index(), 2);
}

#[test]
fn market_state_updates() {
    let mut s: MarketDataState<u32, &str, i8> = MarketDataState::new("6E");
    assert_eq!(s.get_symbol(), "6E");
    assert!(s.get_last_tick().is_none());
    s.update_tick(7);
    s.update_dom("dom");
    s.update_quote(-1);
    assert_eq!(*s.get_last_tick(), Some(7));
    assert_eq!(*s.get_last_dom(), Some("dom"));
    assert_eq!(*s.get_last_quote(), Some(-1));
    s.set_symbol("6J");
    assert_eq!(s.get_symbol(), "6J");
    s.clear();
    assert!(s.get_last_tick().is_none() && s.get_last_dom().is_none() && s.get_last_quote().is_none());
    assert_eq!(s.get_symbol(), "6J");
}

#[test]
fn chart_labels_and_sides() {
    assert_eq!(ChartType::Line.label(), "Line");
    assert_eq!(ChartType::Heatmap.label(), "Heatmap");
    assert_eq!(chart_side("BUY_PENDING"), Some(ChartSide::Buy));
    assert_eq!(chart_side("BUY_MARKET"), Some(ChartSide::Buy));
    assert_eq!(chart_side("SELL_MARKET"), Some(ChartSide::Sell));
    assert_eq!(chart_side("SELL_PENDING"), Some(ChartSide::Sell));
    assert_eq!(chart_side("MID_PRICE_TRADE"), None);
}

#[test]
fn simulator_trades_stay_in_band() {
    let before = std::time::SystemTime::now().duration_since(std::time::UNIX_EPOCH).unwrap().as_millis() as i64;
    let mut core = SimCore::new(368_100_000);
    assert!(core.base_timestamp >= before - 1000 && core.base_timestamp <= before + 60_000);
    assert_eq!(core.bid_price, 368_100_000 - 20);
    let mut seen_delta = std::collections::BTreeSet::new();
    let mut seen_choice = std::collections::BTreeSet::new();
    for i in 0..400 {
        let t = core.next_tick();
        assert_eq!(t.id, i + 1);
        assert!(t.s >= 1 && t.s <= 50);
        assert!(t.t >= 0 && t.t < 60_000);
        assert!((core.current_price - core.base_price).abs() <= 3);
        assert!(core.current_price - core.bid_price >= 15 && core.current_price - core.bid_price <= 25);
        assert!(core.ask_price - core.current_price >= 15 && core.ask_price - core.current_price <= 25);
        assert_eq!(t.b, core.bid_price - core.base_price);
        assert_eq!(t.a, core.ask_price - core.base_price);
        seen_delta.insert(core.current_price - core.base_price);
        seen_choice.insert(if t.tick_price == core.ask_price { 0 } else if t.tick_price == core.bid_price { 1 } else { 2 });
        assert_eq!(t.p, t.tick_price - core.base_price);
    }
    assert!(seen_delta.len() > 1);
    assert_eq!(seen_choice.len(), 3);
    assert_eq!(core.mid_price(), (core.bid_price + core.ask_price) / 2);
}

#[test]
fn parse_reads_back_decimal() {
    for n in [0u64, 7, 10, 20240131, 1_700_000_000_000, i64::MAX as u64] {
        assert_eq!(parse_i64(&n.to_string()), Some(n as i64));
    }
    assert_eq!(parse_i64(&(i64::MAX as u64 + 1).to_string()), None);
}

#[test]
fn simulated_book_levels() {
    let core = SimCore::new(368_100_000);
    let mid = core.mid_price();
    let (bids, offers) = core.dom_level_ticks();
    assert_eq!(bids.len(), 10);
    assert_eq!(offers.len(), 10);
    for l in 0..10 {
        assert_eq!(bids[l], mid - (l as i64 + 1));
        assert_eq!(offers[l], mid + (l as i64 + 1));
    }
}
