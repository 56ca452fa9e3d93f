use acterminal::side::{invert_side, side_label, TradeSide};

const ALL: [TradeSide; 5] = [
    TradeSide::BuyMarket,
    TradeSide::SellMarket,
    TradeSide::BuyPending,
    TradeSide::SellPending,
    TradeSide::Mid,
];

#[test]
fn labels_parse_to_sides() {
    assert_eq!(TradeSide::from_str("BUY_MARKET"), TradeSide::BuyMarket);
    assert_eq!(TradeSide::from_str("SELL_MARKET"), TradeSide::SellMarket);
    assert_eq!(TradeSide::from_str("BUY_PENDING"), TradeSide::BuyPending);
    assert_eq!(TradeSide::from_str("SELL_PENDING"), TradeSide::SellPending);
    assert_eq!(TradeSide::from_str("MID_PRICE_TRADE"), TradeSide::Mid);
    assert_eq!(TradeSide::from_str(""), TradeSide::Mid);
    assert_eq!(TradeSide::from_str("buy_market"), TradeSide::Mid);
}

#[test]
fn label_roundtrip() {
    for s in ALL {
        assert_eq!(TradeSide::from_str(side_label(s)), s);
    }
    assert_eq!(side_label(TradeSide::Mid), "MID_PRICE_TRADE");
}

#[test]
fn inversion_swaps_and_is_involutive() {
    assert_eq!(invert_side(TradeSide::BuyMarket), TradeSide::SellMarket);
    assert_eq!(invert_side(TradeSide::SellPending), TradeSide::BuyPending);
    assert_eq!(invert_side(TradeSide::Mid), TradeSide::Mid);
    for s in ALL {
        assert_eq!(invert_side(invert_side(s)), s);
    }
}
