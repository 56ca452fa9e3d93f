use acterminal::row_style::{price_precision, text_tone, trade_row_style, RowBackground, TextTone, TradeRowStyle};
use acterminal::side::TradeSide;

#[test]
fn tones_by_side() {
    assert_eq!(text_tone(TradeSide::BuyMarket), TextTone::Market);
    assert_eq!(text_tone(TradeSide::SellMarket), TextTone::Market);
    assert_eq!(text_tone(TradeSide::BuyPending), TextTone::PendingBlue);
    assert_eq!(text_tone(TradeSide::SellPending), TextTone::PendingRed);
    assert_eq!(text_tone(TradeSide::Mid), TextTone::Mid);
}

#[test]
fn row_styles() {
    assert_eq!(
        trade_row_style(TradeSide::BuyMarket),
        TradeRowStyle {
            background: RowBackground::BuyGradient,
            text: TextTone::Market,
            time_in_side_tone: true,
            bold_price: true,
            price_in_side_tone: false,
            size_in_side_tone: false,
        }
    );
    assert_eq!(trade_row_style(TradeSide::SellMarket).background, RowBackground::SellGradient);
    let pending = trade_row_style(TradeSide::SellPending);
    assert_eq!(pending.background, RowBackground::Pending);
    assert!(pending.price_in_side_tone && pending.size_in_side_tone && pending.bold_price);
    let mid = trade_row_style(TradeSide::Mid);
    assert_eq!(mid.background, RowBackground::Plain);
    assert!(!mid.time_in_side_tone && !mid.bold_price && !mid.price_in_side_tone);
}

#[test]
fn precision_of_prices() {
    assert_eq!(price_precision(2), 2);
    assert_eq!(price_precision(3), 3);
    assert_eq!(price_precision(4), 5);
    assert_eq!(price_precision(5), 5);
    assert_eq!(price_precision(0), 5);
}
