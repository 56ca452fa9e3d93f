use vstd::prelude::*;
use crate::side::TradeSide;

verus! {

/// Colour of a trade's text: white for market trades, blue for pending buys,
/// red for pending sells, grey for mid-price trades.
#[derive(Debug, Clone, Copy, PartialEq, Eq, Structural)]
pub enum TextTone {
    Market,
    PendingBlue,
    PendingRed,
    Mid,
}

/// Background of a trade row.
#[derive(Debug, Clone, Copy, PartialEq, Eq, Structural)]
pub enum RowBackground {
    BuyGradient,
    SellGradient,
    Pending,
    Plain,
}

/// How a row of a trade tape is drawn. Where a `*_in_side_tone` flag is off
/// the cell takes the theme's colour instead of the side's.
#[derive(Debug, Clone, Copy, PartialEq, Eq, Structural)]
pub struct TradeRowStyle {
    pub background: RowBackground,
    pub text: TextTone,
    pub time_in_side_tone: bool,
    pub bold_price: bool,
    pub price_in_side_tone: bool,
    pub size_in_side_tone: bool,
}

pub open spec fn tone_of(side: TradeSide) -> TextTone {
    match side {
        TradeSide::BuyMarket => TextTone::Market,
        TradeSide::SellMarket => TextTone::Market,
        TradeSide::BuyPending => TextTone::PendingBlue,
        TradeSide::SellPending => TextTone::PendingRed,
        TradeSide::Mid => TextTone::Mid,
    }
}

pub open spec fn is_market(side: TradeSide) -> bool {
    side == TradeSide::BuyMarket || side == TradeSide::SellMarket
}

pub open spec fn is_pending(side: TradeSide) -> bool {
    side == TradeSide::BuyPending || side == TradeSide::SellPending
}

/// Text colour of a trade of the given side.
pub fn text_tone(side: TradeSide) -> (res: TextTone)
    ensures
        res == tone_of(side),
{
    match side {
        TradeSide::BuyMarket => TextTone::Market,
        TradeSide::SellMarket => TextTone::Market,
        TradeSide::BuyPending => TextTone::PendingBlue,
        TradeSide::SellPending => TextTone::PendingRed,
        TradeSide::Mid => TextTone::Mid,
    }
}

/// Row style of a trade: market buys and sells get their gradients, pending
/// trades the pending background, mid trades none; market and pending trades
/// show the time in the side's colour and the price in bold; only pending
/// trades colour price and size too.
pub fn trade_row_style(side: TradeSide) -> (res: TradeRowStyle)
    ensures
        res.background == match side {
            TradeSide::BuyMarket => RowBackground::BuyGradient,
            TradeSide::SellMarket => RowBackground::SellGradient,
            TradeSide::BuyPending => RowBackground::Pending,
            TradeSide::SellPending => RowBackground::Pending,
            TradeSide::Mid => RowBackground::Plain,
        },
        res.text == tone_of(side),
        res.time_in_side_tone == (is_market(side) || is_pending(side)),
        res.bold_price == (is_market(side) || is_pending(side)),
        res.price_in_side_tone == is_pending(side),
        res.size_in_side_tone == is_pending(side),
{
    let market = match side {
        TradeSide::BuyMarket | TradeSide::SellMarket => true,
        _ => false,
    };
    let pending = match side {
        TradeSide::BuyPending | TradeSide::SellPending => true,
        _ => false,
    };
    let background = match side {
        TradeSide::BuyMarket => RowBackground::BuyGradient,
        TradeSide::SellMarket => RowBackground::SellGradient,
        TradeSide::BuyPending | TradeSide::SellPending => RowBackground::Pending,
        TradeSide::Mid => RowBackground::Plain,
    };
    TradeRowStyle {
        background,
        text: text_tone(side),
        time_in_side_tone: market || pending,
        bold_price: market || pending,
        price_in_side_tone: pending,
        size_in_side_tone: pending,
    }
}

/// Digits after the decimal point with which a tape or quote strip prints a
/// price of a symbol shown with `decimals` decimals: two and three are kept,
/// anything else prints with five.
pub fn price_precision(decimals: usize) -> (res: usize)
    ensures
        res == (if decimals == 2 {
            2usize
        } else if decimals == 3 {
            3usize
        } else {
            5usize
        }),
{
    if decimals == 2 {
        2
    } else if decimals == 3 {
        3
    } else {
        5
    }
}

} // verus!
