use vstd::prelude::*;
use crate::text::str_eq;

verus! {

/// Aggressor classification of a trade, as shown in the times-and-sales tape.
#[derive(Debug, Clone, Copy, PartialEq, Eq, Structural)]
pub enum TradeSide {
    BuyMarket,
    SellMarket,
    BuyPending,
    SellPending,
    Mid,
}

/// The side a textual label denotes; unknown labels denote `Mid`.
pub open spec fn side_of_label(s: Seq<char>) -> TradeSide {
    if s == "BUY_MARKET"@ {
        TradeSide::BuyMarket
    } else if s == "SELL_MARKET"@ {
        TradeSide::SellMarket
    } else if s == "BUY_PENDING"@ {
        TradeSide::BuyPending
    } else if s == "SELL_PENDING"@ {
        TradeSide::SellPending
    } else {
        TradeSide::Mid
    }
}

impl TradeSide {
    /// Parses a side label as produced by the tick processor.
    pub fn from_str(s: &str) -> (res: TradeSide)
        ensures
            res == side_of_label(s@),
    {
        if str_eq(s, "BUY_MARKET") {
            TradeSide::BuyMarket
        } else if str_eq(s, "SELL_MARKET") {
            TradeSide::SellMarket
        } else if str_eq(s, "BUY_PENDING") {
            TradeSide::BuyPending
        } else if str_eq(s, "SELL_PENDING") {
            TradeSide::SellPending
        } else {
            TradeSide::Mid
        }
    }
}


/// The label the tick processor writes for each side.
pub open spec fn label_of_side(side: TradeSide) -> Seq<char> {
    match side {
        TradeSide::BuyMarket => "BUY_MARKET"@,
        TradeSide::SellMarket => "SELL_MARKET"@,
        TradeSide::BuyPending => "BUY_PENDING"@,
        TradeSide::SellPending => "SELL_PENDING"@,
        TradeSide::Mid => "MID_PRICE_TRADE"@,
    }
}

/// The side as seen from the other currency of the pair: buys become sells.
pub open spec fn inverted(side: TradeSide) -> TradeSide {
    match side {
        TradeSide::BuyMarket => TradeSide::SellMarket,
        TradeSide::SellMarket => TradeSide::BuyMarket,
        TradeSide::BuyPending => TradeSide::SellPending,
        TradeSide::SellPending => TradeSide::BuyPending,
        TradeSide::Mid => TradeSide::Mid,
    }
}

/// The label of a side, as written into processed tick records.
pub fn side_label(side: TradeSide) -> (res: &'static str)
    ensures
        res@ == label_of_side(side),
{
    match side {
        TradeSide::BuyMarket => "BUY_MARKET",
        TradeSide::SellMarket => "SELL_MARKET",
        TradeSide::BuyPending => "BUY_PENDING",
        TradeSide::SellPending => "SELL_PENDING",
        TradeSide::Mid => "MID_PRICE_TRADE",
    }
}

/// For inverted symbols the buy/sell perspective flips.
pub fn invert_side(side: TradeSide) -> (res: TradeSide)
    ensures
        res == inverted(side),
{
    match side {
        TradeSide::BuyMarket => TradeSide::SellMarket,
        TradeSide::SellMarket => TradeSide::BuyMarket,
        TradeSide::BuyPending => TradeSide::SellPending,
        TradeSide::SellPending => TradeSide::BuyPending,
        TradeSide::Mid => TradeSide::Mid,
    }
}

/// Inverting twice gives the side back.
pub proof fn lemma_invert_side_involution(side: TradeSide)
    ensures
        inverted(inverted(side)) == side,
{
}

/// Parsing the label written for a side gives that side back.
pub proof fn lemma_label_roundtrip(side: TradeSide)
    ensures
        side_of_label(label_of_side(side)) == side,
{
    reveal_strlit("BUY_MARKET");
    reveal_strlit("SELL_MARKET");
    reveal_strlit("BUY_PENDING");
    reveal_strlit("SELL_PENDING");
    reveal_strlit("MID_PRICE_TRADE");
    assert("BUY_MARKET"@[0] != "SELL_MARKET"@[0]);
    assert("BUY_MARKET"@.len() != "BUY_PENDING"@.len());
    assert("BUY_MARKET"@[0] != "SELL_PENDING"@[0]);
    assert("BUY_MARKET"@[0] != "MID_PRICE_TRADE"@[0]);
    assert("SELL_MARKET"@[0] != "BUY_PENDING"@[0]);
    assert("SELL_MARKET"@.len() != "SELL_PENDING"@.len());
    assert("SELL_MARKET"@[0] != "MID_PRICE_TRADE"@[0]);
    assert("BUY_PENDING"@[0] != "SELL_PENDING"@[0]);
    assert("BUY_PENDING"@[0] != "MID_PRICE_TRADE"@[0]);
    assert("SELL_PENDING"@[0] != "MID_PRICE_TRADE"@[0]);
}

} // verus!
