use vstd::prelude::*;
use crate::text::str_eq;

verus! {

/// Kind of order-book chart.
#[derive(Debug, Clone, Copy, PartialEq, Eq, Structural)]
pub enum ChartType {
    Line,
    Heatmap,
}

impl ChartType {
    /// Name shown for the chart type.
    pub fn label(&self) -> (res: &'static str)
        ensures
            res@ == match *self {
                ChartType::Line => "Line"@,
                ChartType::Heatmap => "Heatmap"@,
            },
    {
        match self {
            ChartType::Line => "Line",
            ChartType::Heatmap => "Heatmap",
        }
    }
}

/// Aggressor side of a charted trade.
#[derive(Debug, Clone, Copy, PartialEq, Eq, Structural)]
pub enum ChartSide {
    Buy,
    Sell,
}

/// Side of a resting order in a heat-map level.
#[derive(Debug, Clone, Copy, PartialEq, Eq, Structural)]
pub enum OrderSide {
    Bid,
    Ask,
}

/// Chart side of a trade label: market and pending buys are buys, market and
/// pending sells are sells, anything else has no side.
pub open spec fn chart_side_of_label(label: Seq<char>) -> Option<ChartSide> {
    if label == "BUY_MARKET"@ || label == "BUY_PENDING"@ {
        Some(ChartSide::Buy)
    } else if label == "SELL_MARKET"@ || label == "SELL_PENDING"@ {
        Some(ChartSide::Sell)
    } else {
        None
    }
}

/// Chart side of a processed trade's side label.
pub fn chart_side(label: &str) -> (res: Option<ChartSide>)
    ensures
        res == chart_side_of_label(label@),
{
    if str_eq(label, "BUY_MARKET") || str_eq(label, "BUY_PENDING") {
        Some(ChartSide::Buy)
    } else if str_eq(label, "SELL_MARKET") || str_eq(label, "SELL_PENDING") {
        Some(ChartSide::Sell)
    } else {
        None
    }
}

} // verus!
