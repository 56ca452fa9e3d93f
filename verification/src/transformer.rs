use vstd::prelude::*;
use vstd::string::*;
use crate::format::{tick_time_label, time_label};
use crate::side::{TradeSide, side_of_label, inverted, invert_side};
use crate::sorting::{SortKey, comes_before, stable_sort_indices, is_sorted_order, contains_index};
use crate::text::str_eq;

verus! {

/// CME symbols quoted as USD per unit of the other currency; they are shown
/// inverted to match the Forex convention.
pub open spec fn inverted_symbol(symbol: Seq<char>) -> bool {
    symbol == "6J"@ || symbol == "6L"@ || symbol == "6M"@ || symbol == "6C"@ || symbol == "6S"@
}

/// Whether prices of `symbol` are inverted for display.
pub fn needs_inversion(symbol: &str) -> (res: bool)
    ensures
        res == inverted_symbol(symbol@),
{
    str_eq(symbol, "6J") || str_eq(symbol, "6L") || str_eq(symbol, "6M") || str_eq(symbol, "6C")
        || str_eq(symbol, "6S")
}

/// Decimal places shown for prices of `symbol` after inversion.
pub open spec fn decimals_of(symbol: Seq<char>) -> usize {
    if symbol == "6L"@ || symbol == "6J"@ {
        2
    } else if symbol == "6M"@ || symbol == "6C"@ {
        4
    } else {
        5
    }
}

/// Decimal places for price display after inversion.
pub fn get_decimals_for_symbol(symbol: &str) -> (res: usize)
    ensures
        res == decimals_of(symbol@),
{
    if str_eq(symbol, "6L") {
        2
    } else if str_eq(symbol, "6J") {
        2
    } else if str_eq(symbol, "6M") {
        4
    } else if str_eq(symbol, "6C") {
        4
    } else if str_eq(symbol, "6S") {
        5
    } else {
        5
    }
}

/// DOM ladder tick size of `symbol`, in hundred-thousandths of a price unit
/// (R$0.50 for 6L, 0.01 for 6J, 0.0001 for 6M and 6C, 0.00001 for 6S,
/// 0.00005 otherwise).
pub open spec fn tick_size_units_of(symbol: Seq<char>) -> u64 {
    if symbol == "6L"@ {
        50_000
    } else if symbol == "6J"@ {
        1_000
    } else if symbol == "6M"@ || symbol == "6C"@ {
        10
    } else if symbol == "6S"@ {
        1
    } else {
        5
    }
}

/// Tick size used for DOM ladder spacing, in hundred-thousandths.
pub fn tick_size_units(symbol: &str) -> (res: u64)
    ensures
        res == tick_size_units_of(symbol@),
{
    if str_eq(symbol, "6L") {
        50_000
    } else if str_eq(symbol, "6J") {
        1_000
    } else if str_eq(symbol, "6M") {
        10
    } else if str_eq(symbol, "6C") {
        10
    } else if str_eq(symbol, "6S") {
        1
    } else {
        5
    }
}

/// Hundred-thousandths in one unit of the `decimals`-th decimal place
/// (`10^(5 - decimals)`, for at most five decimals).
pub open spec fn last_decimal_units(decimals: usize) -> nat {
    if decimals == 0 {
        100_000
    } else if decimals == 1 {
        10_000
    } else if decimals == 2 {
        1_000
    } else if decimals == 3 {
        100
    } else if decimals == 4 {
        10
    } else {
        1
    }
}

/// One ladder tick of a symbol is a whole, nonzero number of units of the
/// last decimal shown for it, so adjacent DOM levels print distinctly.
pub proof fn lemma_tick_size_whole_last_decimals(symbol: Seq<char>)
    ensures
        decimals_of(symbol) <= 5,
        (tick_size_units_of(symbol) as nat) % last_decimal_units(decimals_of(symbol)) == 0,
        tick_size_units_of(symbol) >= last_decimal_units(decimals_of(symbol)),
{
}

/// Ladder tick sizes: every symbol shown as quoted (not inverted) steps by
/// the futures tick of 0.00005; the inverted ones step by exactly one unit of
/// their last displayed decimal, except 6L, which steps by the WDO tick of
/// R$0.50 and shows cents (prices ending in .00 or .50).
pub proof fn lemma_tick_sizes(symbol: Seq<char>)
    ensures
        !inverted_symbol(symbol) ==> tick_size_units_of(symbol) == 5,
        inverted_symbol(symbol) && symbol != "6L"@ ==> tick_size_units_of(symbol) as nat
            == last_decimal_units(decimals_of(symbol)),
        symbol == "6L"@ ==> tick_size_units_of(symbol) == 50_000 && decimals_of(symbol) == 2,
        !inverted_symbol(symbol) ==> decimals_of(symbol) == 5,
{
    reveal_strlit("6L");
    reveal_strlit("6J");
    reveal_strlit("6M");
    reveal_strlit("6C");
    reveal_strlit("6S");
    assert("6L"@[1] == 'L' && "6J"@[1] == 'J' && "6M"@[1] == 'M' && "6C"@[1] == 'C' && "6S"@[1] == 'S');
}

/// How a trade is shown: time label, side from the terminal's perspective,
/// decimals, and whether prices are inverted (in which case the displayed bid
/// comes from the CME ask and the displayed ask from the CME bid).
pub struct TickPresentation {
    pub time: String,
    pub side: TradeSide,
    pub decimals: usize,
    pub inverted: bool,
}

/// Presentation of a trade of `symbol` at `time` with the given side label.
pub fn present_tick(time: i64, side: &str, symbol: &str) -> (res: TickPresentation)
    ensures
        res.time@ == time_label(time as int),
        res.decimals == decimals_of(symbol@),
        res.inverted == inverted_symbol(symbol@),
        res.side == if inverted_symbol(symbol@) {
            inverted(side_of_label(side@))
        } else {
            side_of_label(side@)
        },
{
    let decimals = get_decimals_for_symbol(symbol);
    let label = tick_time_label(time);
    let raw_side = TradeSide::from_str(side);
    let inv = needs_inversion(symbol);
    let side = if inv {
        invert_side(raw_side)
    } else {
        raw_side
    };
    TickPresentation { time: label, side, decimals, inverted: inv }
}

/// What the DOM ordering needs to know of a level: whether its size and its
/// raw price are positive, and a key that orders levels by displayed price
/// (for non-negative prices, the bit pattern of the `f64`).
#[derive(Debug, Clone, Copy, PartialEq, Eq, Structural)]
pub struct LevelFacts {
    pub size_positive: bool,
    pub price_positive: bool,
    pub price_key: u64,
}

/// Which side of the raw book a displayed side is read from.
#[derive(Debug, Clone, Copy, PartialEq, Eq, Structural)]
pub enum BookSide {
    Bids,
    Offers,
}

/// Displayed DOM: for each displayed side, the raw side it is read from and
/// the indices of the raw levels shown, top of book first.
pub struct DomArrangement {
    pub bids_from: BookSide,
    pub bids: Vec<usize>,
    pub offers_from: BookSide,
    pub offers: Vec<usize>,
}

/// Whether a level is shown: it must carry size, and for inverted symbols a
/// positive price as well.
pub open spec fn shown(l: LevelFacts, invert: bool) -> bool {
    l.size_positive && (!invert || l.price_positive)
}

pub open spec fn level_keys(levels: Seq<LevelFacts>) -> Seq<SortKey> {
    levels.map_values(|l: LevelFacts| SortKey::Num(l.price_key))
}

/// `res` lists exactly the shown levels of `levels`, each once. With `sorted`
/// they are ordered by price key (descending when `descending`, equal keys in
/// book order); without, in book order.
pub open spec fn lists_shown_levels(
    levels: Seq<LevelFacts>,
    invert: bool,
    sorted: bool,
    descending: bool,
    res: Seq<usize>,
) -> bool {
    &&& forall|i: int| 0 <= i < res.len() ==> #[trigger] res[i] < levels.len()
    &&& forall|i: int| 0 <= i < res.len() ==> shown(levels[#[trigger] res[i] as int], invert)
    &&& forall|k: int|
        0 <= k < levels.len() && shown(#[trigger] levels[k], invert) ==> exists|i: int|
            0 <= i < res.len() && res[i] == k
    &&& if sorted {
        is_sorted_order(level_keys(levels), descending, res, levels.len() as int)
    } else {
        forall|i: int, j: int| 0 <= i < j < res.len() ==> #[trigger] res[i] < #[trigger] res[j]
    }
}

fn shown_levels(levels: &Vec<LevelFacts>, invert: bool) -> (res: Vec<usize>)
    ensures
        lists_shown_levels(levels@, invert, false, false, res@),
{
    let mut r: Vec<usize> = Vec::new();
    let mut i: usize = 0;
    while i < levels.len()
        invariant
            i <= levels@.len(),
            forall|a: int| 0 <= a < r@.len() ==> #[trigger] r@[a] < i,
            forall|a: int| 0 <= a < r@.len() ==> shown(levels@[#[trigger] r@[a] as int], invert),
            forall|k: int|
                0 <= k < i && shown(#[trigger] levels@[k], invert) ==> exists|a: int|
                    0 <= a < r@.len() && r@[a] == k,
            forall|a: int, b: int| 0 <= a < b < r@.len() ==> #[trigger] r@[a] < #[trigger] r@[b],
        decreases levels@.len() - i,
    {
        let l = levels[i];
        if l.size_positive && (!invert || l.price_positive) {
            let ghost before = r@;
            r.push(i);
            assert forall|k: int|
                0 <= k < i + 1 && shown(#[trigger] levels@[k], invert) implies exists|a: int|
                    0 <= a < r@.len() && r@[a] == k by {
                if k < i {
                    let a = choose|a: int| 0 <= a < before.len() && before[a] == k;
                    assert(r@[a] == k);
                } else {
                    assert(r@[before.len() as int] == k);
                }
            }
        }
        i = i + 1;
    }
    r
}

fn sorted_shown_levels(levels: &Vec<LevelFacts>, invert: bool, descending: bool) -> (res: Vec<usize>)
    ensures
        lists_shown_levels(levels@, invert, true, descending, res@),
{
    let fil = shown_levels(levels, invert);
    let mut keys: Vec<SortKey> = Vec::new();
    let mut p: usize = 0;
    while p < fil.len()
        invariant
            p <= fil@.len(),
            lists_shown_levels(levels@, invert, false, false, fil@),
            keys@.len() == p,
            forall|q: int| 0 <= q < p ==> #[trigger] keys@[q] == SortKey::Num(levels@[fil@[q] as int].price_key),
        decreases fil@.len() - p,
    {
        keys.push(SortKey::Num(levels[fil[p]].price_key));
        p = p + 1;
    }
    let perm = stable_sort_indices(&keys, descending);
    let mut res: Vec<usize> = Vec::new();
    let mut j: usize = 0;
    while j < perm.len()
        invariant
            j <= perm@.len(),
            perm@.len() == fil@.len(),
            is_sorted_order(keys@, descending, perm@, fil@.len() as int),
            forall|k: int| 0 <= k < fil@.len() ==> #[trigger] contains_index(perm@, k),
            res@.len() == j,
            forall|a: int| 0 <= a < j ==> #[trigger] res@[a] == fil@[perm@[a] as int],
        decreases perm@.len() - j,
    {
        res.push(fil[perm[j]]);
        j = j + 1;
    }
    let ghost lk = level_keys(levels@);
    assert forall|a: int| 0 <= a < res@.len() implies #[trigger] res@[a] < levels@.len() by {
        assert(perm@[a] < fil@.len());
    }
    assert forall|a: int| 0 <= a < res@.len() implies shown(levels@[#[trigger] res@[a] as int], invert) by {
        assert(perm@[a] < fil@.len());
    }
    assert forall|a: int, b: int| 0 <= a < b < res@.len() implies #[trigger] res@[a] != #[trigger] res@[b] by {
        let pa = perm@[a] as int;
        let pb = perm@[b] as int;
        assert(pa != pb);
        if pa < pb {
            assert(fil@[pa] < fil@[pb]);
        } else {
            assert(fil@[pb] < fil@[pa]);
        }
    }
    assert forall|a: int, b: int| 0 <= a < b < res@.len() implies comes_before(lk, descending, #[trigger] res@[a] as int, #[trigger] res@[b] as int) by {
        let pa = perm@[a] as int;
        let pb = perm@[b] as int;
        assert(comes_before(keys@, descending, pa, pb));
        assert(lk[res@[a] as int] == keys@[pa]);
        assert(lk[res@[b] as int] == keys@[pb]);
        if pa < pb {
            assert(fil@[pa] < fil@[pb]);
        } else if pb < pa {
            assert(fil@[pb] < fil@[pa]);
        }
    }
    assert forall|k: int|
        0 <= k < levels@.len() && shown(#[trigger] levels@[k], invert) implies exists|i: int|
            0 <= i < res@.len() && res@[i] == k by {
        let q = choose|q: int| 0 <= q < fil@.len() && fil@[q] == k;
        assert(contains_index(perm@, q));
        let a = choose|a: int| 0 <= a < perm@.len() && perm@[a] == q;
        assert(res@[a] == k);
    }
    res
}


/// Displayed layout of a DOM snapshot of `symbol`. For inverted symbols the
/// CME offers become the displayed bids, sorted by displayed price from the
/// highest, and the CME bids become the displayed offers, sorted from the
/// lowest; only levels with positive size and price are shown. Otherwise each
/// side keeps its levels with positive size, in book order.
pub fn arrange_dom(bids: &Vec<LevelFacts>, offers: &Vec<LevelFacts>, symbol: &str) -> (res:
    DomArrangement)
    ensures
        inverted_symbol(symbol@) ==> {
            &&& res.bids_from == BookSide::Offers
            &&& lists_shown_levels(offers@, true, true, true, res.bids@)
            &&& res.offers_from == BookSide::Bids
            &&& lists_shown_levels(bids@, true, true, false, res.offers@)
        },
        !inverted_symbol(symbol@) ==> {
            &&& res.bids_from == BookSide::Bids
            &&& lists_shown_levels(bids@, false, false, false, res.bids@)
            &&& res.offers_from == BookSide::Offers
            &&& lists_shown_levels(offers@, false, false, false, res.offers@)
        },
{
    if needs_inversion(symbol) {
        let new_bids = sorted_shown_levels(offers, true, true);
        let new_offers = sorted_shown_levels(bids, true, false);
        DomArrangement {
            bids_from: BookSide::Offers,
            bids: new_bids,
            offers_from: BookSide::Bids,
            offers: new_offers,
        }
    } else {
        let new_bids = shown_levels(bids, false);
        let new_offers = shown_levels(offers, false);
        DomArrangement {
            bids_from: BookSide::Bids,
            bids: new_bids,
            offers_from: BookSide::Offers,
            offers: new_offers,
        }
    }
}

/// Entry of a raw quote that a displayed quote field is read from.
#[derive(Debug, Clone, Copy, PartialEq, Eq, Structural)]
pub enum QuoteSource {
    Bid,
    Offer,
    Trade,
    LowPrice,
    HighPrice,
    OpeningPrice,
    TotalTradeVolume,
}

/// Where each displayed quote field comes from, and whether its price is
/// inverted (the volume is a size and is never inverted).
#[derive(Debug, Clone, Copy, PartialEq, Eq, Structural)]
pub struct QuoteRouting {
    pub bid: QuoteSource,
    pub ask: QuoteSource,
    pub last: QuoteSource,
    pub high: QuoteSource,
    pub low: QuoteSource,
    pub open: QuoteSource,
    pub volume: QuoteSource,
    pub invert_prices: bool,
}

/// For inverted symbols bid and ask swap (the CME offer is the Forex bid)
/// and so do high and low; open, last and volume keep their entries.
pub open spec fn routing_of(invert: bool) -> QuoteRouting {
    if invert {
        QuoteRouting {
            bid: QuoteSource::Offer,
            ask: QuoteSource::Bid,
            last: QuoteSource::Trade,
            high: QuoteSource::LowPrice,
            low: QuoteSource::HighPrice,
            open: QuoteSource::OpeningPrice,
            volume: QuoteSource::TotalTradeVolume,
            invert_prices: true,
        }
    } else {
        QuoteRouting {
            bid: QuoteSource::Bid,
            ask: QuoteSource::Offer,
            last: QuoteSource::Trade,
            high: QuoteSource::HighPrice,
            low: QuoteSource::LowPrice,
            open: QuoteSource::OpeningPrice,
            volume: QuoteSource::TotalTradeVolume,
            invert_prices: false,
        }
    }
}

/// How a quote of `symbol` is displayed.
pub fn quote_routing(symbol: &str) -> (res: QuoteRouting)
    ensures
        res == routing_of(inverted_symbol(symbol@)),
{
    if needs_inversion(symbol) {
        QuoteRouting {
            bid: QuoteSource::Offer,
            ask: QuoteSource::Bid,
            last: QuoteSource::Trade,
            high: QuoteSource::LowPrice,
            low: QuoteSource::HighPrice,
            open: QuoteSource::OpeningPrice,
            volume: QuoteSource::TotalTradeVolume,
            invert_prices: true,
        }
    } else {
        QuoteRouting {
            bid: QuoteSource::Bid,
            ask: QuoteSource::Offer,
            last: QuoteSource::Trade,
            high: QuoteSource::HighPrice,
            low: QuoteSource::LowPrice,
            open: QuoteSource::OpeningPrice,
            volume: QuoteSource::TotalTradeVolume,
            invert_prices: false,
        }
    }
}

/// Inverting a symbol's view swaps the entries feeding bid and ask, and those
/// feeding high and low, and leaves last, open and volume alone.
pub proof fn lemma_inverted_routing_swaps_sides()
    ensures
        routing_of(true).bid == routing_of(false).ask,
        routing_of(true).ask == routing_of(false).bid,
        routing_of(true).high == routing_of(false).low,
        routing_of(true).low == routing_of(false).high,
        routing_of(true).last == routing_of(false).last,
        routing_of(true).open == routing_of(false).open,
        routing_of(true).volume == routing_of(false).volume,
{
}

/// Among the symbols offered, exactly those whose display name starts with
/// "USD" (USD per unit of the other currency) are inverted.
pub proof fn lemma_inverted_iff_usd_base(i: int)
    requires
        0 <= i < crate::symbols::available_codes().len(),
    ensures
        inverted_symbol(crate::symbols::available_codes()[i]) <==> ({
            let d = crate::symbols::display_name_of(crate::symbols::available_codes()[i]);
            d.len() >= 3 && d.subrange(0, 3) == "USD"@
        }),
{
    reveal_strlit("USD");
    assert("USD"@.len() == 3 && "USD"@[0] == 'U' && "USD"@[1] == 'S' && "USD"@[2] == 'D');
    reveal_strlit("6L");
    assert("6L"@.len() == 2 && "6L"@[1] == 'L');
    reveal_strlit("6E");
    assert("6E"@.len() == 2 && "6E"@[1] == 'E');
    reveal_strlit("6A");
    assert("6A"@.len() == 2 && "6A"@[1] == 'A');
    reveal_strlit("6B");
    assert("6B"@.len() == 2 && "6B"@[1] == 'B');
    reveal_strlit("6C");
    assert("6C"@.len() == 2 && "6C"@[1] == 'C');
    reveal_strlit("6J");
    assert("6J"@.len() == 2 && "6J"@[1] == 'J');
    reveal_strlit("6S");
    assert("6S"@.len() == 2 && "6S"@[1] == 'S');
    reveal_strlit("6M");
    assert("6M"@.len() == 2 && "6M"@[1] == 'M');
    reveal_strlit("6N");
    assert("6N"@.len() == 2 && "6N"@[1] == 'N');
    reveal_strlit("EURUSD");
    assert("EURUSD"@.len() == 6 && "EURUSD"@[0] == 'E' && "EURUSD"@[1] == 'U' && "EURUSD"@[2] == 'R');
    assert("EURUSD"@.subrange(0, 3)[0] != "USD"@[0]);
    reveal_strlit("GBPUSD");
    assert("GBPUSD"@.len() == 6 && "GBPUSD"@[0] == 'G' && "GBPUSD"@[1] == 'B' && "GBPUSD"@[2] == 'P');
    assert("GBPUSD"@.subrange(0, 3)[0] != "USD"@[0]);
    reveal_strlit("AUDUSD");
    assert("AUDUSD"@.len() == 6 && "AUDUSD"@[0] == 'A' && "AUDUSD"@[1] == 'U' && "AUDUSD"@[2] == 'D');
    assert("AUDUSD"@.subrange(0, 3)[0] != "USD"@[0]);
    reveal_strlit("NZDUSD");
    assert("NZDUSD"@.len() == 6 && "NZDUSD"@[0] == 'N' && "NZDUSD"@[1] == 'Z' && "NZDUSD"@[2] == 'D');
    assert("NZDUSD"@.subrange(0, 3)[0] != "USD"@[0]);
    reveal_strlit("USDBRL");
    assert("USDBRL"@.len() == 6 && "USDBRL"@[0] == 'U' && "USDBRL"@[1] == 'S' && "USDBRL"@[2] == 'D');
    assert("USDBRL"@.subrange(0, 3) =~= "USD"@);
    reveal_strlit("USDJPY");
    assert("USDJPY"@.len() == 6 && "USDJPY"@[0] == 'U' && "USDJPY"@[1] == 'S' && "USDJPY"@[2] == 'D');
    assert("USDJPY"@.subrange(0, 3) =~= "USD"@);
    reveal_strlit("USDCAD");
    assert("USDCAD"@.len() == 6 && "USDCAD"@[0] == 'U' && "USDCAD"@[1] == 'S' && "USDCAD"@[2] == 'D');
    assert("USDCAD"@.subrange(0, 3) =~= "USD"@);
    reveal_strlit("USDCHF");
    assert("USDCHF"@.len() == 6 && "USDCHF"@[0] == 'U' && "USDCHF"@[1] == 'S' && "USDCHF"@[2] == 'D');
    assert("USDCHF"@.subrange(0, 3) =~= "USD"@);
    reveal_strlit("USDMXN");
    assert("USDMXN"@.len() == 6 && "USDMXN"@[0] == 'U' && "USDMXN"@[1] == 'S' && "USDMXN"@[2] == 'D');
    assert("USDMXN"@.subrange(0, 3) =~= "USD"@);
}

} // verus!
