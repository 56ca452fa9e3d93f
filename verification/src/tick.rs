use vstd::prelude::*;
use crate::side::TradeSide;

verus! {

/// One trade of a tick packet, with prices and times relative to the packet's
/// base price and base timestamp (all prices in integer tick units).
#[derive(Debug, Clone, Copy, PartialEq, Eq, Structural)]
pub struct Tick {
    pub time: i64,
    pub price: i64,
    pub size: u64,
    pub bid: Option<i64>,
    pub ask: Option<i64>,
    pub tick_id: i64,
}

/// A packet of trades sharing a base price and a base timestamp.
/// `eoh` marks an end-of-history packet, which carries no live trades.
#[derive(Debug)]
pub struct TickPacket {
    pub id: i64,
    pub base_price: i64,
    pub base_timestamp: i64,
    pub ticks: Vec<Tick>,
    pub eoh: bool,
}

/// A trade after classification, with absolute prices in tick units.
#[derive(Debug, Clone, Copy, PartialEq, Eq, Structural)]
pub struct ClassifiedTick {
    pub id: i64,
    pub time: i64,
    pub price_ticks: i64,
    pub size: u64,
    pub side: TradeSide,
    pub bid_ticks: i64,
    pub ask_ticks: i64,
}

/// What the classifier remembers between trades: the last trade price, the last
/// known best bid and best ask (all in ticks, 0 meaning "unknown") and the
/// direction code of the last trade (1 buy, -1 sell, 2 buy pending,
/// -2 sell pending, 0 mid).
#[derive(Debug, Clone, Copy, PartialEq, Eq, Structural)]
pub struct TickState {
    pub last_price_ticks: i64,
    pub last_bid_ticks: i64,
    pub last_ask_ticks: i64,
    pub last_direction: i8,
}

/// The state in which nothing has been seen yet.
pub open spec fn initial_state() -> TickState {
    TickState { last_price_ticks: 0, last_bid_ticks: 0, last_ask_ticks: 0, last_direction: 0 }
}

/// The direction code the classifier stores for a side.
pub open spec fn direction_code(side: TradeSide) -> i8 {
    match side {
        TradeSide::BuyMarket => 1i8,
        TradeSide::SellMarket => -1i8,
        TradeSide::BuyPending => 2,
        TradeSide::SellPending => -2i8,
        TradeSide::Mid => 0,
    }
}

/// Side of a trade at `trade` ticks, given the state and the current best bid
/// and ask. With a previous trade, an uptick is a market buy, a downtick a
/// market sell, and a repeat of the price keeps the buy or sell pressure as a
/// pending side. Without one, the trade is compared with the quotes.
pub open spec fn classify(s: TickState, trade: int, bid: int, ask: int) -> TradeSide {
    if s.last_price_ticks > 0 {
        if trade > s.last_price_ticks {
            TradeSide::BuyMarket
        } else if trade < s.last_price_ticks {
            TradeSide::SellMarket
        } else if s.last_direction == 1 || s.last_direction == 2 {
            TradeSide::BuyPending
        } else if s.last_direction == -1 || s.last_direction == -2 {
            TradeSide::SellPending
        } else {
            TradeSide::Mid
        }
    } else if ask > 0 && trade >= ask {
        TradeSide::BuyMarket
    } else if bid > 0 && trade <= bid {
        TradeSide::SellMarket
    } else {
        TradeSide::Mid
    }
}

/// Every absolute value that processing `tk` computes fits in an `i64`.
pub open spec fn tick_fits(base_price: i64, base_time: i64, tk: Tick) -> bool {
    &&& i64::MIN <= base_price + tk.price <= i64::MAX
    &&& i64::MIN <= base_time + tk.time <= i64::MAX
    &&& (tk.bid matches Some(b) ==> i64::MIN <= base_price + b <= i64::MAX)
    &&& (tk.ask matches Some(a) ==> i64::MIN <= base_price + a <= i64::MAX)
}

pub open spec fn packet_fits(p: TickPacket) -> bool {
    p.eoh || forall|j: int| 0 <= j < p.ticks@.len() ==> tick_fits(
        p.base_price,
        p.base_timestamp,
        #[trigger] p.ticks@[j],
    )
}

pub open spec fn packets_fit(ps: Seq<TickPacket>) -> bool {
    forall|i: int| 0 <= i < ps.len() ==> packet_fits(#[trigger] ps[i])
}

/// Classifies one trade: the new state and the emitted trade.
pub open spec fn step(s: TickState, base_price: i64, base_time: i64, tk: Tick) -> (
    TickState,
    ClassifiedTick,
) {
    let trade = (base_price + tk.price) as i64;
    let ask: i64 = match tk.ask {
        Some(a) => (base_price + a) as i64,
        None => s.last_ask_ticks,
    };
    let bid: i64 = match tk.bid {
        Some(b) => (base_price + b) as i64,
        None => s.last_bid_ticks,
    };
    let side = classify(s, trade as int, bid as int, ask as int);
    (
        TickState {
            last_price_ticks: trade,
            last_bid_ticks: bid,
            last_ask_ticks: ask,
            last_direction: direction_code(side),
        },
        ClassifiedTick {
            id: tk.tick_id,
            time: (base_time + tk.time) as i64,
            price_ticks: trade,
            size: tk.size,
            side,
            bid_ticks: bid,
            ask_ticks: ask,
        },
    )
}

/// Classifies the trades of one packet in order.
pub open spec fn run_ticks(s: TickState, base_price: i64, base_time: i64, ticks: Seq<Tick>) -> (
    TickState,
    Seq<ClassifiedTick>,
)
    decreases ticks.len(),
{
    if ticks.len() == 0 {
        (s, Seq::empty())
    } else {
        let prev = run_ticks(s, base_price, base_time, ticks.drop_last());
        let next = step(prev.0, base_price, base_time, ticks.last());
        (next.0, prev.1.push(next.1))
    }
}

/// Classifies the trades of a sequence of packets in order, skipping
/// end-of-history packets.
pub open spec fn run_packets(s: TickState, ps: Seq<TickPacket>) -> (TickState, Seq<ClassifiedTick>)
    decreases ps.len(),
{
    if ps.len() == 0 {
        (s, Seq::empty())
    } else {
        let prev = run_packets(s, ps.drop_last());
        let p = ps.last();
        if p.eoh {
            prev
        } else {
            let cur = run_ticks(prev.0, p.base_price, p.base_timestamp, p.ticks@);
            (cur.0, prev.1 + cur.1)
        }
    }
}

impl TickState {
    /// The state in which no trade and no quote has been seen.
    pub fn new() -> (res: TickState)
        ensures
            res == initial_state(),
    {
        TickState { last_price_ticks: 0, last_bid_ticks: 0, last_ask_ticks: 0, last_direction: 0 }
    }
}

/// Forgets the last trade, the last quotes and the last direction.
pub fn reset_state(state: &mut TickState)
    ensures
        *final(state) == initial_state(),
{
    *state = TickState::new();
}


/// Classifies one trade against the state and advances the state.
pub fn classify_tick(state: &mut TickState, base_price: i64, base_time: i64, tk: Tick) -> (res:
    ClassifiedTick)
    requires
        tick_fits(base_price, base_time, tk),
    ensures
        (*final(state), res) == step(*old(state), base_price, base_time, tk),
{
    let trade = base_price + tk.price;
    let time = base_time + tk.time;
    let ask: i64 = match tk.ask {
        Some(a) => base_price + a,
        None => state.last_ask_ticks,
    };
    let bid: i64 = match tk.bid {
        Some(b) => base_price + b,
        None => state.last_bid_ticks,
    };
    let side = if state.last_price_ticks > 0 {
        if trade > state.last_price_ticks {
            TradeSide::BuyMarket
        } else if trade < state.last_price_ticks {
            TradeSide::SellMarket
        } else if state.last_direction == 1 || state.last_direction == 2 {
            TradeSide::BuyPending
        } else if state.last_direction == -1 || state.last_direction == -2 {
            TradeSide::SellPending
        } else {
            TradeSide::Mid
        }
    } else if ask > 0 && trade >= ask {
        TradeSide::BuyMarket
    } else if bid > 0 && trade <= bid {
        TradeSide::SellMarket
    } else {
        TradeSide::Mid
    };
    let dir: i8 = match side {
        TradeSide::BuyMarket => 1,
        TradeSide::SellMarket => -1,
        TradeSide::BuyPending => 2,
        TradeSide::SellPending => -2,
        TradeSide::Mid => 0,
    };
    *state = TickState {
        last_price_ticks: trade,
        last_bid_ticks: bid,
        last_ask_ticks: ask,
        last_direction: dir,
    };
    ClassifiedTick {
        id: tk.tick_id,
        time,
        price_ticks: trade,
        size: tk.size,
        side,
        bid_ticks: bid,
        ask_ticks: ask,
    }
}

/// Whether every live packet's trades can be processed without leaving the
/// `i64` range.
pub fn packets_in_range(packets: &Vec<TickPacket>) -> (res: bool)
    ensures
        res == packets_fit(packets@),
{
    let mut i: usize = 0;
    while i < packets.len()
        invariant
            i <= packets@.len(),
            forall|k: int| 0 <= k < i ==> packet_fits(#[trigger] packets@[k]),
        decreases packets@.len() - i,
    {
        let p = &packets[i];
        if !p.eoh {
            let mut j: usize = 0;
            while j < p.ticks.len()
                invariant
                    i < packets@.len(),
                    *p == packets@[i as int],
                    !p.eoh,
                    j <= p.ticks@.len(),
                    forall|k: int|
                        0 <= k < j ==> tick_fits(p.base_price, p.base_timestamp, #[trigger] p.ticks@[k]),
                decreases p.ticks@.len() - j,
            {
                let tk = p.ticks[j];
                let bp = p.base_price as i128;
                let ok_price = i64::MIN as i128 <= bp + tk.price as i128 && bp + tk.price as i128
                    <= i64::MAX as i128;
                let bt = p.base_timestamp as i128;
                let ok_time = i64::MIN as i128 <= bt + tk.time as i128 && bt + tk.time as i128
                    <= i64::MAX as i128;
                let ok_bid = match tk.bid {
                    Some(b) => i64::MIN as i128 <= bp + b as i128 && bp + b as i128 <= i64::MAX as i128,
                    None => true,
                };
                let ok_ask = match tk.ask {
                    Some(a) => i64::MIN as i128 <= bp + a as i128 && bp + a as i128 <= i64::MAX as i128,
                    None => true,
                };
                if !(ok_price && ok_time && ok_bid && ok_ask) {
                    assert(!packet_fits(packets@[i as int]));
                    return false;
                }
                j = j + 1;
            }
        }
        i = i + 1;
    }
    true
}

/// Classifies every trade of every live packet, in order, updating the state.
/// Returns `None` when no trade was classified (no packets, only
/// end-of-history packets, or packets without trades).
pub fn process(state: &mut TickState, packets: &Vec<TickPacket>) -> (res: Option<Vec<ClassifiedTick>>)
    requires
        packets_fit(packets@),
    ensures
        *final(state) == run_packets(*old(state), packets@).0,
        match res {
            Some(v) => v@ == run_packets(*old(state), packets@).1 && v@.len() > 0,
            None => run_packets(*old(state), packets@).1.len() == 0,
        },
{
    let ghost s0 = *state;
    let mut results: Vec<ClassifiedTick> = Vec::new();
    let mut i: usize = 0;
    while i < packets.len()
        invariant
            i <= packets@.len(),
            packets_fit(packets@),
            (*state, results@) == run_packets(s0, packets@.take(i as int)),
        decreases packets@.len() - i,
    {
        assert(packets@.take(i + 1).drop_last() =~= packets@.take(i as int));
        let p = &packets[i];
        if !p.eoh {
            assert(packet_fits(packets@[i as int]));
            let ghost s1 = *state;
            let ghost r1 = results@;
            let mut j: usize = 0;
            while j < p.ticks.len()
                invariant
                    i < packets@.len(),
                    *p == packets@[i as int],
                    !p.eoh,
                    packet_fits(*p),
                    j <= p.ticks@.len(),
                    (*state, results@.skip(r1.len() as int)) == run_ticks(
                        s1,
                        p.base_price,
                        p.base_timestamp,
                        p.ticks@.take(j as int),
                    ),
                    results@.len() >= r1.len(),
                    results@.take(r1.len() as int) == r1,
                decreases p.ticks@.len() - j,
            {
                assert(p.ticks@.take(j + 1).drop_last() =~= p.ticks@.take(j as int));
                let tk = p.ticks[j];
                assert(tick_fits(p.base_price, p.base_timestamp, p.ticks@[j as int]));
                let c = classify_tick(state, p.base_price, p.base_timestamp, tk);
                let ghost before = results@;
                results.push(c);
                assert(results@.skip(r1.len() as int) =~= before.skip(r1.len() as int).push(c));
                assert(results@.take(r1.len() as int) =~= before.take(r1.len() as int));
                j = j + 1;
            }
            assert(p.ticks@.take(p.ticks@.len() as int) =~= p.ticks@);
            assert(results@ =~= r1 + results@.skip(r1.len() as int));
        }
        i = i + 1;
    }
    assert(packets@.take(packets@.len() as int) =~= packets@);
    if results.len() == 0 {
        None
    } else {
        Some(results)
    }
}


/// Number of trades carried by the live (non end-of-history) packets.
pub open spec fn live_trade_count(ps: Seq<TickPacket>) -> nat
    decreases ps.len(),
{
    if ps.len() == 0 {
        0
    } else if ps.last().eoh {
        live_trade_count(ps.drop_last())
    } else {
        live_trade_count(ps.drop_last()) + ps.last().ticks@.len()
    }
}

proof fn lemma_run_ticks_len(s: TickState, bp: i64, bt: i64, ticks: Seq<Tick>)
    ensures
        run_ticks(s, bp, bt, ticks).1.len() == ticks.len(),
    decreases ticks.len(),
{
    if ticks.len() > 0 {
        lemma_run_ticks_len(s, bp, bt, ticks.drop_last());
    }
}

/// Every trade of every live packet is emitted exactly once: the number of
/// classified trades is the number of trades in the live packets.
pub proof fn lemma_process_emits_every_live_trade(s: TickState, ps: Seq<TickPacket>)
    ensures
        run_packets(s, ps).1.len() == live_trade_count(ps),
    decreases ps.len(),
{
    if ps.len() > 0 {
        lemma_process_emits_every_live_trade(s, ps.drop_last());
        let prev = run_packets(s, ps.drop_last());
        lemma_run_ticks_len(prev.0, ps.last().base_price, ps.last().base_timestamp, ps.last().ticks@);
    }
}

/// Feeding a stream of packets in two messages classifies exactly as feeding
/// it in one: the state carried between messages is all that matters.
pub proof fn lemma_process_split(s: TickState, a: Seq<TickPacket>, b: Seq<TickPacket>)
    ensures
        run_packets(s, a + b) == (
            run_packets(run_packets(s, a).0, b).0,
            run_packets(s, a).1 + run_packets(run_packets(s, a).0, b).1,
        ),
    decreases b.len(),
{
    let mid = run_packets(s, a);
    if b.len() == 0 {
        assert(a + b =~= a);
        assert(mid.1 + Seq::<ClassifiedTick>::empty() =~= mid.1);
    } else {
        assert((a + b).drop_last() =~= a + b.drop_last());
        assert((a + b).last() == b.last());
        lemma_process_split(s, a, b.drop_last());
        let rest = run_packets(mid.0, b.drop_last());
        if !b.last().eoh {
            let cur = run_ticks(rest.0, b.last().base_price, b.last().base_timestamp, b.last().ticks@);
            assert(mid.1 + rest.1 + cur.1 =~= mid.1 + (rest.1 + cur.1));
        }
    }
}

/// The stored direction code is always the code of the last emitted side, and
/// the stored last price and quotes are those of the last emitted trade.
pub proof fn lemma_state_tracks_last_trade(s: TickState, ps: Seq<TickPacket>)
    requires
        run_packets(s, ps).1.len() > 0,
    ensures
        ({
            let r = run_packets(s, ps);
            let last = r.1.last();
            &&& r.0.last_direction == direction_code(last.side)
            &&& r.0.last_price_ticks == last.price_ticks
            &&& r.0.last_bid_ticks == last.bid_ticks
            &&& r.0.last_ask_ticks == last.ask_ticks
        }),
    decreases ps.len(),
{
    let prev = run_packets(s, ps.drop_last());
    if ps.last().eoh {
        lemma_state_tracks_last_trade(s, ps.drop_last());
    } else {
        let p = ps.last();
        let cur = run_ticks(prev.0, p.base_price, p.base_timestamp, p.ticks@);
        if cur.1.len() == 0 {
            lemma_run_ticks_len(prev.0, p.base_price, p.base_timestamp, p.ticks@);
            assert(prev.1 + cur.1 =~= prev.1);
            lemma_state_tracks_last_trade(s, ps.drop_last());
            if p.ticks@.len() != 0 {
                assert(false);
            }
            assert(cur.0 == prev.0);
        } else {
            lemma_run_ticks_len(prev.0, p.base_price, p.base_timestamp, p.ticks@);
            assert((prev.1 + cur.1).last() == cur.1.last());
        }
    }
}

/// Classifying no trade leaves the state as it was: a message with no live
/// trade changes nothing for the next one.
pub proof fn lemma_no_trade_keeps_state(s: TickState, ps: Seq<TickPacket>)
    requires
        run_packets(s, ps).1.len() == 0,
    ensures
        run_packets(s, ps).0 == s,
    decreases ps.len(),
{
    if ps.len() > 0 {
        let prev = run_packets(s, ps.drop_last());
        let p = ps.last();
        if p.eoh {
            lemma_no_trade_keeps_state(s, ps.drop_last());
        } else {
            let cur = run_ticks(prev.0, p.base_price, p.base_timestamp, p.ticks@);
            assert((prev.1 + cur.1).len() == prev.1.len() + cur.1.len());
            lemma_run_ticks_len(prev.0, p.base_price, p.base_timestamp, p.ticks@);
            lemma_no_trade_keeps_state(s, ps.drop_last());
            assert(p.ticks@.len() == 0);
            assert(p.ticks@ =~= Seq::<Tick>::empty());
        }
    }
}

/// How one trade is classified and what is stored for the next one. With a
/// previous trade: a price above it is a market buy (direction 1) and a price
/// below it a market sell (direction -1), whatever came before; the same price
/// keeps the pressure of the previous trade as a pending buy (2) after a buy,
/// a pending sell (-2) after a sell, and is a mid trade (0) otherwise.
/// Without a previous trade: at or above a known ask it is a market buy, at
/// or below a known bid a market sell, else a mid trade. In every case the
/// trade's price and quotes become the remembered ones.
pub proof fn lemma_trade_sides(s: TickState, base_price: i64, base_time: i64, tk: Tick)
    requires
        tick_fits(base_price, base_time, tk),
    ensures
        ({
            let (n, c) = step(s, base_price, base_time, tk);
            let trade = base_price + tk.price;
            let ask = match tk.ask { Some(a) => base_price + a, None => s.last_ask_ticks as int };
            let bid = match tk.bid { Some(b) => base_price + b, None => s.last_bid_ticks as int };
            &&& s.last_price_ticks > 0 && trade > s.last_price_ticks ==> c.side == TradeSide::BuyMarket
                && n.last_direction == 1
            &&& s.last_price_ticks > 0 && trade < s.last_price_ticks ==> c.side == TradeSide::SellMarket
                && n.last_direction == -1
            &&& s.last_price_ticks > 0 && trade == s.last_price_ticks && (s.last_direction == 1
                || s.last_direction == 2) ==> c.side == TradeSide::BuyPending && n.last_direction == 2
            &&& s.last_price_ticks > 0 && trade == s.last_price_ticks && (s.last_direction == -1
                || s.last_direction == -2) ==> c.side == TradeSide::SellPending && n.last_direction == -2
            &&& s.last_price_ticks > 0 && trade == s.last_price_ticks && !(-2 <= s.last_direction <= 2
                && s.last_direction != 0) ==> c.side == TradeSide::Mid && n.last_direction == 0
            &&& s.last_price_ticks <= 0 && ask > 0 && trade >= ask ==> c.side == TradeSide::BuyMarket
                && n.last_direction == 1
            &&& s.last_price_ticks <= 0 && !(ask > 0 && trade >= ask) && bid > 0 && trade <= bid
                ==> c.side == TradeSide::SellMarket && n.last_direction == -1
            &&& s.last_price_ticks <= 0 && !(ask > 0 && trade >= ask) && !(bid > 0 && trade <= bid)
                ==> c.side == TradeSide::Mid && n.last_direction == 0
            &&& n.last_price_ticks == trade && c.price_ticks == trade
            &&& n.last_ask_ticks == ask && c.ask_ticks == ask
            &&& n.last_bid_ticks == bid && c.bid_ticks == bid
            &&& c.time == base_time + tk.time && c.id == tk.tick_id && c.size == tk.size
        }),
{
}

} // verus!
