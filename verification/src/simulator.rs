use vstd::prelude::*;
use rand::Rng;

verus! {

/// Latest instant `chrono::Utc::now()` can represent, in milliseconds since
/// the Unix epoch (end of year 262142).
pub const MAX_CLOCK_MILLIS: i64 = 8_210_266_876_799_999;

/// Calls `rand::rng().random_range(lo..=hi)` on the thread-local generator:
/// rand gives a value within the inclusive range and panics on an empty
/// range, which `lo <= hi` excludes. It also panics when the operating
/// system cannot seed the thread-local generator, which no argument
/// controls. Which value comes out is chance and is not stated.
#[verifier::external_body]
fn random_in(lo: i64, hi: i64) -> (res: i64)
    requires
        lo <= hi,
    ensures
        lo <= res <= hi,
{
    rand::rng().random_range(lo..=hi)
}

/// Calls `chrono::Utc::now().timestamp_millis()`. On this platform chrono
/// reads `SystemTime` since the Unix epoch (it panics before the epoch and
/// beyond its own range), so the value lies between 0 and
/// `MAX_CLOCK_MILLIS`. Which instant it is depends on the clock and is not
/// stated.
#[verifier::external_body]
fn now_millis() -> (res: i64)
    ensures
        0 <= res <= MAX_CLOCK_MILLIS,
{
    chrono::Utc::now().timestamp_millis()
}

/// Integer state of the market simulator: prices in ticks, the id of the last
/// generated trade and the packets' base timestamp.
#[derive(Debug, Clone, Copy, PartialEq, Eq, Structural)]
pub struct SimCore {
    pub base_price: i64,
    pub current_price: i64,
    pub bid_price: i64,
    pub ask_price: i64,
    pub last_tick_id: i64,
    pub base_timestamp: i64,
}

/// The random draws one simulated trade is made of.
#[derive(Debug, Clone, Copy, PartialEq, Eq, Structural)]
pub struct SimDraws {
    pub price_delta: i64,
    pub bid_offset: i64,
    pub ask_offset: i64,
    pub choice: i64,
    pub size: u64,
    pub now: i64,
}

/// One simulated trade, prices relative to the base price (as published).
#[derive(Debug, Clone, Copy, PartialEq, Eq, Structural)]
pub struct SimTick {
    pub t: i64,
    pub p: i64,
    pub s: u64,
    pub b: i64,
    pub a: i64,
    pub id: i64,
    pub tick_price: i64,
}

/// Draws the simulator can make.
pub open spec fn draws_in_range(d: SimDraws) -> bool {
    &&& -3 <= d.price_delta <= 3
    &&& 15 <= d.bid_offset <= 25
    &&& 15 <= d.ask_offset <= 25
    &&& 0 <= d.choice <= 2
    &&& 1 <= d.size <= 50
    &&& 0 <= d.now <= MAX_CLOCK_MILLIS
}

/// The simulator's prices stay where its arithmetic cannot overflow.
pub open spec fn sim_wf(c: SimCore) -> bool {
    &&& 1000 <= c.base_price <= 0x2000_0000_0000_0000
    &&& 0 <= c.base_timestamp <= MAX_CLOCK_MILLIS
    &&& c.base_price - 100 <= c.current_price <= c.base_price + 100
    &&& c.current_price - 25 <= c.bid_price <= c.current_price
    &&& c.current_price <= c.ask_price <= c.current_price + 25
}

/// The next trade: the price moves by the drawn delta, clamped to 100 ticks
/// around the base; bid and ask sit the drawn offsets below and above it; the
/// trade prints at the ask, the bid or the price by the drawn choice.
pub open spec fn sim_step(c: SimCore, d: SimDraws) -> (SimCore, SimTick) {
    let moved = c.base_price + d.price_delta;
    let floored = if moved > c.base_price - 100 { moved } else { c.base_price - 100 };
    let current = if floored < c.base_price + 100 { floored } else { c.base_price + 100 };
    let bid = current - d.bid_offset;
    let ask = current + d.ask_offset;
    let tick_price = if d.choice == 0 {
        ask
    } else if d.choice == 1 {
        bid
    } else {
        current
    };
    let id = c.last_tick_id + 1;
    (
        SimCore {
            current_price: current as i64,
            bid_price: bid as i64,
            ask_price: ask as i64,
            last_tick_id: id as i64,
            ..c
        },
        SimTick {
            t: (d.now - c.base_timestamp) as i64,
            p: (tick_price - c.base_price) as i64,
            s: d.size,
            b: (bid - c.base_price) as i64,
            a: (ask - c.base_price) as i64,
            id: id as i64,
            tick_price: tick_price as i64,
        },
    )
}

impl SimCore {
    /// Starts at `base_price` with the bid and ask 20 ticks away, the base
    /// timestamp read from the clock.
    pub fn new(base_price: i64) -> (res: SimCore)
        requires
            1000 <= base_price <= 0x2000_0000_0000_0000,
        ensures
            sim_wf(res),
            res.base_price == base_price,
            res.current_price == base_price,
            res.bid_price == base_price - 20,
            res.ask_price == base_price + 20,
            res.last_tick_id == 0,
    {
        let now = now_millis();
        SimCore {
            base_price,
            current_price: base_price,
            bid_price: base_price - 20,
            ask_price: base_price + 20,
            last_tick_id: 0,
            base_timestamp: now,
        }
    }

    /// Advances by one trade made of the given draws.
    pub fn step(&mut self, d: SimDraws) -> (res: SimTick)
        requires
            sim_wf(*old(self)),
            draws_in_range(d),
            old(self).last_tick_id < i64::MAX,
        ensures
            sim_wf(*final(self)),
            (*final(self), res) == sim_step(*old(self), d),
    {
        let moved = self.base_price + d.price_delta;
        let floored = if moved > self.base_price - 100 { moved } else { self.base_price - 100 };
        let current = if floored < self.base_price + 100 { floored } else { self.base_price + 100 };
        let bid = current - d.bid_offset;
        let ask = current + d.ask_offset;
        let tick_price = if d.choice == 0 {
            ask
        } else if d.choice == 1 {
            bid
        } else {
            current
        };
        self.current_price = current;
        self.bid_price = bid;
        self.ask_price = ask;
        self.last_tick_id = self.last_tick_id + 1;
        SimTick {
            t: d.now - self.base_timestamp,
            p: tick_price - self.base_price,
            s: d.size,
            b: bid - self.base_price,
            a: ask - self.base_price,
            id: self.last_tick_id,
            tick_price,
        }
    }

    /// Generates the next trade from fresh random draws and the clock.
    pub fn next_tick(&mut self) -> (res: SimTick)
        requires
            sim_wf(*old(self)),
            old(self).last_tick_id < i64::MAX,
        ensures
            sim_wf(*final(self)),
            exists|d: SimDraws| draws_in_range(d) && (#[trigger] sim_step(*old(self), d)) == (*final(self), res),
    {
        let price_delta = random_in(-3, 3);
        let bid_offset = random_in(15, 25);
        let ask_offset = random_in(15, 25);
        let choice = random_in(0, 2);
        let now = now_millis();
        let size = random_in(1, 50) as u64;
        let d = SimDraws { price_delta, bid_offset, ask_offset, choice, size, now };
        self.step(d)
    }

    /// Price ticks of the simulated book's ten levels on each side: bids one
    /// to ten ticks below the middle of the book, offers one to ten above.
    pub fn dom_level_ticks(&self) -> (res: (Vec<i64>, Vec<i64>))
        requires
            sim_wf(*self),
        ensures
            res.0@.len() == 10,
            res.1@.len() == 10,
            forall|l: int|
                0 <= l < 10 ==> #[trigger] res.0@[l] == (self.bid_price + self.ask_price) / 2 - (l + 1)
                    && res.1@[l] == (self.bid_price + self.ask_price) / 2 + (l + 1),
    {
        let mid = self.mid_price();
        let mut bids: Vec<i64> = Vec::new();
        let mut offers: Vec<i64> = Vec::new();
        let mut level: i64 = 0;
        while level < 10
            invariant
                0 <= level <= 10,
                sim_wf(*self),
                mid == (self.bid_price + self.ask_price) / 2,
                bids@.len() == level,
                offers@.len() == level,
                forall|l: int| 0 <= l < level ==> #[trigger] bids@[l] == mid - (l + 1) && offers@[l] == mid + (l + 1),
            decreases 10 - level,
        {
            bids.push(mid - (level + 1));
            offers.push(mid + (level + 1));
            level = level + 1;
        }
        (bids, offers)
    }

    /// Price of the middle of the book, in ticks.
    pub fn mid_price(&self) -> (res: i64)
        requires
            sim_wf(*self),
        ensures
            res == (self.bid_price + self.ask_price) / 2,
    {
        (self.bid_price + self.ask_price) / 2
    }
}

/// Every simulated trade prints within the spread it was generated with, and
/// the price never leaves the band of 100 ticks around the base.
pub proof fn lemma_sim_trade_within_spread(c: SimCore, d: SimDraws)
    requires
        sim_wf(c),
        draws_in_range(d),
        c.last_tick_id < i64::MAX,
    ensures
        ({
            let (n, t) = sim_step(c, d);
            &&& n.bid_price <= t.tick_price <= n.ask_price
            &&& c.base_price - 100 <= n.current_price <= c.base_price + 100
            &&& t.id == c.last_tick_id + 1
            &&& sim_wf(n)
        }),
{
}

} // verus!
