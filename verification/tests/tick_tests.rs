use acterminal::side::TradeSide;
use acterminal::tick::{
    classify_tick, packets_in_range, process, reset_state, ClassifiedTick, Tick, TickPacket, TickState,
};

fn tk(time: i64, price: i64, bid: Option<i64>, ask: Option<i64>, id: i64) -> Tick {
    Tick { time, price, size: 3, bid, ask, tick_id: id }
}

fn packet(base_price: i64, base_timestamp: i64, ticks: Vec<Tick>, eoh: bool) -> TickPacket {
    TickPacket { id: 16335, base_price, base_timestamp, ticks, eoh }
}

fn sides(v: &[ClassifiedTick]) -> Vec<TradeSide> {
    v.iter().map(|c| c.side).collect()
}

#[test]
fn first_trade_without_quotes_is_mid() {
    let mut st = TickState::new();
    let c = classify_tick(&mut st, 100, 0, tk(0, 5, None, None, 1));
    assert_eq!(c.side, TradeSide::Mid);
    assert_eq!(st.last_direction, 0);
    assert_eq!(st.last_price_ticks, 105);
}

#[test]
fn first_trade_at_ask_is_market_buy_and_at_bid_market_sell() {
    let mut st = TickState::new();
    let c = classify_tick(&mut st, 100, 0, tk(0, 22, Some(-20), Some(22), 1));
    assert_eq!(c.side, TradeSide::BuyMarket);
    assert_eq!(c.ask_ticks, 122);
    assert_eq!(c.bid_ticks, 80);
    let mut st = TickState::new();
    let c = classify_tick(&mut st, 100, 0, tk(0, -20, Some(-20), Some(22), 1));
    assert_eq!(c.side, TradeSide::SellMarket);
    assert_eq!(st.last_direction, -1);
}

#[test]
fn upticks_downticks_and_pending_sides() {
    let mut st = TickState::new();
    let ticks = vec![
        tk(0, 0, None, None, 1),
        tk(1, 1, None, None, 2),
        tk(2, 1, None, None, 3),
        tk(3, 1, None, None, 4),
        tk(4, 0, None, None, 5),
        tk(5, 0, None, None, 6),
        tk(6, 0, None, None, 7),
    ];
    let out = process(&mut st, &vec![packet(1000, 50, ticks, false)]).unwrap();
    assert_eq!(
        sides(&out),
        vec![
            TradeSide::Mid,
            TradeSide::BuyMarket,
            TradeSide::BuyPending,
            TradeSide::BuyPending,
            TradeSide::SellMarket,
            TradeSide::SellPending,
            TradeSide::SellPending,
        ]
    );
    assert_eq!(out[3].price_ticks, 1001);
    assert_eq!(out[3].time, 53);
    assert_eq!(out[3].id, 4);
    assert_eq!(st.last_direction, -2);
}

#[test]
fn repeat_after_mid_stays_mid() {
    let mut st = TickState::new();
    let out = process(&mut st, &vec![packet(10, 0, vec![tk(0, 0, None, None, 1), tk(1, 0, None, None, 2)], false)]).unwrap();
    assert_eq!(sides(&out), vec![TradeSide::Mid, TradeSide::Mid]);
}

#[test]
fn quotes_carry_over_between_trades_and_packets() {
    let mut st = TickState::new();
    let out = process(
        &mut st,
        &vec![
            packet(100, 0, vec![tk(0, 0, Some(-2), Some(3), 1), tk(1, 1, None, None, 2)], false),
            packet(200, 0, vec![tk(0, 0, None, Some(1), 3)], false),
        ],
    )
    .unwrap();
    assert_eq!(out[1].bid_ticks, 98);
    assert_eq!(out[1].ask_ticks, 103);
    assert_eq!(out[2].bid_ticks, 98);
    assert_eq!(out[2].ask_ticks, 201);
    assert_eq!(st.last_bid_ticks, 98);
    assert_eq!(st.last_ask_ticks, 201);
}

#[test]
fn end_of_history_packets_are_skipped() {
    let mut st = TickState::new();
    let out = process(
        &mut st,
        &vec![packet(100, 0, vec![tk(0, 5, None, None, 1)], true), packet(100, 0, vec![tk(0, 6, None, None, 2)], false)],
    )
    .unwrap();
    assert_eq!(out.len(), 1);
    assert_eq!(out[0].id, 2);
    assert_eq!(out[0].side, TradeSide::Mid);
}

#[test]
fn nothing_to_classify_gives_none() {
    let mut st = TickState::new();
    assert!(process(&mut st, &vec![]).is_none());
    assert!(process(&mut st, &vec![packet(1, 1, vec![tk(0, 0, None, None, 1)], true)]).is_none());
    assert!(process(&mut st, &vec![packet(1, 1, vec![], false)]).is_none());
    assert_eq!(st, TickState::new());
}

#[test]
fn splitting_a_stream_classifies_the_same() {
    let p1 = || packet(500, 10, vec![tk(0, 0, Some(-1), Some(1), 1), tk(1, 2, None, None, 2)], false);
    let p2 = || packet(500, 20, vec![tk(0, 2, None, None, 3), tk(1, -3, Some(-4), None, 4)], false);
    let mut a = TickState::new();
    let whole = process(&mut a, &vec![p1(), p2()]).unwrap();
    let mut b = TickState::new();
    let mut first = process(&mut b, &vec![p1()]).unwrap();
    let second = process(&mut b, &vec![p2()]).unwrap();
    first.extend(second);
    assert_eq!(whole, first);
    assert_eq!(a, b);
}

#[test]
fn reset_forgets_everything() {
    let mut st = TickState::new();
    let _ = process(&mut st, &vec![packet(100, 0, vec![tk(0, 1, Some(-1), Some(2), 1)], false)]);
    assert_ne!(st, TickState::new());
    reset_state(&mut st);
    assert_eq!(st, TickState { last_price_ticks: 0, last_bid_ticks: 0, last_ask_ticks: 0, last_direction: 0 });
}

#[test]
fn overflowing_packets_are_detected() {
    assert!(packets_in_range(&vec![packet(i64::MAX, 0, vec![tk(0, 0, None, None, 1)], false)]));
    assert!(!packets_in_range(&vec![packet(i64::MAX, 0, vec![tk(0, 1, None, None, 1)], false)]));
    assert!(!packets_in_range(&vec![packet(0, i64::MIN, vec![tk(-1, 0, None, None, 1)], false)]));
    assert!(!packets_in_range(&vec![packet(i64::MAX, 0, vec![tk(0, 0, Some(1), None, 1)], false)]));
    assert!(packets_in_range(&vec![packet(i64::MAX, 0, vec![tk(0, 1, None, None, 1)], true)]));
}

#[test]
fn message_without_trades_keeps_state() {
    let mut st = TickState::new();
    let first = vec![packet(1000, 0, vec![tk(0, 5, Some(-2), Some(3), 1)], false)];
    assert!(process(&mut st, &first).is_some());
    let kept = st;
    let empty = vec![packet(1000, 0, vec![tk(0, 9, None, None, 2)], true), packet(1000, 0, vec![], false)];
    assert_eq!(process(&mut st, &empty), None);
    assert_eq!(st, kept);
}

#[test]
fn after_reset_result_depends_on_message_alone() {
    let msg = vec![packet(500, 10, vec![tk(0, 1, Some(0), Some(2), 1), tk(1, 1, None, None, 2)], false)];
    let mut st = TickState::new();
    let r1 = process(&mut st, &msg);
    let other = vec![packet(900, 0, vec![tk(0, 50, None, None, 7)], false)];
    let _ = process(&mut st, &other);
    reset_state(&mut st);
    let r2 = process(&mut st, &msg);
    assert_eq!(r1, r2);
}
