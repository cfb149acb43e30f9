use ticker_core::aggregate::{par_aggregate, window_fits};
use ticker_core::types::{Event, Exchange, Pair, PriceTick, RawPriceTick, UNITS_PER_WHOLE};
use ticker_core::worker::IngestionWorker;

fn trade(price: u64, size: u64) -> Event {
    Event::PriceTick(RawPriceTick {
        price: price * UNITS_PER_WHOLE,
        size: size * UNITS_PER_WHOLE,
        timestamp: 0,
    })
}

fn units(x: u128) -> u128 {
    x * UNITS_PER_WHOLE as u128
}

#[test]
fn two_trades_give_their_vwap() {
    let events = vec![trade(100, 1), trade(102, 3)];
    let tick = par_aggregate(Exchange::Binance, Pair::BTCUSDT, 7, events).unwrap();
    assert_eq!(tick.price, 10_150_000_000);
    assert_eq!(tick.size, units(4));
    assert_eq!(tick.timestamp, 7);
    assert_eq!(tick.exchange, Exchange::Binance);
    assert_eq!(tick.symbol, Pair::BTCUSDT);
}

#[test]
fn empty_window_gives_no_sample() {
    assert_eq!(par_aggregate(Exchange::Bybit, Pair::ETHUSDT, 1, vec![]), None);
}

#[test]
fn zero_size_trade_gives_no_sample() {
    let events = vec![trade(50, 0)];
    assert_eq!(par_aggregate(Exchange::Bybit, Pair::ETHUSDT, 1, events), None);
}

#[test]
fn only_invalid_entries_give_no_sample() {
    let events = vec![
        Event::Error("bad message".to_string()),
        Event::Unsupported,
        trade(0, 5),
        trade(10, 0),
    ];
    assert_eq!(par_aggregate(Exchange::Coinbase, Pair::SOLUSDT, 1, events), None);
}

#[test]
fn mixed_window_counts_valid_trades_only() {
    let events = vec![
        trade(100, 1),
        Event::Error("oops".to_string()),
        trade(0, 9),
        Event::Unsupported,
        trade(102, 3),
        trade(500, 0),
    ];
    let tick = par_aggregate(Exchange::Coinbase, Pair::SOLUSDT, 3, events).unwrap();
    assert_eq!(tick.price, 10_150_000_000);
    assert_eq!(tick.size, units(4));
}

#[test]
fn order_of_trades_does_not_matter() {
    let a = vec![trade(100, 1), trade(102, 3), trade(97, 2), trade(120, 5)];
    let b = vec![trade(120, 5), trade(97, 2), trade(100, 1), trade(102, 3)];
    let x = par_aggregate(Exchange::Binance, Pair::BTCUSDT, 9, a).unwrap();
    let y = par_aggregate(Exchange::Binance, Pair::BTCUSDT, 9, b).unwrap();
    assert_eq!(x, y);
    // (100 + 306 + 194 + 600) / 11 = 109.0909...
    assert_eq!(x.price, 10_909_090_909);
    assert_eq!(x.size, units(11));
}

#[test]
fn vwap_rounds_toward_zero() {
    let events = vec![
        Event::PriceTick(RawPriceTick { price: 1, size: 2, timestamp: 0 }),
        Event::PriceTick(RawPriceTick { price: 2, size: 1, timestamp: 0 }),
    ];
    let tick = par_aggregate(Exchange::Binance, Pair::BTCUSDT, 0, events).unwrap();
    assert_eq!(tick.price, 1);
    assert_eq!(tick.size, 3);
}

#[test]
fn large_window_is_summed_exactly() {
    let mut events = Vec::new();
    for i in 0..10_000u64 {
        events.push(trade(100 + i % 3, 1));
    }
    let tick = par_aggregate(Exchange::Bybit, Pair::BTCUSDT, 0, events).unwrap();
    // 3334 trades at 100, 3333 at 101, 3333 at 102
    assert_eq!(tick.size, units(10_000));
    assert_eq!(tick.price, (3334 * 100 + 3333 * 101 + 3333 * 102) * UNITS_PER_WHOLE as u128 / 10_000);
}

#[test]
fn largest_values_fit_one_trade() {
    let events = vec![Event::PriceTick(RawPriceTick { price: u64::MAX, size: u64::MAX, timestamp: 0 })];
    assert!(window_fits(&events));
    let tick = par_aggregate(Exchange::Bybit, Pair::BTCUSDT, 0, events).unwrap();
    assert_eq!(tick.price, u64::MAX as u128);
    assert_eq!(tick.size, u64::MAX as u128);
}

#[test]
fn window_that_overflows_does_not_fit() {
    let big = Event::PriceTick(RawPriceTick { price: u64::MAX, size: u64::MAX, timestamp: 0 });
    let events = vec![big.clone(), big.clone(), big];
    assert!(!window_fits(&events));
}

#[test]
fn worker_emits_a_sample_per_tick() {
    let mut w = IngestionWorker::new(Exchange::Binance, Pair::SOLUSDT, 2);
    assert!(!w.on_event(trade(100, 1)));
    assert!(!w.on_event(trade(102, 3)));
    assert!(w.on_event(Event::Unsupported));
    let tick = w.on_tick(42).unwrap();
    assert_eq!(
        tick,
        PriceTick {
            exchange: Exchange::Binance,
            symbol: Pair::SOLUSDT,
            price: 10_150_000_000,
            size: units(4),
            timestamp: 42,
        }
    );
    assert!(w.buffer.is_empty());
    assert_eq!(w.on_tick(43), None);
}

#[test]
fn worker_stops_when_receiver_is_gone() {
    let mut w = IngestionWorker::new(Exchange::Bybit, Pair::BTCUSDT, 10);
    w.on_event(trade(10, 1));
    let tick = w.on_tick(1);
    assert!(tick.is_some());
    assert!(!w.on_send_result(false));
    w.on_event(trade(10, 1));
    assert_eq!(w.on_tick(2), None);
    assert!(!w.on_send_result(true));
}

#[test]
fn worker_keeps_running_after_delivery() {
    let mut w = IngestionWorker::new(Exchange::Bybit, Pair::BTCUSDT, 10);
    w.on_event(trade(10, 1));
    assert!(w.on_tick(1).is_some());
    assert!(w.on_send_result(true));
    w.on_event(trade(20, 1));
    assert_eq!(w.on_tick(2).unwrap().price, units(20));
}

#[test]
fn worker_drops_window_that_does_not_fit() {
    let mut w = IngestionWorker::new(Exchange::Bybit, Pair::BTCUSDT, 10);
    let big = Event::PriceTick(RawPriceTick { price: u64::MAX, size: u64::MAX, timestamp: 0 });
    w.on_event(big.clone());
    w.on_event(big.clone());
    w.on_event(big);
    assert_eq!(w.on_tick(1), None);
    assert!(w.buffer.is_empty());
}
