use rust_rsi::processor::{StreamProcessor, TradeEvent};
use rust_rsi::rsi::compute_rsi;
use rust_rsi::window::{WindowStore, WINDOW_SIZE};

fn trade(id: &str, price: i64) -> TradeEvent {
    TradeEvent { instrument_id: id.to_string(), price, event_time: None }
}

fn trade_at(id: &str, price: i64, time: &str) -> TradeEvent {
    TradeEvent { instrument_id: id.to_string(), price, event_time: Some(time.to_string()) }
}

#[test]
fn no_event_before_the_window_is_full() {
    let mut p = StreamProcessor::new();
    for i in 0..13 {
        assert!(p.handle_trade(trade("tok", i)).is_none());
    }
}

#[test]
fn one_event_per_trade_once_full() {
    let mut p = StreamProcessor::new();
    for i in 0..13 {
        assert!(p.handle_trade(trade("tok", i)).is_none());
    }
    for i in 13..30 {
        let ev = p.handle_trade(trade("tok", i)).expect("full window must emit");
        assert_eq!(ev.instrument_id, "tok");
    }
}

#[test]
fn the_fifteenth_trade_evicts_the_oldest_price() {
    let mut p = StreamProcessor::new();
    for i in 0..15 {
        p.handle_trade(trade("tok", 100 + i));
    }
    let w = p.window(&"tok".to_string()).expect("instrument has traded");
    let expected: Vec<i64> = (101..115).collect();
    assert_eq!(w, expected);
    assert_eq!(w.len(), WINDOW_SIZE);
}

#[test]
fn the_event_carries_the_rsi_of_the_current_window() {
    let mut p = StreamProcessor::new();
    let prices: Vec<i64> = vec![0, 2, 1, 3, 2, 4, 3, 5, 4, 6, 5, 7, 6, 8];
    let mut last = None;
    for &x in prices.iter() {
        last = p.handle_trade(trade("tok", x));
    }
    let ev = last.expect("the fourteenth trade fills the window");
    assert_eq!(ev.rsi, compute_rsi(&prices));
    assert_eq!(ev.rsi.num, 1400);
    assert_eq!(ev.rsi.den, 20);
}

#[test]
fn the_event_takes_the_trades_own_timestamp() {
    let mut p = StreamProcessor::new();
    for i in 0..13 {
        p.handle_trade(trade("tok", i));
    }
    let ev = p
        .handle_trade(trade_at("tok", 99, "2024-05-01T00:00:00Z"))
        .expect("full window must emit");
    assert_eq!(ev.timestamp, "2024-05-01T00:00:00Z");
}

#[test]
fn a_trade_without_a_timestamp_still_emits() {
    let mut p = StreamProcessor::new();
    for i in 0..14 {
        p.handle_trade(trade("tok", i));
    }
    let ev = p.handle_trade(trade("tok", 99)).expect("full window must emit");
    assert!(!ev.timestamp.is_empty());
}

#[test]
fn a_malformed_payload_changes_nothing() {
    let mut p = StreamProcessor::new();
    for i in 0..3 {
        assert!(p.handle_message(Some(trade("tok", i))).is_none());
    }
    let before = p.window(&"tok".to_string()).expect("instrument has traded");
    assert!(p.handle_message(None).is_none());
    let after = p.window(&"tok".to_string()).expect("instrument has traded");
    assert_eq!(before, after);
    assert_eq!(after, vec![0, 1, 2]);
}

#[test]
fn instruments_accumulate_independently() {
    let mut p = StreamProcessor::new();
    for i in 0..5 {
        p.handle_trade(trade("alpha", 10 + i));
        p.handle_trade(trade("beta", 900 - i));
    }
    let a = p.window(&"alpha".to_string()).expect("alpha has traded");
    let b = p.window(&"beta".to_string()).expect("beta has traded");
    assert_eq!(a, vec![10, 11, 12, 13, 14]);
    assert_eq!(b, vec![900, 899, 898, 897, 896]);
    assert!(p.window(&"gamma".to_string()).is_none());
}

#[test]
fn the_store_reports_fullness_only_at_capacity() {
    let mut store = WindowStore::new();
    let key = "tok".to_string();
    for i in 0..13 {
        let w = store.update(&key, i);
        assert_eq!(w.len(), (i + 1) as usize);
        assert!(!store.is_full(&key));
    }
    let w = store.update(&key, 13);
    assert_eq!(w.len(), WINDOW_SIZE);
    assert!(store.is_full(&key));
    let w = store.update(&key, 14);
    assert_eq!(w.len(), WINDOW_SIZE);
    assert_eq!(w[0], 1);
    assert!(store.is_full(&key));
    assert!(!store.is_full(&"other".to_string()));
}
