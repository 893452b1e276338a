use backtesting_suite::book::BookView;
use backtesting_suite::capability::CapabilityFlags;
use backtesting_suite::clock::SimulationClock;
use backtesting_suite::decimal::Dec;
use backtesting_suite::engine::{AccountOp, EngineContext, OrderBookEngine};
use backtesting_suite::engine_trait::Engine;
use backtesting_suite::instrument::{AssetClass, Instrument, PriceFormation};
use backtesting_suite::market_event::{BookAction, MarketEvent, MarketPayload, TradingStatusKind};
use backtesting_suite::trade::{FidelityLevel, Order, OrderResult, OrderType, Position, TimeInForce};
use backtesting_suite::types::{SettlementType, Side};

fn d(mantissa: i128, scale: u32) -> Dec {
    Dec { mantissa, scale }
}

fn same(a: Dec, b: Dec) -> bool {
    a.same_value(&b)
}

fn btc() -> Instrument {
    Instrument {
        id: "BTC".to_string(),
        symbol: "BTC".to_string(),
        exchange: "TEST".to_string(),
        currency: "USD".to_string(),
        asset_class: AssetClass::CryptoSpot,
        price_formation: PriceFormation::Clob,
        capabilities: CapabilityFlags::empty(),
        tick_size: d(1, 2),
        lot_size: d(1, 0),
        contract_multiplier: d(1, 0),
        settlement: SettlementType::Cash,
        fee_schedule: None,
    }
}

fn event(ts: i64, payload: MarketPayload) -> MarketEvent {
    MarketEvent {
        instrument_id: "BTC".to_string(),
        entity_id: None,
        venue_id: "TEST".to_string(),
        ts_event: ts,
        ts_available: None,
        ts_recv: ts,
        seq: 0,
        source_id: None,
        source_version: None,
        payload,
    }
}

fn bar(open: i128, high: i128, low: i128, close: i128) -> MarketPayload {
    MarketPayload::Bar {
        open: d(open, 0),
        high: d(high, 0),
        low: d(low, 0),
        close: d(close, 0),
        volume: d(1000, 0),
        interval_secs: 60,
        adjusted: false,
    }
}

fn order(side: Side, order_type: OrderType, qty: i128, limit: Option<i128>, stop: Option<i128>, tif: TimeInForce) -> Order {
    Order {
        instrument_id: "BTC".to_string(),
        side,
        order_type,
        quantity: d(qty, 0),
        limit_price: limit.map(|p| d(p, 0)),
        stop_price: stop.map(|p| d(p, 0)),
        time_in_force: tif,
        max_slippage_bps: None,
        submitted_ts: 0,
    }
}

fn ctx<'a>(clock: &'a SimulationClock, inst: &'a Instrument) -> EngineContext<'a> {
    EngineContext {
        clock,
        instrument: inst,
        positions: Vec::new(),
        fills: Vec::new(),
        trade_records: Vec::new(),
        account_ops: Vec::new(),
    }
}

#[test]
fn fresh_engine_state() {
    let e = OrderBookEngine::new(5, None);
    assert_eq!(e.current_fidelity(), FidelityLevel::Bar);
    assert_eq!(e.latency(), 5);
    assert!(e.supports_order_type(&OrderType::Market));
    assert!(e.supports_order_type(&OrderType::StopLimit));
}

#[test]
fn halted_engine_rejects_orders() {
    let inst = btc();
    let clock = SimulationClock::new(10);
    let mut e = OrderBookEngine::new(0, None);
    let mut c = ctx(&clock, &inst);
    e.on_event(&event(5, MarketPayload::TradingStatus { status: TradingStatusKind::Halted, reason: None }), &mut c).unwrap();
    let r = e.submit_order(order(Side::Buy, OrderType::Market, 1, None, None, TimeInForce::Gtc), &mut c).unwrap();
    match r {
        OrderResult::Rejected(reason) => assert_eq!(reason, "trading halted"),
        _ => panic!("expected a rejection"),
    }
    assert_eq!(c.trade_records.len(), 1);
    assert!(c.trade_records[0].rejected);
    assert_eq!(c.trade_records[0].reject_reason, Some("trading halted".to_string()));
    assert!(c.fills.is_empty());
}

#[test]
fn resumed_engine_accepts_orders() {
    let inst = btc();
    let clock = SimulationClock::new(10);
    let mut e = OrderBookEngine::new(0, None);
    let mut c = ctx(&clock, &inst);
    e.on_event(&event(5, MarketPayload::TradingStatus { status: TradingStatusKind::Suspended, reason: None }), &mut c).unwrap();
    e.on_event(&event(6, MarketPayload::TradingStatus { status: TradingStatusKind::Open, reason: None }), &mut c).unwrap();
    let r = e.submit_order(order(Side::Buy, OrderType::Market, 1, None, None, TimeInForce::Gtc), &mut c).unwrap();
    assert!(matches!(r, OrderResult::Resting));
}

#[test]
fn market_order_fills_at_the_quote() {
    let inst = btc();
    let clock = SimulationClock::new(10);
    let mut e = OrderBookEngine::new(0, None);
    let mut c = ctx(&clock, &inst);
    e.on_event(&event(5, MarketPayload::Quote { bid: d(99, 0), bid_size: d(3, 0), ask: d(101, 0), ask_size: d(2, 0) }), &mut c)
        .unwrap();
    assert_eq!(e.current_fidelity(), FidelityLevel::L1);
    let r = e.submit_order(order(Side::Buy, OrderType::Market, 5, None, None, TimeInForce::Gtc), &mut c).unwrap();
    match r {
        OrderResult::PartialFill(f) => {
            assert!(same(f.fill_price, d(101, 0)));
            assert!(same(f.fill_qty, d(2, 0)));
            assert!(f.partial);
            // 2 * 101 * 5 / 10000
            assert!(same(f.fees, d(101, 3)));
        },
        _ => panic!("expected a partial fill"),
    }
    assert_eq!(c.fills.len(), 1);
    assert!(matches!(c.account_ops[0], AccountOp::ReportFill(_)));
}

#[test]
fn market_order_walks_the_book() {
    let inst = btc();
    let clock = SimulationClock::new(10);
    let mut e = OrderBookEngine::new(0, None);
    let mut c = ctx(&clock, &inst);
    e.on_event(
        &event(5, MarketPayload::BookSnapshot {
            bids: vec![(d(99, 0), d(1, 0))],
            asks: vec![(d(102, 0), d(1, 0)), (d(101, 0), d(1, 0))],
            depth: 2,
        }),
        &mut c,
    )
    .unwrap();
    assert_eq!(e.current_fidelity(), FidelityLevel::L2);
    let r = e.submit_order(order(Side::Buy, OrderType::Market, 2, None, None, TimeInForce::Gtc), &mut c).unwrap();
    match r {
        OrderResult::Filled(f) => {
            assert!(same(f.fill_qty, d(2, 0)));
            // Volume weighted: (101 + 102) / 2
            assert!(same(f.fill_price, d(1015, 1)));
            assert!(!f.partial);
            assert_eq!(f.fidelity, FidelityLevel::L2);
        },
        _ => panic!("expected a fill"),
    }
}

#[test]
fn limit_order_rests_then_fills_on_bar() {
    let inst = btc();
    let clock = SimulationClock::new(10);
    let mut e = OrderBookEngine::new(0, None);
    let mut c = ctx(&clock, &inst);
    let r = e.submit_order(order(Side::Buy, OrderType::Limit, 1, Some(96), None, TimeInForce::Gtc), &mut c).unwrap();
    assert!(matches!(r, OrderResult::Resting));
    e.on_event(&event(20, bar(100, 101, 97, 99)), &mut c).unwrap();
    assert!(c.fills.is_empty());
    e.on_event(&event(30, bar(98, 99, 95, 97)), &mut c).unwrap();
    assert_eq!(c.fills.len(), 1);
    assert!(same(c.fills[0].fill_price, d(96, 0)));
    // Limit orders pay the maker fee, zero by default.
    assert!(same(c.fills[0].fees, d(0, 0)));
    assert_eq!(c.trade_records[0].ts_decision, 10);
}

#[test]
fn day_limit_order_expires_on_an_untouched_bar() {
    let inst = btc();
    let clock = SimulationClock::new(10);
    let mut e = OrderBookEngine::new(0, None);
    let mut c = ctx(&clock, &inst);
    e.submit_order(order(Side::Sell, OrderType::Limit, 1, Some(120), None, TimeInForce::Day), &mut c).unwrap();
    e.on_event(&event(20, bar(100, 101, 97, 99)), &mut c).unwrap();
    assert_eq!(c.trade_records.len(), 1);
    assert!(c.trade_records[0].rejected);
    assert_eq!(c.trade_records[0].reject_reason, Some("cancelled: Day order expired".to_string()));
}

#[test]
fn ioc_limit_order_that_cannot_fill_is_rejected() {
    let inst = btc();
    let clock = SimulationClock::new(10);
    let mut e = OrderBookEngine::new(0, None);
    let mut c = ctx(&clock, &inst);
    e.on_event(&event(5, MarketPayload::Quote { bid: d(99, 0), bid_size: d(3, 0), ask: d(101, 0), ask_size: d(2, 0) }), &mut c)
        .unwrap();
    let r = e.submit_order(order(Side::Buy, OrderType::Limit, 1, Some(100), None, TimeInForce::Ioc), &mut c).unwrap();
    match r {
        OrderResult::Rejected(reason) => assert_eq!(reason, "Ioc order could not be filled immediately"),
        _ => panic!("expected a rejection"),
    }
}

#[test]
fn stop_order_fills_at_worse_of_stop_and_open() {
    let inst = btc();
    let clock = SimulationClock::new(10);
    let mut e = OrderBookEngine::new(0, None);
    let mut c = ctx(&clock, &inst);
    e.submit_order(order(Side::Buy, OrderType::Stop, 1, None, Some(105), TimeInForce::Gtc), &mut c).unwrap();
    // The bar gaps above the stop: the fill is at the open.
    e.on_event(&event(20, bar(110, 112, 108, 111)), &mut c).unwrap();
    assert_eq!(c.fills.len(), 1);
    assert!(same(c.fills[0].fill_price, d(110, 0)));
}

#[test]
fn latency_delays_bar_fills() {
    let inst = btc();
    let clock = SimulationClock::new(10);
    let mut e = OrderBookEngine::new(15, None);
    let mut c = ctx(&clock, &inst);
    e.submit_order(order(Side::Buy, OrderType::Market, 1, None, None, TimeInForce::Gtc), &mut c).unwrap();
    e.on_event(&event(20, bar(100, 101, 97, 99)), &mut c).unwrap();
    assert!(c.fills.is_empty());
    e.on_event(&event(25, bar(103, 104, 102, 103)), &mut c).unwrap();
    assert_eq!(c.fills.len(), 1);
    assert!(same(c.fills[0].fill_price, d(103, 0)));
}

#[test]
fn trade_triggers_resting_limit() {
    let inst = btc();
    let clock = SimulationClock::new(10);
    let mut e = OrderBookEngine::new(0, None);
    let mut c = ctx(&clock, &inst);
    e.submit_order(order(Side::Sell, OrderType::Limit, 2, Some(105), None, TimeInForce::Gtc), &mut c).unwrap();
    e.on_event(
        &event(20, MarketPayload::Trade { price: d(106, 0), size: d(1, 0), aggressor_side: Side::Buy, trade_id: None }),
        &mut c,
    )
    .unwrap();
    assert_eq!(c.fills.len(), 1);
    assert!(same(c.fills[0].fill_price, d(105, 0)));
    assert_eq!(e.current_fidelity(), FidelityLevel::L1);
}

#[test]
fn mark_update_marks_the_account() {
    let inst = btc();
    let clock = SimulationClock::new(10);
    let mut e = OrderBookEngine::new(0, None);
    let mut c = ctx(&clock, &inst);
    e.on_event(&event(20, MarketPayload::MarkUpdate { mark_price: d(123, 0), index_price: d(122, 0) }), &mut c).unwrap();
    match &c.account_ops[0] {
        AccountOp::UpdateMarkPrice(id, p) => {
            assert_eq!(id, "BTC");
            assert!(same(*p, d(123, 0)));
        },
        _ => panic!("expected a mark"),
    }
}

#[test]
fn settlement_closes_positions_and_cancels_orders() {
    let inst = btc();
    let clock = SimulationClock::new(10);
    let mut e = OrderBookEngine::new(0, None);
    let mut c = ctx(&clock, &inst);
    e.on_event(&event(5, bar(100, 101, 97, 99)), &mut c).unwrap();
    e.submit_order(order(Side::Buy, OrderType::Limit, 1, Some(50), None, TimeInForce::Gtc), &mut c).unwrap();
    let end = SimulationClock::new(100);
    let mut s = EngineContext {
        clock: &end,
        instrument: &inst,
        positions: vec![("BTC".to_string(), Position::new(d(2, 0), d(90, 0))), ("ETH".to_string(), Position::new(d(0, 0), d(1, 0)))],
        fills: Vec::new(),
        trade_records: Vec::new(),
        account_ops: Vec::new(),
    };
    e.settle(&mut s).unwrap();
    assert_eq!(s.account_ops.len(), 1);
    match &s.account_ops[0] {
        AccountOp::ForceClose(id, p) => {
            assert_eq!(id, "BTC");
            assert!(same(*p, d(99, 0)));
        },
        _ => panic!("expected a forced close"),
    }
    assert_eq!(s.trade_records.len(), 1);
    assert_eq!(s.trade_records[0].reject_reason, Some("cancelled: run ended".to_string()));
    assert_eq!(s.trade_records[0].ts_fill, 100);
}

#[test]
fn settlement_without_price_does_nothing() {
    let inst = btc();
    let clock = SimulationClock::new(10);
    let mut e = OrderBookEngine::new(0, None);
    let mut c = ctx(&clock, &inst);
    e.submit_order(order(Side::Buy, OrderType::Limit, 1, Some(50), None, TimeInForce::Gtc), &mut c).unwrap();
    let mut s = ctx(&clock, &inst);
    e.settle(&mut s).unwrap();
    assert!(s.trade_records.is_empty());
    assert!(s.account_ops.is_empty());
}

#[test]
fn book_deltas() {
    let mut b = BookView::new();
    assert!(b.is_empty());
    b.apply_delta(&Side::Buy, d(99, 0), d(2, 0), &BookAction::Add);
    b.apply_delta(&Side::Buy, d(98, 0), d(1, 0), &BookAction::Add);
    b.apply_delta(&Side::Sell, d(101, 0), d(4, 0), &BookAction::Add);
    assert!(same(b.best_bid().unwrap().0, d(99, 0)));
    assert!(same(b.best_ask().unwrap().1, d(4, 0)));
    assert!(same(b.mid().unwrap().unwrap(), d(100, 0)));
    b.apply_delta(&Side::Buy, d(990, 1), d(0, 0), &BookAction::Modify);
    assert!(same(b.best_bid().unwrap().0, d(98, 0)));
    b.apply_delta(&Side::Sell, d(101, 0), d(0, 0), &BookAction::Delete);
    assert!(b.best_ask().is_none());
    assert!(b.mid().is_none());
    b.apply_delta(&Side::Buy, d(0, 0), d(0, 0), &BookAction::Clear);
    assert!(b.is_empty());
}

#[test]
fn book_walks() {
    let mut b = BookView::new();
    b.apply_snapshot(&vec![(d(99, 0), d(1, 0)), (d(98, 0), d(5, 0)), (d(97, 0), d(0, 0))], &vec![(d(101, 0), d(2, 0)), (d(103, 0), d(1, 0))]);
    assert_eq!(b.bids().len(), 2);
    let a = b.walk_asks(d(25, 1)).unwrap();
    assert_eq!(a.len(), 2);
    assert!(same(a[0].0, d(101, 0)) && same(a[0].1, d(2, 0)));
    assert!(same(a[1].0, d(103, 0)) && same(a[1].1, d(5, 1)));
    let w = b.walk_bids(d(10, 0)).unwrap();
    assert_eq!(w.len(), 2);
    assert!(same(w[0].0, d(99, 0)) && same(w[1].1, d(5, 0)));
}

fn drive<E: Engine>(engine: &mut E, clock: &SimulationClock, inst: &Instrument) -> usize {
    let mut c = ctx(clock, inst);
    Engine::submit_order(engine, order(Side::Buy, OrderType::Market, 1, None, None, TimeInForce::Gtc), &mut c).unwrap();
    Engine::on_event(engine, &event(20, bar(100, 101, 97, 99)), &mut c).unwrap();
    Engine::settle(engine, &mut c).unwrap();
    assert!(Engine::supports_order_type(engine, &OrderType::Limit));
    c.fills.len()
}

#[test]
fn engine_interface_dispatches() {
    let inst = btc();
    let clock = SimulationClock::new(10);
    let mut e = OrderBookEngine::new(0, None);
    assert_eq!(drive(&mut e, &clock, &inst), 1);
    assert_eq!(Engine::current_fidelity(&e), FidelityLevel::Bar);
}

#[test]
fn settlement_leaves_nothing_to_settle_again() {
    let inst = btc();
    let clock = SimulationClock::new(10);
    let mut e = OrderBookEngine::new(0, None);
    let mut c = ctx(&clock, &inst);
    e.on_event(&event(5, bar(100, 101, 97, 99)), &mut c).unwrap();
    e.submit_order(order(Side::Buy, OrderType::Market, 1, None, None, TimeInForce::Gtc), &mut c).unwrap();
    e.submit_order(order(Side::Sell, OrderType::Limit, 1, Some(500), None, TimeInForce::Gtc), &mut c).unwrap();
    let mut first = ctx(&clock, &inst);
    e.settle(&mut first).unwrap();
    // The buffered market order fills at the settlement price; the limit order is cancelled.
    assert_eq!(first.fills.len(), 1);
    assert!(same(first.fills[0].fill_price, d(99, 0)));
    assert_eq!(first.trade_records.len(), 2);
    // The cancellation is recorded before the fill.
    assert!(first.trade_records[0].rejected);
    assert_eq!(first.trade_records[0].reject_reason, Some("cancelled: run ended".to_string()));
    assert!(!first.trade_records[1].rejected);
    let mut second = ctx(&clock, &inst);
    e.settle(&mut second).unwrap();
    assert!(second.fills.is_empty());
    assert!(second.trade_records.is_empty());
}

#[test]
fn gtc_market_order_rest_waits_for_the_next_bar() {
    let inst = btc();
    let clock = SimulationClock::new(10);
    let mut e = OrderBookEngine::new(0, None);
    let mut c = ctx(&clock, &inst);
    e.on_event(
        &event(5, MarketPayload::BookSnapshot { bids: vec![(d(99, 0), d(1, 0))], asks: vec![(d(101, 0), d(1, 0))], depth: 1 }),
        &mut c,
    )
    .unwrap();
    let r = e.submit_order(order(Side::Buy, OrderType::Market, 3, None, None, TimeInForce::Gtc), &mut c).unwrap();
    match r {
        OrderResult::PartialFill(f) => assert!(same(f.fill_qty, d(1, 0))),
        _ => panic!("expected a partial fill"),
    }
    // The unfilled 2 stay buffered and fill at the next bar's open.
    e.on_event(&event(20, bar(105, 106, 104, 105)), &mut c).unwrap();
    assert_eq!(c.fills.len(), 2);
    assert!(same(c.fills[1].fill_qty, d(2, 0)));
    assert!(same(c.fills[1].fill_price, d(105, 0)));
}

#[test]
fn ioc_market_order_rest_is_dropped() {
    let inst = btc();
    let clock = SimulationClock::new(10);
    let mut e = OrderBookEngine::new(0, None);
    let mut c = ctx(&clock, &inst);
    e.on_event(
        &event(5, MarketPayload::BookSnapshot { bids: vec![(d(99, 0), d(1, 0))], asks: vec![(d(101, 0), d(1, 0))], depth: 1 }),
        &mut c,
    )
    .unwrap();
    e.submit_order(order(Side::Buy, OrderType::Market, 3, None, None, TimeInForce::Ioc), &mut c).unwrap();
    e.on_event(&event(20, bar(105, 106, 104, 105)), &mut c).unwrap();
    assert_eq!(c.fills.len(), 1);
}

#[test]
fn quote_replaces_stale_better_levels() {
    let inst = btc();
    let clock = SimulationClock::new(10);
    let mut e = OrderBookEngine::new(0, None);
    let mut c = ctx(&clock, &inst);
    e.on_event(&event(5, MarketPayload::Quote { bid: d(99, 0), bid_size: d(3, 0), ask: d(101, 0), ask_size: d(2, 0) }), &mut c)
        .unwrap();
    e.on_event(&event(6, MarketPayload::Quote { bid: d(98, 0), bid_size: d(3, 0), ask: d(102, 0), ask_size: d(2, 0) }), &mut c)
        .unwrap();
    // The touch is the latest quote: a buy fills at 102, not at the stale 101.
    match e.submit_order(order(Side::Buy, OrderType::Market, 1, None, None, TimeInForce::Gtc), &mut c).unwrap() {
        OrderResult::Filled(f) => assert!(same(f.fill_price, d(102, 0))),
        _ => panic!("expected a fill"),
    }
    match e.submit_order(order(Side::Sell, OrderType::Market, 1, None, None, TimeInForce::Gtc), &mut c).unwrap() {
        OrderResult::Filled(f) => assert!(same(f.fill_price, d(98, 0))),
        _ => panic!("expected a fill"),
    }
}

#[test]
fn book_quote_sets_the_touch() {
    let mut b = BookView::new();
    b.apply_delta(&Side::Buy, d(100, 0), d(1, 0), &BookAction::Add);
    b.apply_delta(&Side::Sell, d(100, 0), d(1, 0), &BookAction::Add);
    b.apply_quote(d(97, 0), d(4, 0), d(103, 0), d(5, 0));
    let (bp, bs) = b.best_bid().unwrap();
    let (ap, asz) = b.best_ask().unwrap();
    assert!(same(bp, d(97, 0)) && same(bs, d(4, 0)));
    assert!(same(ap, d(103, 0)) && same(asz, d(5, 0)));
    assert_eq!(b.bids().len(), 1);
    assert_eq!(b.asks().len(), 1);
}

#[test]
fn settlement_fills_buffered_orders_then_closes_their_position() {
    let inst = btc();
    let clock = SimulationClock::new(10);
    let mut e = OrderBookEngine::new(0, None);
    let mut c = ctx(&clock, &inst);
    e.on_event(&event(5, bar(100, 101, 99, 100)), &mut c).unwrap();
    // No book data: the market order is buffered.
    e.submit_order(order(Side::Buy, OrderType::Market, 1, None, None, TimeInForce::Gtc), &mut c).unwrap();
    let mut s = ctx(&clock, &inst);
    e.settle(&mut s).unwrap();
    assert_eq!(s.fills.len(), 1);
    assert_eq!(s.account_ops.len(), 2);
    assert!(matches!(s.account_ops[0], AccountOp::ReportFill(_)));
    match &s.account_ops[1] {
        AccountOp::ForceClose(id, p) => {
            assert_eq!(id, "BTC");
            assert!(same(*p, d(100, 0)));
        },
        _ => panic!("expected a forced close"),
    }
}
