use backtesting_suite::account::SimpleAccount;
use backtesting_suite::capability::CapabilityFlags;
use backtesting_suite::decimal::Dec;
use backtesting_suite::instrument::{AssetClass, Instrument, PriceFormation};
use backtesting_suite::manifest::SimError;
use backtesting_suite::market_event::{MarketEvent, MarketPayload};
use backtesting_suite::market_view::{BarData, MarketView};
use backtesting_suite::ports::Account;
use backtesting_suite::run_request::RunRequest;
use backtesting_suite::event_loop::bar_for_strategy;
use backtesting_suite::single_run::{RunState, SingleRun};
use backtesting_suite::strategy::Strategy;
use backtesting_suite::trade::{Order, OrderType, TimeInForce};
use backtesting_suite::types::{SettlementType, Side};

fn d(mantissa: i128, scale: u32) -> Dec {
    Dec { mantissa, scale }
}

fn same(a: Dec, b: Dec) -> bool {
    a.same_value(&b)
}

fn instrument(id: &str, pf: PriceFormation) -> Instrument {
    Instrument {
        id: id.to_string(),
        symbol: id.to_string(),
        exchange: "TEST".to_string(),
        currency: "USD".to_string(),
        asset_class: AssetClass::CryptoSpot,
        price_formation: pf,
        capabilities: CapabilityFlags::empty(),
        tick_size: d(1, 2),
        lot_size: d(1, 0),
        contract_multiplier: d(1, 0),
        settlement: SettlementType::Cash,
        fee_schedule: None,
    }
}

fn event(id: &str, ts: i64, payload: MarketPayload) -> MarketEvent {
    MarketEvent {
        instrument_id: id.to_string(),
        entity_id: None,
        venue_id: "TEST".to_string(),
        ts_event: ts,
        ts_available: None,
        ts_recv: ts,
        seq: 0,
        source_id: None,
        source_version: None,
        payload,
    }
}

fn bar(open: i128, high: i128, low: i128, close: i128) -> MarketPayload {
    MarketPayload::Bar {
        open: d(open, 0),
        high: d(high, 0),
        low: d(low, 0),
        close: d(close, 0),
        volume: d(1000, 0),
        interval_secs: 60,
        adjusted: false,
    }
}

fn market_order(id: &str, side: Side, qty: i128) -> Order {
    Order {
        instrument_id: id.to_string(),
        side,
        order_type: OrderType::Market,
        quantity: d(qty, 0),
        limit_price: None,
        stop_price: None,
        time_in_force: TimeInForce::Gtc,
        max_slippage_bps: None,
        submitted_ts: 0,
    }
}

/// Buys once, on the first bar it sees; remembers the bars it was shown.
struct BuyOnce {
    done: bool,
    seen: Vec<i64>,
}

impl Strategy for BuyOnce {
    fn on_bar<A: Account>(&mut self, instrument_id: &String, bar: &BarData, view: &MarketView, _account: &A) -> Vec<Order> {
        assert_eq!(view.ts, bar.ts);
        self.seen.push(bar.ts);
        if self.done {
            Vec::new()
        } else {
            self.done = true;
            vec![market_order(instrument_id, Side::Buy, 1)]
        }
    }
}

/// Never trades.
struct Idle;

impl Strategy for Idle {
    fn on_bar<A: Account>(&mut self, _id: &String, _bar: &BarData, _view: &MarketView, _account: &A) -> Vec<Order> {
        Vec::new()
    }
}

fn request<S: Strategy>(strategy: S, events: Vec<MarketEvent>) -> RunRequest<S, SimpleAccount> {
    RunRequest {
        request_id: "run-1".to_string(),
        instruments: vec![instrument("BTC", PriceFormation::Clob)],
        events,
        strategy,
        account: None,
        time_start: 0,
        time_end: 100,
        warmup_start: None,
        seed: 7,
        latency_ns: 0,
        taker_fee_bps: None,
    }
}

#[test]
fn market_order_fills_at_next_bar_open_and_is_settled() {
    let events = vec![event("BTC", 20, bar(110, 115, 108, 112)), event("BTC", 10, bar(100, 105, 95, 102))];
    let run = SingleRun::new(request(BuyOnce { done: false, seen: Vec::new() }, events)).ok().unwrap();
    let res = run.execute().0.ok().unwrap();
    assert_eq!(res.request_id, "run-1");
    assert_eq!(res.fills.len(), 1);
    let f = &res.fills[0];
    assert_eq!(f.side, Side::Buy);
    assert!(same(f.fill_price, d(110, 0)));
    assert!(same(f.fill_qty, d(1, 0)));
    assert!(same(f.fees, d(55, 3)));
    assert!(same(f.slippage_bps, d(0, 0)));
    assert_eq!(f.ts_fill, 20);
    assert_eq!(res.trade_records.len(), 1);
    let t = &res.trade_records[0];
    assert_eq!(t.ts_decision, 10);
    assert_eq!(t.ts_fill, 20);
    assert!(!t.rejected);
    let m = res.metrics;
    assert_eq!(m.total_trades, 1);
    assert_eq!(m.total_fills, 1);
    assert!(same(m.total_fees, d(55, 3)));
    assert!(same(m.total_pnl, d(-110055, 3)));
    assert!(same(m.avg_fill_price, d(110, 0)));
    assert_eq!(m.round_trips, 0);
    assert_eq!(m.winning_trips, 0);
    // 100,000 - 110 - 0.055, then the position is closed at the last close, 112.
    assert!(same(m.final_equity.unwrap(), d(100001945, 3)));
}

#[test]
fn events_after_the_end_are_not_processed() {
    let mut req = request(BuyOnce { done: false, seen: Vec::new() }, vec![
        event("BTC", 10, bar(100, 105, 95, 102)),
        event("BTC", 150, bar(110, 115, 108, 112)),
    ]);
    req.time_end = 100;
    let res = SingleRun::new(req).ok().unwrap().execute().0.ok().unwrap();
    // The order waits for a bar that never comes in the window; it is filled
    // at settlement at the last known price.
    assert_eq!(res.fills.len(), 1);
    assert!(same(res.fills[0].fill_price, d(102, 0)));
    assert_eq!(res.fills[0].ts_fill, 100);
}

#[test]
fn strategy_waits_for_the_end_of_warmup() {
    let mut req = request(BuyOnce { done: false, seen: Vec::new() }, vec![
        event("BTC", 10, bar(100, 105, 95, 102)),
        event("BTC", 20, bar(110, 115, 108, 112)),
        event("BTC", 30, bar(120, 125, 118, 122)),
    ]);
    req.warmup_start = Some(0);
    req.time_start = 20;
    let res = SingleRun::new(req).ok().unwrap().execute().0.ok().unwrap();
    // The first call is on the bar at 20, the fill at the open of the bar at 30.
    assert_eq!(res.fills.len(), 1);
    assert!(same(res.fills[0].fill_price, d(120, 0)));
    assert_eq!(res.trade_records[0].ts_decision, 20);
}

#[test]
fn idle_run_has_default_metrics_and_starting_equity() {
    let res = SingleRun::new(request(Idle, vec![event("BTC", 10, bar(100, 105, 95, 102))]))
        .ok()
        .unwrap()
        .execute().0
        .ok()
        .unwrap();
    assert!(res.fills.is_empty());
    assert!(res.trade_records.is_empty());
    assert_eq!(res.metrics.total_trades, 0);
    assert_eq!(res.metrics.total_fills, 0);
    assert!(same(res.metrics.final_equity.unwrap(), d(100000, 0)));
}

#[test]
fn injected_account_is_used() {
    let mut req = request(BuyOnce { done: false, seen: Vec::new() }, vec![
        event("BTC", 10, bar(100, 105, 95, 102)),
        event("BTC", 20, bar(110, 115, 108, 112)),
    ]);
    req.account = Some(SimpleAccount::new(d(500, 0)));
    let res = SingleRun::new(req).ok().unwrap().execute().0.ok().unwrap();
    // 500 - 110.055 + 112
    assert!(same(res.metrics.final_equity.unwrap(), d(501945, 3)));
}

#[test]
fn taker_fee_override_applies() {
    let mut req = request(BuyOnce { done: false, seen: Vec::new() }, vec![
        event("BTC", 10, bar(100, 105, 95, 102)),
        event("BTC", 20, bar(200, 215, 198, 212)),
    ]);
    req.taker_fee_bps = Some(d(10, 0));
    let res = SingleRun::new(req).ok().unwrap().execute().0.ok().unwrap();
    assert!(same(res.fills[0].fees, d(2, 1)));
}

#[test]
fn request_with_end_before_start_is_refused() {
    let mut req = request(Idle, vec![event("BTC", 10, bar(100, 105, 95, 102))]);
    req.time_start = 50;
    req.time_end = 50;
    match SingleRun::new(req) {
        Err(SimError::ValidationError(m)) => assert_eq!(m, "time_end (50) must be after time_start (50)"),
        _ => panic!("expected a validation error"),
    }
}

#[test]
fn request_with_late_warmup_is_refused() {
    let mut req = request(Idle, vec![event("BTC", 10, bar(100, 105, 95, 102))]);
    req.warmup_start = Some(5);
    match SingleRun::new(req) {
        Err(SimError::ValidationError(m)) => assert_eq!(m, "warmup_start (5) must be <= time_start (0)"),
        _ => panic!("expected a validation error"),
    }
}

#[test]
fn request_with_negative_latency_is_refused() {
    let mut req = request(Idle, vec![event("BTC", 10, bar(100, 105, 95, 102))]);
    req.latency_ns = -1;
    match SingleRun::new(req) {
        Err(SimError::ValidationError(m)) => assert_eq!(m, "latency_ns must be >= 0, got -1"),
        _ => panic!("expected a validation error"),
    }
}

#[test]
fn request_without_events_for_an_instrument_is_refused() {
    let mut req = request(Idle, vec![event("BTC", 10, bar(100, 105, 95, 102))]);
    req.instruments.push(instrument("ETH", PriceFormation::Clob));
    match SingleRun::new(req) {
        Err(SimError::DataSufficiencyError { instrument_id, missing_required, .. }) => {
            assert_eq!(instrument_id, "ETH");
            assert_eq!(missing_required, vec!["any market event".to_string()]);
        },
        _ => panic!("expected a data sufficiency error"),
    }
}

#[test]
fn request_without_price_data_is_refused() {
    let mut req = request(Idle, vec![event("BTC", 10, bar(100, 105, 95, 102))]);
    req.instruments.push(instrument("ETH", PriceFormation::Clob));
    req.events.push(event("ETH", 5, MarketPayload::TradingStatus {
        status: backtesting_suite::market_event::TradingStatusKind::Open,
        reason: None,
    }));
    match SingleRun::new(req) {
        Err(SimError::DataSufficiencyError { instrument_id, missing_required, .. }) => {
            assert_eq!(instrument_id, "ETH");
            assert_eq!(missing_required, vec!["Bar OR Quote OR Trade OR BookSnapshot OR Mark".to_string()]);
        },
        _ => panic!("expected a data sufficiency error"),
    }
}

#[test]
fn request_with_unimplemented_engine_is_refused() {
    let mut req = request(Idle, vec![event("BTC", 10, bar(100, 105, 95, 102))]);
    req.instruments.push(instrument("POOL", PriceFormation::Amm));
    match SingleRun::new(req) {
        Err(SimError::EngineNotImplemented(name)) => assert_eq!(name, "Amm"),
        _ => panic!("expected an engine error"),
    }
}

#[test]
fn run_state_routes_orders_to_their_venue() {
    let mut st = RunState::new(
        vec![instrument("BTC", PriceFormation::Clob), instrument("ETH", PriceFormation::Clob), instrument("BTC", PriceFormation::Amm)],
        0,
        0,
        0,
        None,
        0,
    );
    // A later instrument with the same id replaces the earlier one; only order-book instruments get a venue.
    assert_eq!(st.venues.len(), 1);
    assert_eq!(st.venues[0].instrument.id, "ETH");
    let (handled, ops) = st.observe(&event("ETH", 10, bar(50, 55, 45, 52))).ok().unwrap();
    assert!(handled);
    assert_eq!(ops.len(), 1);
    let (handled, ops) = st.observe(&event("BTC", 11, bar(50, 55, 45, 52))).ok().unwrap();
    assert!(!handled);
    assert!(ops.is_empty());
    assert_eq!(st.clock.current_ts(), 11);
    assert!(st.route(market_order("BTC", Side::Buy, 1)).ok().unwrap().is_empty());
    assert!(st.route(market_order("ETH", Side::Buy, 1)).ok().unwrap().is_empty());
    let (_, ops) = st.observe(&event("ETH", 20, bar(60, 65, 55, 62))).ok().unwrap();
    // The buffered order fills at the open: the account is told of the fill, then marked.
    assert_eq!(ops.len(), 2);
    assert_eq!(st.fills.len(), 1);
    assert!(same(st.fills[0].fill_price, d(60, 0)));
    let ops = st.settle_at(0, Vec::new()).ok().unwrap();
    assert!(ops.is_empty());
}

#[test]
fn strategy_sees_bars_only() {
    let e = event("BTC", 10, bar(50, 55, 45, 52));
    let b = bar_for_strategy(true, true, &e).unwrap();
    assert_eq!(b.ts, 10);
    assert!(same(b.close, d(52, 0)));
    assert!(bar_for_strategy(true, false, &e).is_none());
    assert!(bar_for_strategy(false, true, &e).is_none());
    let q = event("BTC", 10, MarketPayload::Mark { price: d(1, 0) });
    assert!(bar_for_strategy(true, true, &q).is_none());
}

/// Sells once, on the first bar it sees.
struct SellOnce {
    done: bool,
}

impl Strategy for SellOnce {
    fn on_bar<A: Account>(&mut self, instrument_id: &String, _bar: &BarData, _view: &MarketView, _account: &A) -> Vec<Order> {
        if self.done {
            Vec::new()
        } else {
            self.done = true;
            vec![market_order(instrument_id, Side::Sell, 1)]
        }
    }
}

#[test]
fn run_stops_when_the_account_overflows() {
    let mut req = request(SellOnce { done: false }, vec![
        event("BTC", 10, bar(100, 105, 95, 102)),
        event("BTC", 20, bar(110, 115, 108, 112)),
    ]);
    req.account = Some(SimpleAccount::new(d(79_228_162_514_264_337_593_543_950_335, 0)));
    assert!(SingleRun::new(req).ok().unwrap().execute().0.is_err());
}

#[test]
fn orders_for_unknown_instruments_are_dropped() {
    struct Stray;
    impl Strategy for Stray {
        fn on_bar<A: Account>(&mut self, _id: &String, _bar: &BarData, _view: &MarketView, _account: &A) -> Vec<Order> {
            vec![market_order("DOGE", Side::Buy, 1)]
        }
    }
    let req = request(Stray, vec![event("BTC", 10, bar(100, 105, 95, 102)), event("BTC", 20, bar(110, 115, 108, 112))]);
    let res = SingleRun::new(req).ok().unwrap().execute().0.ok().unwrap();
    assert!(res.fills.is_empty());
    assert!(res.trade_records.is_empty());
}

#[test]
fn strategies_need_no_bars_by_default() {
    assert_eq!(Idle.warmup_bars_required(), 0);
}

/// Buys once, on the first bar it is shown, once it has had its warmup bars.
struct BuyAfterWarmup {
    bars: usize,
    done: bool,
}

impl Strategy for BuyAfterWarmup {
    fn on_bar<A: Account>(&mut self, instrument_id: &String, _bar: &BarData, _view: &MarketView, _account: &A) -> Vec<Order> {
        if self.done {
            Vec::new()
        } else {
            self.done = true;
            vec![market_order(instrument_id, Side::Buy, 1)]
        }
    }

    fn warmup_bars_required(&self) -> usize {
        self.bars
    }
}

#[test]
fn bars_before_the_start_only_warm_up() {
    let mut req = request(BuyOnce { done: false, seen: Vec::new() }, vec![
        event("BTC", 10, bar(100, 105, 95, 102)),
        event("BTC", 20, bar(110, 115, 108, 112)),
        event("BTC", 30, bar(120, 125, 118, 122)),
    ]);
    req.time_start = 15;
    let res = SingleRun::new(req).ok().unwrap().execute().0.ok().unwrap();
    // The strategy first sees the bar at 20 and buys; the order fills at the next open.
    assert_eq!(res.fills.len(), 1);
    assert!(same(res.fills[0].fill_price, d(120, 0)));
    assert_eq!(res.trade_records[0].ts_decision, 20);
}

#[test]
fn strategy_waits_for_its_warmup_bars() {
    let mut st = RunState::new(vec![instrument("BTC", PriceFormation::Clob)], 0, 0, 0, None, 2);
    let mut shown = Vec::new();
    for ts in [10i64, 20, 30] {
        let ev = event("BTC", ts, bar(100, 105, 95, 102));
        let (handled, _ops) = st.observe(&ev).ok().unwrap();
        if let Some(b) = bar_for_strategy(handled, st.trading, &ev) {
            shown.push(b.ts);
        }
    }
    // Two bars warm up; the third is the first the strategy is shown.
    assert_eq!(shown, vec![30]);
}

#[test]
fn default_account_reports_its_opening_equity_without_fills() {
    let res = SingleRun::new(request(Idle, vec![event("BTC", 10, bar(100, 105, 95, 102))]))
        .ok()
        .unwrap()
        .execute().0
        .ok()
        .unwrap();
    assert!(res.fills.is_empty());
    assert!(same(res.metrics.final_equity.unwrap(), d(100000, 0)));
}

#[test]
fn run_counts_warmup_bars_of_the_strategy() {
    let req = request(BuyAfterWarmup { bars: 1, done: false }, vec![
        event("BTC", 10, bar(100, 105, 95, 102)),
        event("BTC", 20, bar(110, 115, 108, 112)),
        event("BTC", 30, bar(120, 125, 118, 122)),
    ]);
    let res = SingleRun::new(req).ok().unwrap().execute().0.ok().unwrap();
    // The bar at 10 warms up; the strategy buys on the bar at 20, filled at 30's open.
    assert_eq!(res.fills.len(), 1);
    assert!(same(res.fills[0].fill_price, d(120, 0)));
}

#[test]
fn events_after_the_end_change_nothing() {
    let base = vec![event("BTC", 10, bar(100, 105, 95, 102)), event("BTC", 20, bar(110, 115, 108, 112))];
    let mut with_late = base.clone();
    with_late.push(event("BTC", 200, bar(300, 305, 295, 302)));
    let a = SingleRun::new(request(BuyOnce { done: false, seen: Vec::new() }, base)).ok().unwrap().execute().0.ok().unwrap();
    let b = SingleRun::new(request(BuyOnce { done: false, seen: Vec::new() }, with_late)).ok().unwrap().execute().0.ok().unwrap();
    assert_eq!(a.fills.len(), b.fills.len());
    assert!(same(a.fills[0].fill_price, b.fills[0].fill_price));
    assert_eq!(a.trade_records.len(), b.trade_records.len());
    assert!(same(a.metrics.final_equity.unwrap(), b.metrics.final_equity.unwrap()));
}
