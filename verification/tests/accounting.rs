use backtesting_suite::account::SimpleAccount;
use backtesting_suite::capability::{CapabilityFlags, HAS_FUNDING, HAS_LIQUIDATION, HAS_MARK_PRICE, IS_FUNGIBLE_SKU, IS_LEVERAGED, IS_UNIQUE};
use backtesting_suite::decimal::Dec;
use backtesting_suite::extensions::{BorrowState, CorporateActionState, DynamicFeeState, FundingState, SessionState};
use backtesting_suite::fill::{compute_fee, compute_slippage_bps, fill_at_price};
use backtesting_suite::instrument::{AssetClass, Instrument, PriceFormation};
use backtesting_suite::manifest::SimError;
use backtesting_suite::market_event::{CorporateActionType, MarketEvent, MarketPayload, TradingSessionType};
use backtesting_suite::market_view::MarketView;
use backtesting_suite::metrics::{compute_metrics, compute_metrics_from, MetricsSummary};
use backtesting_suite::ports::Account;
use backtesting_suite::trade::{FidelityLevel, Fill, Order, OrderType, Position, TimeInForce, TradeRecord};
use backtesting_suite::types::{FeeTier, SettlementType, Side};
use backtesting_suite::validator::ContractValidator;

fn d(mantissa: i128, scale: u32) -> Dec {
    Dec { mantissa, scale }
}

fn same(a: Dec, b: Dec) -> bool {
    a.same_value(&b)
}

fn fill(id: &str, side: Side, price: i128, qty: i128, fees: Dec) -> Fill {
    Fill {
        instrument_id: id.to_string(),
        side,
        fill_price: d(price, 0),
        fill_qty: d(qty, 0),
        fees,
        slippage_bps: d(0, 0),
        ts_fill: 1,
        partial: false,
        fidelity: FidelityLevel::Bar,
    }
}

fn record(id: &str, side: Side, price: i128, qty: i128, fees: Dec, rejected: bool) -> TradeRecord {
    TradeRecord {
        ts_decision: 1,
        ts_fill: 2,
        instrument_id: id.to_string(),
        side,
        order_type: OrderType::Market,
        fill_price: d(price, 0),
        fill_qty: d(qty, 0),
        fees,
        slippage_bps: d(2, 0),
        partial: false,
        fidelity: FidelityLevel::Bar,
        rejected,
        reject_reason: None,
    }
}

fn instrument(id: &str, caps: CapabilityFlags) -> Instrument {
    Instrument {
        id: id.to_string(),
        symbol: id.to_string(),
        exchange: "TEST".to_string(),
        currency: "USD".to_string(),
        asset_class: AssetClass::Perpetual,
        price_formation: PriceFormation::Clob,
        capabilities: caps,
        tick_size: d(1, 2),
        lot_size: d(1, 0),
        contract_multiplier: d(1, 0),
        settlement: SettlementType::Cash,
        fee_schedule: None,
    }
}

fn event(id: &str, payload: MarketPayload) -> MarketEvent {
    MarketEvent {
        instrument_id: id.to_string(),
        entity_id: None,
        venue_id: "TEST".to_string(),
        ts_event: 1,
        ts_available: None,
        ts_recv: 1,
        seq: 0,
        source_id: None,
        source_version: None,
        payload,
    }
}

#[test]
fn fee_is_quantity_times_price_times_rate() {
    // 100 * 10 * 5 bps
    assert!(same(compute_fee(d(100, 0), d(10, 0), false, None, None).unwrap(), d(5, 1)));
    // Makers pay nothing by default.
    assert!(same(compute_fee(d(100, 0), d(10, 0), true, None, None).unwrap(), d(0, 0)));
    // A run override replaces the default taker rate.
    assert!(same(compute_fee(d(100, 0), d(10, 0), false, None, Some(d(20, 0))).unwrap(), d(2, 0)));
}

#[test]
fn fee_priority_override_then_schedule_then_default() {
    let schedule = vec![
        FeeTier { min_volume: d(0, 0), maker_bps: d(1, 0), taker_bps: d(3, 0) },
        FeeTier { min_volume: d(1000, 0), maker_bps: d(0, 0), taker_bps: d(1, 0) },
    ];
    // The run-level taker override (20 bps) beats the schedule for takers.
    assert!(same(compute_fee(d(100, 0), d(10, 0), false, Some(&schedule), Some(d(20, 0))).unwrap(), d(2, 0)));
    // Without an override the schedule's first tier applies.
    assert!(same(compute_fee(d(100, 0), d(10, 0), false, Some(&schedule), None).unwrap(), d(3, 1)));
    // Makers take the schedule's maker rate; the taker override does not apply to them.
    assert!(same(compute_fee(d(100, 0), d(10, 0), true, Some(&schedule), Some(d(20, 0))).unwrap(), d(1, 1)));
    // An empty schedule falls back to the default taker rate.
    let empty: Vec<FeeTier> = Vec::new();
    assert!(same(compute_fee(d(100, 0), d(10, 0), false, Some(&empty), None).unwrap(), d(5, 1)));
    // One unit at 100 with a 5 bps override over a 10 bps tier pays 0.05.
    let tier10 = vec![FeeTier { min_volume: d(0, 0), maker_bps: d(1, 0), taker_bps: d(10, 0) }];
    assert!(same(compute_fee(d(1, 0), d(100, 0), false, Some(&tier10), Some(d(5, 0))).unwrap(), d(5, 2)));
}

#[test]
fn slippage_in_basis_points() {
    assert!(same(compute_slippage_bps(d(101, 0), d(100, 0), &Side::Buy).unwrap(), d(100, 0)));
    assert!(same(compute_slippage_bps(d(101, 0), d(100, 0), &Side::Sell).unwrap(), d(-100, 0)));
    assert!(same(compute_slippage_bps(d(99, 0), d(100, 0), &Side::Unknown).unwrap(), d(100, 0)));
    assert!(same(compute_slippage_bps(d(99, 0), d(0, 0), &Side::Buy).unwrap(), d(0, 0)));
}

#[test]
fn bar_fill_at_price() {
    let o = Order {
        instrument_id: "BTC".to_string(),
        side: Side::Sell,
        order_type: OrderType::Market,
        quantity: d(3, 0),
        limit_price: None,
        stop_price: None,
        time_in_force: TimeInForce::Gtc,
        max_slippage_bps: None,
        submitted_ts: 0,
    };
    let f = fill_at_price(&o, d(200, 0), 9, None, None, d(200, 0)).unwrap();
    assert!(same(f.fill_qty, d(3, 0)));
    assert!(same(f.fees, d(3, 1)));
    assert!(same(f.slippage_bps, d(0, 0)));
    assert_eq!(f.ts_fill, 9);
    assert_eq!(f.fidelity, FidelityLevel::Bar);
    assert!(!f.partial);
}

#[test]
fn account_books_buys_and_sells() {
    let mut a = SimpleAccount::new(d(1000, 0));
    assert!(same(a.starting_balance(), d(1000, 0)));
    a.report_fill(&fill("BTC", Side::Buy, 100, 2, d(1, 0))).unwrap();
    assert!(same(a.cash(), d(799, 0)));
    a.report_fill(&fill("BTC", Side::Buy, 130, 1, d(0, 0))).unwrap();
    let p = a.positions().unwrap();
    assert_eq!(p.len(), 1);
    assert_eq!(p[0].0, "BTC");
    assert!(same(p[0].1.qty, d(3, 0)));
    // Average cost (200 + 130) / 3
    assert!(same(p[0].1.cost_basis_per_unit, d(110, 0)));
    // Marked at the last fill price.
    assert!(same(p[0].1.unrealized_pnl, d(60, 0)));
    assert!(same(a.equity().unwrap(), d(669 + 390, 0)));
    a.report_fill(&fill("BTC", Side::Sell, 120, 3, d(2, 0))).unwrap();
    assert!(same(a.cash(), d(669 + 358, 0)));
    assert!(a.positions().unwrap().is_empty());
}

#[test]
fn account_short_and_unknown_side() {
    let mut a = SimpleAccount::new(d(1000, 0));
    a.report_fill(&fill("ETH", Side::Sell, 50, 2, d(0, 0))).unwrap();
    let p = a.positions().unwrap();
    assert!(same(p[0].1.qty, d(-2, 0)));
    assert!(same(p[0].1.cost_basis_per_unit, d(50, 0)));
    a.report_fill(&fill("ETH", Side::Unknown, 50, 2, d(3, 0))).unwrap();
    assert!(same(a.cash(), d(1097, 0)));
    a.force_close(&"ETH".to_string(), d(40, 0), "run_end").unwrap();
    assert!(same(a.cash(), d(1017, 0)));
    assert!(a.positions().unwrap().is_empty());
}

#[test]
fn account_marks_and_buying_power() {
    let mut a = SimpleAccount::new(d(100, 0));
    a.report_fill(&fill("BTC", Side::Buy, 100, 2, d(0, 0))).unwrap();
    a.update_mark_price(&"BTC".to_string(), d(90, 0));
    assert!(same(a.equity().unwrap(), d(80, 0)));
    assert!(same(a.buying_power(), d(0, 0)));
    assert!(same(a.collateral_balance(), d(0, 0)));
    a.force_close(&"XRP".to_string(), d(1, 0), "run_end").unwrap();
    assert!(same(a.cash(), d(-100, 0)));
}

#[test]
fn metrics_from_records() {
    let trades = vec![
        record("BTC", Side::Buy, 100, 2, d(1, 0), false),
        record("BTC", Side::Sell, 110, 1, d(1, 0), false),
        record("BTC", Side::Sell, 90, 1, d(1, 0), false),
        record("BTC", Side::Buy, 0, 0, d(0, 0), true),
    ];
    let fills = vec![fill("BTC", Side::Buy, 100, 2, d(1, 0)); 3];
    let m = compute_metrics_from(&trades, &fills, Some(d(5, 0))).unwrap();
    assert_eq!(m.total_trades, 3);
    assert_eq!(m.total_fills, 3);
    assert!(same(m.total_fees, d(3, 0)));
    // 200 sold - 200 bought - 3 fees
    assert!(same(m.total_pnl, d(-3, 0)));
    // 400 notional over 4 units
    assert!(same(m.avg_fill_price, d(100, 0)));
    assert!(same(m.avg_slippage_bps, d(2, 0)));
    assert_eq!(m.round_trips, 2);
    assert_eq!(m.winning_trips, 1);
    assert!(same(m.final_equity.unwrap(), d(5, 0)));
}

#[test]
fn metrics_without_trades_are_default() {
    let trades = vec![record("BTC", Side::Buy, 0, 0, d(0, 0), true)];
    let m = compute_metrics_from(&trades, &Vec::new(), None).unwrap();
    let z = MetricsSummary::default();
    assert_eq!(m.total_trades, z.total_trades);
    assert_eq!(m.total_fills, 0);
    assert!(m.final_equity.is_none());
    let acct = SimpleAccount::new(d(42, 0));
    let m2 = compute_metrics(&trades, &Vec::new(), Some(&acct)).unwrap();
    assert!(same(m2.final_equity.unwrap(), d(42, 0)));
}

#[test]
fn validator_checks_capabilities() {
    let ok = instrument("P", CapabilityFlags::empty().with(HAS_FUNDING).with(HAS_MARK_PRICE));
    assert!(ContractValidator::validate_capability_consistency(&ok).is_ok());
    let bad = instrument("P", CapabilityFlags::empty().with(HAS_FUNDING));
    match ContractValidator::validate_capability_consistency(&bad) {
        Err(SimError::ValidationError(m)) => assert_eq!(m, "instrument P: HasFunding requires HasMarkPrice"),
        _ => panic!("expected a validation error"),
    }
    let bad = instrument("L", CapabilityFlags::empty().with(HAS_LIQUIDATION));
    match ContractValidator::validate_capability_consistency(&bad) {
        Err(SimError::ValidationError(m)) => assert_eq!(m, "instrument L: HasLiquidation requires IsLeveraged"),
        _ => panic!("expected a validation error"),
    }
    let ok = instrument("L", CapabilityFlags::empty().with(HAS_LIQUIDATION).with(IS_LEVERAGED));
    assert!(ContractValidator::validate_capability_consistency(&ok).is_ok());
    let bad = instrument("N", CapabilityFlags::empty().with(IS_UNIQUE).with(IS_FUNGIBLE_SKU));
    match ContractValidator::validate_capability_consistency(&bad) {
        Err(SimError::ValidationError(m)) => assert_eq!(m, "instrument N: IsUnique and IsFungibleSKU are mutually exclusive"),
        _ => panic!("expected a validation error"),
    }
}

#[test]
fn validator_checks_price_formation_and_data() {
    let mut i = instrument("X", CapabilityFlags::empty());
    assert!(ContractValidator::validate_instrument_price_formation(&i).is_ok());
    i.price_formation = PriceFormation::Oracle;
    match ContractValidator::validate_instrument_price_formation(&i) {
        Err(SimError::EngineNotImplemented(n)) => assert_eq!(n, "Oracle"),
        _ => panic!("expected an engine error"),
    }
    let i = instrument("X", CapabilityFlags::empty());
    let events = vec![event("Y", MarketPayload::Mark { price: d(1, 0) })];
    assert!(ContractValidator::validate_data_sufficiency(&i, &events).is_err());
    let events = vec![event("X", MarketPayload::Mark { price: d(1, 0) })];
    assert!(ContractValidator::validate_data_sufficiency(&i, &events).is_ok());
}

#[test]
fn extension_states_follow_payloads() {
    let mut f = FundingState::new();
    f.update_from_payload(&MarketPayload::Funding { rate: d(1, 4), mark_price: d(100, 0), index_price: d(99, 0), next_funding_ts: 8 });
    // rate * mark * qty * multiplier: 0.0001 * 100 * 10 * 1
    assert!(same(f.apply_funding(d(10, 0), d(1, 0)).unwrap(), d(1, 1)));
    let mut b = BorrowState::new();
    b.update_from_payload(&MarketPayload::BorrowRate { borrow_rate_annualized: d(365, 3), short_availability: d(1, 0), hard_to_borrow: true });
    assert!(b.hard_to_borrow);
    b.accrue_borrow(d(-10, 0), d(100, 0), d(1, 0)).unwrap();
    // |-10| * 100 * 0.365 * 1 day
    assert!(same(b.accrued_cost, d(365, 0)));
    // A long quantity accrues nothing.
    b.accrue_borrow(d(10, 0), d(100, 0), d(1, 0)).unwrap();
    assert!(same(b.accrued_cost, d(365, 0)));
    let mut fee = DynamicFeeState::new();
    fee.update_from_payload(&MarketPayload::FeeScheduleUpdate {
        venue_id: "V".to_string(),
        instrument_id: "X".to_string(),
        maker_bps: d(1, 0),
        taker_bps: d(7, 0),
        flat_fee: None,
        tier_rules: Vec::new(),
        effective_ts: 0,
    });
    assert!(same(fee.taker_bps.unwrap(), d(7, 0)));
    let mut s = SessionState::new();
    s.update_from_payload(&MarketPayload::TradingSession {
        session_type: TradingSessionType::Regular,
        open_ts: 1,
        close_ts: 2,
        liquidity_multiplier: d(15, 1),
    });
    assert_eq!(s.session_type, Some("Regular".to_string()));
    assert!(s.is_regular_hours);
    let mut c = CorporateActionState::new();
    let inst = instrument("X", CapabilityFlags::empty());
    let r = c.apply_corporate_action(
        &MarketPayload::CorporateAction { action_type: CorporateActionType::Split { ratio: d(2, 0), ex_date: 0 } },
        &inst,
    );
    assert!(same(r.unwrap(), d(2, 0)));
    assert!(c.apply_corporate_action(&MarketPayload::Mark { price: d(1, 0) }, &inst).is_none());
}

#[test]
fn market_view_keeps_latest_data() {
    let mut v = MarketView::new(0);
    let id = "BTC".to_string();
    v.update(&id, 5, &MarketPayload::Bar {
        open: d(1, 0),
        high: d(2, 0),
        low: d(1, 0),
        close: d(2, 0),
        volume: d(10, 0),
        interval_secs: 60,
        adjusted: false,
    });
    v.update(&id, 6, &MarketPayload::Trade { price: d(3, 0), size: d(1, 0), aggressor_side: Side::Buy, trade_id: None });
    assert_eq!(v.ts, 6);
    assert_eq!(v.bars.len(), 1);
    assert_eq!(v.bars[0].1.ts, 5);
    assert!(same(v.marks[0].1, d(3, 0)));
    assert!(same(v.last_trades[0].1.price, d(3, 0)));
}

#[test]
fn position_starts_at_cost() {
    let p = Position::new(d(2, 0), d(50, 0));
    assert!(same(p.mark_price, d(50, 0)));
    assert!(same(p.unrealized_pnl, d(0, 0)));
}

#[test]
fn session_type_names_follow_debug_format() {
    let mut s = SessionState::new();
    s.update_from_payload(&MarketPayload::TradingSession {
        session_type: TradingSessionType::Other("late \"cross\"".to_string()),
        open_ts: 1,
        close_ts: 2,
        liquidity_multiplier: d(1, 0),
    });
    assert_eq!(s.session_type, Some("Other(\"late \\\"cross\\\"\")".to_string()));
}

#[test]
fn position_marks_unrealized_pnl() {
    let mut p = Position::new(d(3, 0), d(50, 0));
    p.update_mark(d(55, 0)).unwrap();
    assert!(same(p.mark_price, d(55, 0)));
    assert!(same(p.unrealized_pnl, d(15, 0)));
    let mut short = Position::new(d(-2, 0), d(50, 0));
    short.update_mark(d(55, 0)).unwrap();
    assert!(same(short.unrealized_pnl, d(-10, 0)));
}

#[test]
fn l1_fill_needs_the_whole_size() {
    let mut book = backtesting_suite::book::BookView::new();
    book.apply_delta(&Side::Sell, d(100, 0), d(3, 0), &backtesting_suite::market_event::BookAction::Add);
    let buy = |q: i128| Order {
        instrument_id: "X".to_string(),
        side: Side::Buy,
        order_type: OrderType::Market,
        quantity: d(q, 0),
        limit_price: None,
        stop_price: None,
        time_in_force: TimeInForce::Gtc,
        max_slippage_bps: None,
        submitted_ts: 0,
    };
    let f = backtesting_suite::fill::fill_l1(&buy(2), &book, 0, None, None).unwrap().unwrap();
    assert!(same(f.fill_qty, d(2, 0)));
    assert!(same(f.fill_price, d(100, 0)));
    assert!(same(f.fees, d(1, 1)));
    assert!(!f.partial);
    assert_eq!(f.fidelity, FidelityLevel::L1);
    // 5 asked, 3 shown: no fill.
    assert!(backtesting_suite::fill::fill_l1(&buy(5), &book, 0, None, None).unwrap().is_none());
    // A sell finds no bid.
    let mut sell = buy(1);
    sell.side = Side::Sell;
    assert!(backtesting_suite::fill::fill_l1(&sell, &book, 0, None, None).unwrap().is_none());
}

#[test]
fn fills_are_counted_without_trades() {
    let fill = Fill {
        instrument_id: "X".to_string(),
        side: Side::Buy,
        fill_price: d(100, 0),
        fill_qty: d(1, 0),
        fees: d(0, 0),
        slippage_bps: d(0, 0),
        ts_fill: 0,
        partial: false,
        fidelity: FidelityLevel::Bar,
    };
    let m = compute_metrics_from(&Vec::new(), &vec![fill], None).unwrap();
    assert_eq!(m.total_trades, 0);
    assert_eq!(m.total_fills, 1);
}
