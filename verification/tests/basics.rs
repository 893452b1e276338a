use backtesting_suite::capability::{CapabilityFlags, HAS_FUNDING, HAS_ORDER_BOOK, HAS_SESSIONS};
use backtesting_suite::clock::SimulationClock;
use backtesting_suite::decimal::Dec;
use backtesting_suite::event_stream::EventStream;
use backtesting_suite::manifest::SimError;
use backtesting_suite::market_event::{MarketEvent, MarketPayload};
use backtesting_suite::money::{mul_money, Money};
use backtesting_suite::types::EngineType;
use backtesting_suite::warmup::WarmupGate;

fn d(mantissa: i128, scale: u32) -> Dec {
    Dec { mantissa, scale }
}

fn same(a: Dec, b: Dec) -> bool {
    a.same_value(&b)
}

fn mark_event(id: &str, ts: i64, seq: u64) -> MarketEvent {
    MarketEvent {
        instrument_id: id.to_string(),
        entity_id: None,
        venue_id: "X".to_string(),
        ts_event: ts,
        ts_available: None,
        ts_recv: ts,
        seq,
        source_id: None,
        source_version: None,
        payload: MarketPayload::Mark { price: d(ts as i128, 0) },
    }
}

#[test]
fn clock_starts_where_told() {
    let c = SimulationClock::new(42);
    assert_eq!(c.current_ts(), 42);
}

#[test]
fn clock_moves_forward() {
    let mut c = SimulationClock::new(10);
    assert!(c.advance(10).is_ok());
    assert!(c.advance(25).is_ok());
    assert_eq!(c.current_ts(), 25);
}

#[test]
fn clock_refuses_to_go_back() {
    let mut c = SimulationClock::new(100);
    match c.advance(99) {
        Err(SimError::ValidationError(m)) => assert_eq!(m, "clock went backwards: 99 < 100"),
        _ => panic!("expected a validation error"),
    }
    assert_eq!(c.current_ts(), 100);
}

#[test]
fn clock_look_ahead_boundary() {
    let c = SimulationClock::new(50);
    assert!(c.is_look_ahead_safe(50));
    assert!(c.is_look_ahead_safe(-3));
    assert!(!c.is_look_ahead_safe(51));
}

#[test]
fn warmup_gate_opens_at_end_time() {
    let mut g = WarmupGate::new(1_000);
    assert!(!g.is_open());
    assert_eq!(g.warmup_end_ts(), 1_000);
    g.update(999);
    assert!(!g.is_open());
    g.update(1_000);
    assert!(g.is_open());
    g.update(500);
    assert!(!g.is_open());
}

#[test]
fn stream_orders_by_time_instrument_sequence() {
    let events = vec![
        mark_event("B", 20, 0),
        mark_event("A", 20, 2),
        mark_event("A", 10, 7),
        mark_event("A", 20, 1),
        mark_event("AB", 20, 0),
    ];
    let mut s = EventStream::new(events).unwrap();
    assert_eq!(s.len(), 5);
    let mut seen = Vec::new();
    while let Some(e) = s.next() {
        seen.push((e.ts_event, e.instrument_id.clone(), e.seq));
    }
    assert_eq!(
        seen,
        vec![
            (10, "A".to_string(), 7),
            (20, "A".to_string(), 1),
            (20, "A".to_string(), 2),
            (20, "AB".to_string(), 0),
            (20, "B".to_string(), 0),
        ]
    );
    assert!(s.is_empty());
    assert_eq!(s.remaining(), 0);
    assert!(s.next().is_none());
}

#[test]
fn stream_keeps_equal_keys_in_input_order() {
    let mut first = mark_event("A", 5, 3);
    first.venue_id = "first".to_string();
    let mut second = mark_event("A", 5, 3);
    second.venue_id = "second".to_string();
    let mut s = EventStream::new(vec![first, mark_event("A", 1, 0), second]).unwrap();
    assert_eq!(s.next().unwrap().ts_event, 1);
    assert_eq!(s.next().unwrap().venue_id, "first");
    assert_eq!(s.next().unwrap().venue_id, "second");
}

#[test]
fn stream_peek_does_not_advance() {
    let mut s = EventStream::new(vec![mark_event("A", 3, 0), mark_event("A", 1, 0)]).unwrap();
    assert_eq!(s.peek().unwrap().ts_event, 1);
    assert_eq!(s.remaining(), 2);
    assert_eq!(s.next().unwrap().ts_event, 1);
    assert_eq!(s.remaining(), 1);
    assert_eq!(s.peek().unwrap().ts_event, 3);
    assert!(!s.is_empty());
}

#[test]
fn empty_stream() {
    let mut s = EventStream::new(Vec::new()).unwrap();
    assert!(s.is_empty());
    assert_eq!(s.len(), 0);
    assert!(s.peek().is_none());
    assert!(s.next().is_none());
}

#[test]
fn money_arithmetic() {
    let a = Money::new(d(1050, 2));
    let b = Money::new(d(25, 1));
    assert!(same(a.add(b).unwrap().inner(), d(13, 0)));
    assert!(same(a.sub(b).unwrap().inner(), d(8, 0)));
    assert!(same(a.mul(d(2, 0)).unwrap().inner(), d(21, 0)));
    assert!(same(a.div(d(3, 0)).unwrap().inner(), d(35, 1)));
    assert!(a.div(d(0, 0)).is_err());
    assert!(same(b.neg().inner(), d(-25, 1)));
    assert!(same(b.neg().abs().inner(), d(25, 1)));
}

#[test]
fn money_signs() {
    assert!(Money::new(d(-1, 3)).is_negative());
    assert!(!Money::new(d(-1, 3)).is_positive());
    assert!(Money::new(d(1, 3)).is_positive());
    assert!(Money::new(d(0, 5)).is_zero());
    assert!(Money::zero().is_zero());
}

#[test]
fn money_display() {
    assert_eq!(Money::new(d(1050, 2)).to_string(), "10.50");
    assert_eq!(Money::new(d(-7, 0)).to_string(), "-7");
}

#[test]
fn money_overflow_is_an_error() {
    let big = Money::new(d(79_228_162_514_264_337_593_543_950_335, 0));
    assert!(big.add(big).is_err());
    assert!(big.mul(d(2, 0)).is_err());
}

#[test]
fn capability_flags_bits() {
    let f = CapabilityFlags::empty().with(HAS_ORDER_BOOK).with(HAS_FUNDING);
    assert!(f.contains(HAS_ORDER_BOOK));
    assert!(f.contains(HAS_FUNDING));
    assert!(!f.contains(HAS_SESSIONS));
    assert!(f.contains(HAS_ORDER_BOOK | HAS_FUNDING));
    assert_eq!(f.bits(), HAS_ORDER_BOOK | HAS_FUNDING);
    assert_eq!(CapabilityFlags::from_bits(f.bits()), Some(f));
}

#[test]
fn capability_flags_refuse_unknown_bits() {
    assert_eq!(CapabilityFlags::from_bits(1u64 << 60), None);
    assert_eq!(CapabilityFlags::from_bits_retain(1u64 << 60).bits(), 1u64 << 60);
}

#[test]
fn decimal_comparisons_ignore_scale() {
    assert!(same(d(10, 1), d(1, 0)));
    assert!(d(9, 1).less(&d(1, 0)));
    assert!(!d(1, 0).less(&d(100, 2)));
    assert!(d(1, 0).less_eq(&d(100, 2)));
    assert!(same(d(5, 0).min(d(3, 0)), d(3, 0)));
    assert!(same(d(5, 0).max(d(3, 0)), d(5, 0)));
    assert!(d(0, 4).is_zero());
    assert!(d(5, 0).is_valid());
    assert!(!Dec { mantissa: 1, scale: 29 }.is_valid());
}

#[test]
fn error_messages() {
    let e = SimError::ManifestViolation {
        instrument_id: "BTC".to_string(),
        engine: EngineType::A,
        missing_required: vec!["Bar".to_string(), "Quote \"L1\"".to_string()],
        warning_optional: Vec::new(),
    };
    assert_eq!(e.to_string(), "manifest violation for BTC: missing required payloads: [\"Bar\", \"Quote \\\"L1\\\"\"]");
    let e = SimError::ManifestViolation {
        instrument_id: "X".to_string(),
        engine: EngineType::B,
        missing_required: Vec::new(),
        warning_optional: Vec::new(),
    };
    assert_eq!(e.to_string(), "manifest violation for X: missing required payloads: []");
    let e = SimError::LookAheadViolation { ts: 5, feature_ts: -7 };
    assert_eq!(e.to_string(), "look-ahead violation at ts=5: feature ts_event=-7 > current_ts");
    assert_eq!(SimError::ValidationError("bad".to_string()).to_string(), "validation error: bad");
    assert_eq!(SimError::PortMissing("model".to_string()).to_string(), "port missing: model");
    assert_eq!(
        SimError::EngineNotImplemented("Amm".to_string()).to_string(),
        "engine not implemented for price_formation: Amm"
    );
}

#[test]
fn money_in_place_and_scaled() {
    let mut m = Money::new(d(10, 0));
    m.add_assign(Money::new(d(25, 1))).unwrap();
    assert!(same(m.inner(), d(125, 1)));
    m.sub_assign(Money::new(d(5, 1))).unwrap();
    assert!(same(m.inner(), d(12, 0)));
    assert!(same(mul_money(d(3, 0), m).unwrap().inner(), d(36, 0)));
    let mut big = Money::new(d(79_228_162_514_264_337_593_543_950_335, 0));
    assert!(big.add_assign(Money::new(d(79_228_162_514_264_337_593_543_950_335, 0))).is_err());
    assert!(same(big.inner(), d(79_228_162_514_264_337_593_543_950_335, 0)));
}

#[test]
fn money_text_follows_decimal_display() {
    let text = |m: i128, s: u32| Money::new(Dec { mantissa: m, scale: s }).to_string();
    assert_eq!(text(5, 3), "0.005");
    assert_eq!(text(-150, 2), "-1.50");
    assert_eq!(text(0, 2), "0.00");
    assert_eq!(text(42, 0), "42");
    assert_eq!(text(0, 0), "0");
    assert_eq!(text(-7, 0), "-7");
    assert_eq!(text(123456, 2), "1234.56");
}

#[test]
fn clock_message_has_the_digits() {
    let mut c = SimulationClock::new(0);
    match c.advance(-15) {
        Err(SimError::ValidationError(m)) => assert_eq!(m, "clock went backwards: -15 < 0"),
        _ => panic!("expected a validation error"),
    }
}
