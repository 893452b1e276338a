//! Validation of a run request: bad requests are rejected with typed errors
//! before anything runs.
use vstd::prelude::*;

use crate::capability::{HAS_FUNDING, HAS_LIQUIDATION, HAS_MARK_PRICE, IS_FUNGIBLE_SKU, IS_LEVERAGED, IS_UNIQUE};
use crate::instrument::{Instrument, PriceFormation};
use crate::manifest::{i64_text, i64_to_string, SimError, SimErrorView};
use crate::market_event::{MarketEvent, MarketPayload};
use crate::run_request::RunRequest;
use crate::types::EngineType;

verus! {

/// The `Debug` name of a price formation.
pub open spec fn formation_name(pf: PriceFormation) -> Seq<char> {
    match pf {
        PriceFormation::Clob => "Clob"@,
        PriceFormation::Amm => "Amm"@,
        PriceFormation::Nav => "Nav"@,
        PriceFormation::Dealer => "Dealer"@,
        PriceFormation::Chain => "Chain"@,
        PriceFormation::Otc => "Otc"@,
        PriceFormation::Marketplace => "Marketplace"@,
        PriceFormation::Oracle => "Oracle"@,
    }
}

/// The outcome of the price-formation check: only order books are implemented.
pub open spec fn spec_formation_check(inst: Instrument) -> Result<(), SimErrorView> {
    if inst.price_formation == PriceFormation::Clob {
        Ok(())
    } else {
        Err(SimErrorView::EngineNotImplemented(formation_name(inst.price_formation)))
    }
}

/// The outcome of the capability check: funding requires mark prices,
/// liquidation requires leverage, and unique and fungible-SKU exclude each other.
pub open spec fn spec_capability_check(inst: Instrument) -> Result<(), SimErrorView> {
    let caps = inst.capabilities;
    if caps.has(HAS_FUNDING) && !caps.has(HAS_MARK_PRICE) {
        Err(SimErrorView::ValidationError("instrument "@ + inst.id@ + ": HasFunding requires HasMarkPrice"@))
    } else if caps.has(HAS_LIQUIDATION) && !caps.has(IS_LEVERAGED) {
        Err(SimErrorView::ValidationError("instrument "@ + inst.id@ + ": HasLiquidation requires IsLeveraged"@))
    } else if caps.has(IS_UNIQUE) && caps.has(IS_FUNGIBLE_SKU) {
        Err(SimErrorView::ValidationError("instrument "@ + inst.id@ + ": IsUnique and IsFungibleSKU are mutually exclusive"@))
    } else {
        Ok(())
    }
}

/// The payload carries prices the order-book engine can run on.
pub open spec fn is_price_payload(p: MarketPayload) -> bool {
    match p {
        MarketPayload::Bar { .. } | MarketPayload::Quote { .. } | MarketPayload::Trade { .. }
        | MarketPayload::BookSnapshot { .. } | MarketPayload::BookDelta { .. } | MarketPayload::Mark { .. }
        | MarketPayload::DerivedBar { .. } => true,
        _ => false,
    }
}

/// Some event is for the instrument.
pub open spec fn has_events(events: Seq<MarketEvent>, id: Seq<char>) -> bool {
    exists|j: int| 0 <= j < events.len() && (#[trigger] events[j]).instrument_id@ == id
}

/// Some event of the instrument carries prices.
pub open spec fn has_price_data(events: Seq<MarketEvent>, id: Seq<char>) -> bool {
    exists|j: int| 0 <= j < events.len() && (#[trigger] events[j]).instrument_id@ == id && is_price_payload(events[j].payload)
}

/// A data-sufficiency error of engine A with one missing requirement.
pub open spec fn insufficient(id: Seq<char>, missing: Seq<char>) -> SimErrorView {
    SimErrorView::DataSufficiencyError {
        instrument_id: id,
        engine: EngineType::A,
        missing_required: seq![missing],
        non_derivable_conflicts: Seq::empty(),
        degraded_fidelity: Seq::empty(),
    }
}

/// The outcome of the data-sufficiency check: an order-book instrument needs
/// bar, quote, trade, book or mark data.
pub open spec fn spec_sufficiency_check(inst: Instrument, events: Seq<MarketEvent>) -> Result<(), SimErrorView> {
    if has_price_data(events, inst.id@) {
        Ok(())
    } else {
        Err(insufficient(inst.id@, "Bar OR Quote OR Trade OR BookSnapshot OR Mark"@))
    }
}

/// The first failing instrument configuration, in order: price formation, then capabilities.
pub open spec fn first_config_error(insts: Seq<Instrument>) -> Result<(), SimErrorView>
    decreases insts.len(),
{
    if insts.len() == 0 {
        Ok(())
    } else {
        match spec_formation_check(insts[0]) {
            Err(e) => Err(e),
            Ok(_) => match spec_capability_check(insts[0]) {
                Err(e) => Err(e),
                Ok(_) => first_config_error(insts.drop_first()),
            },
        }
    }
}

/// The first instrument without any event.
pub open spec fn first_without_events(insts: Seq<Instrument>, events: Seq<MarketEvent>) -> Result<(), SimErrorView>
    decreases insts.len(),
{
    if insts.len() == 0 {
        Ok(())
    } else if !has_events(events, insts[0].id@) {
        Err(insufficient(insts[0].id@, "any market event"@))
    } else {
        first_without_events(insts.drop_first(), events)
    }
}

/// The first instrument without price data.
pub open spec fn first_insufficient(insts: Seq<Instrument>, events: Seq<MarketEvent>) -> Result<(), SimErrorView>
    decreases insts.len(),
{
    if insts.len() == 0 {
        Ok(())
    } else {
        match spec_sufficiency_check(insts[0], events) {
            Err(e) => Err(e),
            Ok(_) => first_insufficient(insts.drop_first(), events),
        }
    }
}

/// Validation of a request, in order: every instrument's configuration; the
/// time window (`time_end` after `time_start`, warmup not after the start);
/// every instrument has events; every instrument has price data; the latency
/// is not negative. The first violation is the error.
pub open spec fn spec_validate(
    insts: Seq<Instrument>,
    events: Seq<MarketEvent>,
    time_start: i64,
    time_end: i64,
    warmup_start: Option<i64>,
    latency_ns: i64,
) -> Result<(), SimErrorView> {
    match first_config_error(insts) {
        Err(e) => Err(e),
        Ok(_) => if time_end <= time_start {
            Err(
                SimErrorView::ValidationError(
                    "time_end ("@ + i64_text(time_end) + ") must be after time_start ("@ + i64_text(time_start) + ")"@,
                ),
            )
        } else if warmup_start matches Some(w) && w > time_start {
            Err(
                SimErrorView::ValidationError(
                    "warmup_start ("@ + i64_text(warmup_start->0) + ") must be <= time_start ("@ + i64_text(time_start)
                        + ")"@,
                ),
            )
        } else {
            match first_without_events(insts, events) {
                Err(e) => Err(e),
                Ok(_) => match first_insufficient(insts, events) {
                    Err(e) => Err(e),
                    Ok(_) => if latency_ns < 0 {
                        Err(SimErrorView::ValidationError("latency_ns must be >= 0, got "@ + i64_text(latency_ns)))
                    } else {
                        Ok(())
                    },
                },
            }
        },
    }
}

/// The outcome of a check as a view.
pub open spec fn res_view(r: Result<(), SimError>) -> Result<(), SimErrorView> {
    match r {
        Ok(_) => Ok(()),
        Err(e) => Err(e.view()),
    }
}

/// Builds `"instrument {id}{suffix}"`.
fn instrument_message(id: &String, suffix: &str) -> (r: String)
    ensures
        r@ == "instrument "@ + id@ + suffix@,
{
    let mut s = String::from_str("instrument ");
    s.append(id.as_str());
    s.append(suffix);
    s
}

/// A data-sufficiency error of engine A.
fn insufficient_error(id: &String, missing: &str) -> (r: SimError)
    ensures
        r.view() == insufficient(id@, missing@),
{
    let mut req: Vec<String> = Vec::new();
    req.push(String::from_str(missing));
    let conflicts = Vec::new();
    let degraded = Vec::new();
    let r = SimError::DataSufficiencyError {
        instrument_id: id.clone(),
        engine: EngineType::A,
        missing_required: req,
        non_derivable_conflicts: conflicts,
        degraded_fidelity: degraded,
    };
    proof {
        assert(crate::manifest::strings_view(req@) =~= seq![missing@]);
        assert(conflicts@ =~= Seq::<crate::manifest::ResolutionConflict>::empty());
        assert(degraded@.map_values(|w: crate::manifest::FidelityWarning| (w.missing_payload_class@, w.fidelity_impact@)) =~= Seq::<(Seq<char>, Seq<char>)>::empty());
    }
    r
}

/// Checks run requests.
pub struct ContractValidator;

impl ContractValidator {
    /// Only order-book instruments have an engine.
    pub fn validate_instrument_price_formation(instrument: &Instrument) -> (r: Result<(), SimError>)
        ensures
            res_view(r) == spec_formation_check(*instrument),
    {
        let name = match instrument.price_formation {
            PriceFormation::Clob => return Ok(()),
            PriceFormation::Amm => String::from_str("Amm"),
            PriceFormation::Nav => String::from_str("Nav"),
            PriceFormation::Dealer => String::from_str("Dealer"),
            PriceFormation::Chain => String::from_str("Chain"),
            PriceFormation::Otc => String::from_str("Otc"),
            PriceFormation::Marketplace => String::from_str("Marketplace"),
            PriceFormation::Oracle => String::from_str("Oracle"),
        };
        Err(SimError::EngineNotImplemented(name))
    }

    /// Capabilities must be consistent; see [`spec_capability_check`].
    pub fn validate_capability_consistency(instrument: &Instrument) -> (r: Result<(), SimError>)
        ensures
            res_view(r) == spec_capability_check(*instrument),
    {
        let caps = instrument.capabilities;
        if caps.contains(HAS_FUNDING) && !caps.contains(HAS_MARK_PRICE) {
            return Err(SimError::ValidationError(instrument_message(&instrument.id, ": HasFunding requires HasMarkPrice")));
        }
        if caps.contains(HAS_LIQUIDATION) && !caps.contains(IS_LEVERAGED) {
            return Err(SimError::ValidationError(instrument_message(&instrument.id, ": HasLiquidation requires IsLeveraged")));
        }
        if caps.contains(IS_UNIQUE) && caps.contains(IS_FUNGIBLE_SKU) {
            return Err(
                SimError::ValidationError(
                    instrument_message(&instrument.id, ": IsUnique and IsFungibleSKU are mutually exclusive"),
                ),
            );
        }
        Ok(())
    }

    /// The instrument must have price data among the events.
    pub fn validate_data_sufficiency(instrument: &Instrument, events: &Vec<MarketEvent>) -> (r: Result<(), SimError>)
        ensures
            res_view(r) == spec_sufficiency_check(*instrument, events@),
    {
        let mut i: usize = 0;
        while i < events.len()
            invariant
                0 <= i <= events.len(),
                forall|j: int| 0 <= j < i ==> !((#[trigger] events@[j]).instrument_id@ == instrument.id@ && is_price_payload(events@[j].payload)),
            decreases events.len() - i,
        {
            let e = &events[i];
            if e.instrument_id == instrument.id {
                let price = match &e.payload {
                    MarketPayload::Bar { .. } | MarketPayload::Quote { .. } | MarketPayload::Trade { .. }
                    | MarketPayload::BookSnapshot { .. } | MarketPayload::BookDelta { .. } | MarketPayload::Mark { .. }
                    | MarketPayload::DerivedBar { .. } => true,
                    _ => false,
                };
                if price {
                    return Ok(());
                }
            }
            i = i + 1;
        }
        Err(insufficient_error(&instrument.id, "Bar OR Quote OR Trade OR BookSnapshot OR Mark"))
    }

    /// Validates a run request; see [`spec_validate`].
    pub fn validate<S, A>(request: &RunRequest<S, A>) -> (r: Result<(), SimError>)
        ensures
            res_view(r) == spec_validate(
                request.instruments@,
                request.events@,
                request.time_start,
                request.time_end,
                request.warmup_start,
                request.latency_ns,
            ),
    {
        let insts = &request.instruments;
        let events = &request.events;
        let mut i: usize = 0;
        assert(insts@.skip(0) =~= insts@);
        while i < insts.len()
            invariant
                0 <= i <= insts.len(),
                insts@ == request.instruments@,
                first_config_error(insts@) == first_config_error(insts@.skip(i as int)),
            decreases insts.len() - i,
        {
            proof {
                assert(insts@.skip(i as int).drop_first() =~= insts@.skip(i + 1));
                assert(insts@.skip(i as int)[0] == insts@[i as int]);
            }
            match Self::validate_instrument_price_formation(&insts[i]) {
                Ok(_) => {},
                Err(e) => return Err(e),
            }
            match Self::validate_capability_consistency(&insts[i]) {
                Ok(_) => {},
                Err(e) => return Err(e),
            }
            i = i + 1;
        }
        assert(insts@.skip(insts.len() as int).len() == 0);
        if request.time_end <= request.time_start {
            let mut s = String::from_str("time_end (");
            s.append(i64_to_string(request.time_end).as_str());
            s.append(") must be after time_start (");
            s.append(i64_to_string(request.time_start).as_str());
            s.append(")");
            return Err(SimError::ValidationError(s));
        }
        if let Some(warmup_start) = request.warmup_start {
            if warmup_start > request.time_start {
                let mut s = String::from_str("warmup_start (");
                s.append(i64_to_string(warmup_start).as_str());
                s.append(") must be <= time_start (");
                s.append(i64_to_string(request.time_start).as_str());
                s.append(")");
                return Err(SimError::ValidationError(s));
            }
        }
        let mut k: usize = 0;
        assert(insts@.skip(0) =~= insts@);
        while k < insts.len()
            invariant
                0 <= k <= insts.len(),
                insts@ == request.instruments@,
                events@ == request.events@,
                first_config_error(insts@) is Ok,
                request.time_end > request.time_start,
                !(request.warmup_start matches Some(w) && w > request.time_start),
                first_without_events(insts@, events@) == first_without_events(insts@.skip(k as int), events@),
            decreases insts.len() - k,
        {
            proof {
                assert(insts@.skip(k as int).drop_first() =~= insts@.skip(k + 1));
                assert(insts@.skip(k as int)[0] == insts@[k as int]);
            }
            let id = &insts[k].id;
            let mut found = false;
            let mut j: usize = 0;
            while j < events.len() && !found
                invariant
                    0 <= j <= events.len(),
                    found ==> has_events(events@, id@),
                    !found ==> forall|q: int| 0 <= q < j ==> (#[trigger] events@[q]).instrument_id@ != id@,
                decreases events.len() - j,
            {
                if events[j].instrument_id == *id {
                    found = true;
                }
                j = j + 1;
            }
            if !found {
                return Err(insufficient_error(id, "any market event"));
            }
            k = k + 1;
        }
        let mut m: usize = 0;
        assert(insts@.skip(insts.len() as int).len() == 0);
        assert(insts@.skip(0) =~= insts@);
        while m < insts.len()
            invariant
                0 <= m <= insts.len(),
                insts@ == request.instruments@,
                events@ == request.events@,
                first_config_error(insts@) is Ok,
                first_without_events(insts@, events@) is Ok,
                request.time_end > request.time_start,
                !(request.warmup_start matches Some(w) && w > request.time_start),
                first_insufficient(insts@, events@) == first_insufficient(insts@.skip(m as int), events@),
            decreases insts.len() - m,
        {
            proof {
                assert(insts@.skip(m as int).drop_first() =~= insts@.skip(m + 1));
                assert(insts@.skip(m as int)[0] == insts@[m as int]);
            }
            match Self::validate_data_sufficiency(&insts[m], events) {
                Ok(_) => {},
                Err(e) => return Err(e),
            }
            m = m + 1;
        }
        assert(insts@.skip(insts.len() as int).len() == 0);
        if request.latency_ns < 0 {
            let mut s = String::from_str("latency_ns must be >= 0, got ");
            s.append(i64_to_string(request.latency_ns).as_str());
            return Err(SimError::ValidationError(s));
        }
        Ok(())
    }
}

/// The payloads the order-book engine takes prices from: bars, quotes,
/// trades, book snapshots and deltas, marks and derived bars.
pub open spec fn carries_prices(p: MarketPayload) -> bool {
    ||| p is Bar
    ||| p is Quote
    ||| p is Trade
    ||| p is BookSnapshot
    ||| p is BookDelta
    ||| p is Mark
    ||| p is DerivedBar
}

/// An event of the instrument that carries prices.
pub open spec fn priced_event_for(events: Seq<MarketEvent>, id: Seq<char>, j: int) -> bool {
    0 <= j < events.len() && events[j].instrument_id@ == id && carries_prices(events[j].payload)
}

/// An instrument passes the data-sufficiency check exactly when one of its
/// events carries prices (a single quote is enough); otherwise the check
/// names the missing requirement.
pub proof fn price_data_suffices(inst: Instrument, events: Seq<MarketEvent>)
    ensures
        (exists|j: int| #[trigger] priced_event_for(events, inst.id@, j)) ==> spec_sufficiency_check(inst, events) == Ok::<
            (),
            SimErrorView,
        >(()),
        !(exists|j: int| #[trigger] priced_event_for(events, inst.id@, j)) ==> spec_sufficiency_check(inst, events) == Err::<
            (),
            SimErrorView,
        >(insufficient(inst.id@, "Bar OR Quote OR Trade OR BookSnapshot OR Mark"@)),
{
    if exists|j: int| #[trigger] priced_event_for(events, inst.id@, j) {
        let j = choose|j: int| #[trigger] priced_event_for(events, inst.id@, j);
        assert(events[j].instrument_id@ == inst.id@ && is_price_payload(events[j].payload));
    } else {
        assert forall|j: int| 0 <= j < events.len() && (#[trigger] events[j]).instrument_id@ == inst.id@ implies !is_price_payload(
            events[j].payload,
        ) by {
            assert(!priced_event_for(events, inst.id@, j));
        }
    }
}

/// When every instrument has an event carrying prices, no instrument fails
/// the data-sufficiency stage of validation.
pub proof fn priced_instruments_pass_sufficiency(insts: Seq<Instrument>, events: Seq<MarketEvent>)
    requires
        forall|i: int| 0 <= i < insts.len() ==> exists|j: int| #[trigger] priced_event_for(events, (#[trigger] insts[i]).id@, j),
    ensures
        first_insufficient(insts, events) == Ok::<(), SimErrorView>(()),
    decreases insts.len(),
{
    if insts.len() > 0 {
        price_data_suffices(insts[0], events);
        assert forall|i: int| 0 <= i < insts.drop_first().len() implies exists|j: int| #[trigger] priced_event_for(
            events,
            (#[trigger] insts.drop_first()[i]).id@,
            j,
        ) by {
            assert(insts.drop_first()[i] == insts[i + 1]);
        }
        priced_instruments_pass_sufficiency(insts.drop_first(), events);
    }
}

} // verus!
