//! The interface every price-formation engine offers the runner: market
//! events in, orders in, settlement at the end.
use vstd::prelude::*;

use crate::decimal::Overflow;
use crate::engine::{
    emitted_ok, fits_latency, spec_on_event, spec_settle, spec_submit, EngineContext, OrderBookEngine,
};
use crate::extensions::session_rel;
use crate::market_event::MarketEvent;
use crate::trade::{FidelityLevel, Order, OrderResult, OrderType};

verus! {

/// A price-formation engine. The runner hands it the events of its
/// instruments and the strategy's orders, and settles it at the end of a run;
/// everything it emits (fills, records, account calls) goes into the context's
/// buffers, with well-formed decimals.
pub trait Engine {
    /// The engine's state is well formed.
    spec fn engine_wf(&self) -> bool;

    /// The engine's order latency in nanoseconds.
    spec fn engine_latency(&self) -> i64;

    /// Processes a market event.
    fn on_event(&mut self, ev: &MarketEvent, ctx: &mut EngineContext) -> (r: Result<(), Overflow>)
        requires
            old(self).engine_wf(),
            ev.payload.wf(),
            old(ctx).instrument.wf(),
            emitted_ok(old(ctx).emitted()),
        ensures
            final(ctx).same_inputs(old(ctx)),
            emitted_ok(final(ctx).emitted()),
            r is Ok ==> final(self).engine_wf(),
    ;

    /// Submits an order for immediate or resting execution.
    fn submit_order(&mut self, order: Order, ctx: &mut EngineContext) -> (r: Result<OrderResult, Overflow>)
        requires
            old(self).engine_wf(),
            order.wf(),
            old(ctx).instrument.wf(),
            emitted_ok(old(ctx).emitted()),
            fits_latency(old(ctx).clock.now(), old(self).engine_latency()),
        ensures
            final(ctx).same_inputs(old(ctx)),
            emitted_ok(final(ctx).emitted()),
            r is Ok ==> final(self).engine_wf(),
    ;

    /// Settles at the end of a run.
    fn settle(&mut self, ctx: &mut EngineContext) -> (r: Result<(), Overflow>)
        requires
            old(self).engine_wf(),
            old(ctx).instrument.wf(),
            emitted_ok(old(ctx).emitted()),
        ensures
            final(ctx).same_inputs(old(ctx)),
            emitted_ok(final(ctx).emitted()),
            r is Ok ==> final(self).engine_wf(),
    ;

    /// Whether the engine handles this order type.
    fn supports_order_type(&self, t: &OrderType) -> bool;

    /// The data fidelity the engine has seen so far.
    fn current_fidelity(&self) -> FidelityLevel;
}

impl Engine for OrderBookEngine {
    open spec fn engine_wf(&self) -> bool {
        self.wf()
    }

    open spec fn engine_latency(&self) -> i64 {
        self.model().latency_ns
    }

    /// See [`spec_on_event`].
    fn on_event(&mut self, ev: &MarketEvent, ctx: &mut EngineContext) -> (r: Result<(), Overflow>)
        ensures
            session_rel(old(self).model().session, final(self).model().session, old(ctx).instrument, ev.payload),
            match spec_on_event(old(self).model(), old(ctx).instrument, ev, old(ctx).emitted(), final(self).model().session) {
                Ok((m, em)) => r is Ok && final(self).model() == m && final(ctx).emitted() == em,
                Err(_) => r is Err,
            },
    {
        OrderBookEngine::on_event(self, ev, ctx)
    }

    /// See [`spec_submit`].
    fn submit_order(&mut self, order: Order, ctx: &mut EngineContext) -> (r: Result<OrderResult, Overflow>)
        ensures
            match spec_submit(old(self).model(), old(ctx).instrument, order, old(ctx).clock.now(), old(ctx).emitted()) {
                Ok((m, em, rv)) => r matches Ok(res) && res.view() == rv && final(self).model() == m
                    && final(ctx).emitted() == em,
                Err(_) => r is Err,
            },
    {
        OrderBookEngine::submit_order(self, order, ctx)
    }

    /// See [`spec_settle`].
    fn settle(&mut self, ctx: &mut EngineContext) -> (r: Result<(), Overflow>)
        ensures
            match spec_settle(old(self).model(), old(ctx).instrument, old(ctx).positions@, old(ctx).clock.now(), old(ctx).emitted()) {
                Ok((m, em)) => r is Ok && final(self).model() == m && final(ctx).emitted() == em,
                Err(_) => r is Err,
            },
    {
        OrderBookEngine::settle(self, ctx)
    }

    /// Every order type is supported.
    fn supports_order_type(&self, t: &OrderType) -> (r: bool)
        ensures
            r,
    {
        OrderBookEngine::supports_order_type(self, t)
    }

    /// See [`OrderBookEngine::current_fidelity`].
    fn current_fidelity(&self) -> (r: FidelityLevel)
        ensures
            r == self.model().fidelity,
    {
        OrderBookEngine::current_fidelity(self)
    }
}

} // verus!
