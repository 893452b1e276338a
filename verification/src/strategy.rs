//! The strategy port: strategies see bars, the market view and the account,
//! and answer with orders.
use vstd::prelude::*;

use crate::market_view::{BarData, MarketView};
use crate::ports::Account;
use crate::trade::Order;
use crate::types::InstrumentId;

verus! {

/// A trading strategy, called on each bar once warmup is over.
pub trait Strategy {
    /// Orders to submit in answer to a bar of `instrument_id`.
    fn on_bar<A: Account>(&mut self, instrument_id: &InstrumentId, bar: &BarData, view: &MarketView, account: &A) -> Vec<Order>;

    /// Bars needed before the strategy is ready to trade (none by default).
    fn warmup_bars_required(&self) -> (r: usize)
        default_ensures
            r == 0,
    {
        0
    }
}

} // verus!
