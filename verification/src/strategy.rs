//! What a strategy sees and what the engine asks of it.

use crate::arith::mid_of;
use crate::book::top;
use crate::orders::{ExecutionReport, Intent};
use crate::types::{MarketEvent, Price, Qty, SymbolId};
use vstd::prelude::*;

verus! {

/// The engine's state as a strategy or a risk policy may see it.
#[derive(Debug, Clone, Copy, PartialEq, Eq)]
pub struct ContextSnapshot {
    pub ts_ns: u64,
    pub symbol: SymbolId,
    pub best_bid: Option<(Price, Qty)>,
    pub best_ask: Option<(Price, Qty)>,
    pub position_lots: i64,
    pub open_orders: usize,
    /// Half the sum of the best bid and the best ask, rounded down; present
    /// when both are.
    pub mid_price: Option<Price>,
}

/// A level in ticks and lots as a price and a quantity.
pub open spec fn quote_of(level: Option<(int, int)>) -> Option<(Price, Qty)> {
    match level {
        Some((price, qty)) => Some((Price::from_ticks(price), Qty::from_lots(qty))),
        None => None,
    }
}

impl ContextSnapshot {
    /// The mid price of a top of book, in ticks.
    pub open spec fn mid_ticks(best_bid: Option<(Price, Qty)>, best_ask: Option<(Price, Qty)>) -> Option<
        int,
    > {
        match (top(best_bid), top(best_ask)) {
            (Some(bid), Some(ask)) => Some(mid_of(bid.0, ask.0)),
            _ => None,
        }
    }

    /// Whether the mid price is the one that the top of the book gives.
    pub open spec fn wf(self) -> bool {
        match Self::mid_ticks(self.best_bid, self.best_ask) {
            Some(mid) => self.mid_price == Some(Price::from_ticks(mid)),
            None => self.mid_price is None,
        }
    }

    /// The snapshot at a time, for a symbol, of a top of book in ticks and
    /// lots, a position and a number of open orders.
    pub open spec fn of(
        ts_ns: u64,
        symbol: SymbolId,
        best_bid: Option<(int, int)>,
        best_ask: Option<(int, int)>,
        position_lots: i64,
        open_orders: nat,
    ) -> ContextSnapshot {
        ContextSnapshot {
            ts_ns,
            symbol,
            best_bid: quote_of(best_bid),
            best_ask: quote_of(best_ask),
            position_lots,
            open_orders: open_orders as usize,
            mid_price: match (best_bid, best_ask) {
                (Some(bid), Some(ask)) => Some(Price::from_ticks(mid_of(bid.0, ask.0))),
                _ => None,
            },
        }
    }

    pub fn new(
        ts_ns: u64,
        symbol: SymbolId,
        best_bid: Option<(Price, Qty)>,
        best_ask: Option<(Price, Qty)>,
        position_lots: i64,
        open_orders: usize,
    ) -> (r: ContextSnapshot)
        ensures
            r == ContextSnapshot::of(
                ts_ns,
                symbol,
                top(best_bid),
                top(best_ask),
                position_lots,
                open_orders as nat,
            ),
            r.ts_ns == ts_ns,
            r.symbol == symbol,
            r.best_bid == best_bid,
            r.best_ask == best_ask,
            r.position_lots == position_lots,
            r.open_orders == open_orders,
            r.wf(),
            r.mid_price matches Some(mid) ==> Some(mid@) == Self::mid_ticks(best_bid, best_ask),
    {
        broadcast use Price::lemma_from_ticks_view, Qty::lemma_from_lots_view;

        let mid_price = match (best_bid, best_ask) {
            (Some((bid, _)), Some((ask, _))) => {
                let mid = (bid.ticks() as i128 + ask.ticks() as i128) / 2;
                Some(Price::from_valid(mid as i64))
            },
            _ => None,
        };
        ContextSnapshot {
            ts_ns,
            symbol,
            best_bid,
            best_ask,
            position_lots,
            open_orders,
            mid_price,
        }
    }
}

/// A trading strategy. The engine calls it with a snapshot of its state;
/// all that the strategy can do in return is append intents to `out`.
///
/// A strategy may say, in its three step functions, what it asks for and
/// what it is left as after each call, in terms of a model of itself. A step
/// function that gives nothing leaves that call unspecified. A strategy that
/// has nothing to do on a timer tick or on an execution report leaves the
/// body of that method empty.
pub trait Strategy {
    /// What is known of the strategy's state.
    type Model;

    /// The strategy's state.
    open spec fn model(&self) -> Self::Model {
        arbitrary()
    }

    /// What the strategy asks for on a market event, and what it is left
    /// as.
    open spec fn market_event_step(
        model: Self::Model,
        ctx: ContextSnapshot,
        event: MarketEvent,
    ) -> Option<(Seq<Intent>, Self::Model)> {
        None
    }

    /// What the strategy asks for on a timer tick, and what it is left as.
    open spec fn timer_step(model: Self::Model, ctx: ContextSnapshot) -> Option<
        (Seq<Intent>, Self::Model),
    > {
        None
    }

    /// What the strategy asks for on an execution report, and what it is
    /// left as.
    open spec fn report_step(
        model: Self::Model,
        ctx: ContextSnapshot,
        report: ExecutionReport,
    ) -> Option<(Seq<Intent>, Self::Model)> {
        None
    }

    /// Called after a market event has been applied to the book.
    fn on_market_event(&mut self, ctx: &ContextSnapshot, event: &MarketEvent, out: &mut Vec<Intent>)
        ensures
            Self::market_event_step(old(self).model(), *ctx, *event) matches Some((asks, next))
                ==> final(out)@ == old(out)@ + asks && final(self).model() == next,
    ;

    /// Called on a timer tick.
    fn on_timer(&mut self, ctx: &ContextSnapshot, out: &mut Vec<Intent>)
        ensures
            Self::timer_step(old(self).model(), *ctx) matches Some((asks, next)) ==> final(out)@
                == old(out)@ + asks && final(self).model() == next,
    ;

    /// Called for each execution report.
    fn on_execution_report(
        &mut self,
        ctx: &ContextSnapshot,
        report: &ExecutionReport,
        out: &mut Vec<Intent>,
    )
        ensures
            Self::report_step(old(self).model(), *ctx, *report) matches Some((asks, next))
                ==> final(out)@ == old(out)@ + asks && final(self).model() == next,
    ;
}

/// A boxed strategy is the strategy in the box: it has its model and its
/// steps, and each call goes to it.
impl<T: Strategy> Strategy for Box<T> {
    type Model = T::Model;

    open spec fn model(&self) -> T::Model {
        (**self).model()
    }

    open spec fn market_event_step(
        model: T::Model,
        ctx: ContextSnapshot,
        event: MarketEvent,
    ) -> Option<(Seq<Intent>, T::Model)> {
        T::market_event_step(model, ctx, event)
    }

    open spec fn timer_step(model: T::Model, ctx: ContextSnapshot) -> Option<
        (Seq<Intent>, T::Model),
    > {
        T::timer_step(model, ctx)
    }

    open spec fn report_step(
        model: T::Model,
        ctx: ContextSnapshot,
        report: ExecutionReport,
    ) -> Option<(Seq<Intent>, T::Model)> {
        T::report_step(model, ctx, report)
    }

    fn on_market_event(&mut self, ctx: &ContextSnapshot, event: &MarketEvent, out: &mut Vec<Intent>) {
        (**self).on_market_event(ctx, event, out)
    }

    fn on_timer(&mut self, ctx: &ContextSnapshot, out: &mut Vec<Intent>) {
        (**self).on_timer(ctx, out)
    }

    fn on_execution_report(
        &mut self,
        ctx: &ContextSnapshot,
        report: &ExecutionReport,
        out: &mut Vec<Intent>,
    ) {
        (**self).on_execution_report(ctx, report, out)
    }
}

} // verus!
