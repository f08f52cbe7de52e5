//! The built-in strategies: one that does nothing, a time-weighted slicer
//! and a two-sided market maker.

use crate::arith::{clamp_i64, clamp_u64, clamp_wide, magnitude};
use crate::orders::{ClientOrderId, ExecutionReport, Intent, OrderStatus, TimeInForce};
use crate::strategy::{ContextSnapshot, Strategy};
use crate::types::{MarketEvent, Price, Qty, Side};
use vstd::prelude::*;

verus! {

/// Nanoseconds in a second.
pub const NANOS_PER_SEC: u64 = 1_000_000_000;

/// A strategy that never trades.
pub struct NoopStrategy;

impl Strategy for NoopStrategy {
    type Model = ();

    open spec fn model(&self) -> () {
        ()
    }

    open spec fn market_event_step(model: (), ctx: ContextSnapshot, event: MarketEvent) -> Option<
        (Seq<Intent>, ()),
    > {
        Some((Seq::empty(), ()))
    }

    open spec fn timer_step(model: (), ctx: ContextSnapshot) -> Option<(Seq<Intent>, ())> {
        Some((Seq::empty(), ()))
    }

    open spec fn report_step(model: (), ctx: ContextSnapshot, report: ExecutionReport) -> Option<
        (Seq<Intent>, ()),
    > {
        Some((Seq::empty(), ()))
    }

    fn on_market_event(&mut self, ctx: &ContextSnapshot, event: &MarketEvent, out: &mut Vec<Intent>)
        ensures
            final(out)@ == old(out)@,
    {
    }

    fn on_timer(&mut self, ctx: &ContextSnapshot, out: &mut Vec<Intent>)
        ensures
            final(out)@ == old(out)@,
    {
    }

    fn on_execution_report(
        &mut self,
        ctx: &ContextSnapshot,
        report: &ExecutionReport,
        out: &mut Vec<Intent>,
    )
        ensures
            final(out)@ == old(out)@,
    {
    }
}

/// What a time-weighted slicer holds.
pub struct TwapView {
    /// The lots to trade in all: above zero to buy, below zero to sell.
    pub target_qty_lots: i64,
    /// The most lots in one order.
    pub slice_qty_lots: i64,
    /// The lots still to trade.
    pub remaining_qty_lots: i64,
    /// The earliest time of the next order; unset until the first call.
    pub next_ts_ns: Option<u64>,
    /// The time from one order to the next.
    pub interval_ns: u64,
    /// Whether an order is out and not done.
    pub in_flight: bool,
    /// The cumulative quantity last reported for the order that is out.
    pub last_reported_qty: i64,
}

impl TwapView {
    /// The number of slices that a target takes: the target's magnitude
    /// over the slice, rounded up.
    pub open spec fn slices(target_qty_lots: int, slice_qty_lots: int) -> int {
        (magnitude(target_qty_lots) + slice_qty_lots - 1) / slice_qty_lots
    }

    /// The slice in use: the magnitude of the one asked for, and 1 at
    /// least.
    pub open spec fn slice_for(slice_qty_lots: int) -> int {
        if magnitude(slice_qty_lots) < 1 {
            1
        } else {
            magnitude(slice_qty_lots)
        }
    }

    /// The time between two orders: the horizon, in nanoseconds and no
    /// more than `u64::MAX`, over the number of slices, and 1 at least;
    /// zero where there is nothing to trade.
    pub open spec fn interval_for(target_qty_lots: int, horizon_secs: int, slice_qty_lots: int) -> int {
        let slices = Self::slices(target_qty_lots, Self::slice_for(slice_qty_lots));
        if slices == 0 {
            0
        } else {
            let spaced = (clamp_u64(horizon_secs * NANOS_PER_SEC) as int) / slices;
            if spaced == 0 {
                1
            } else {
                spaced
            }
        }
    }

    /// The slicer before its first call.
    pub open spec fn start(target_qty_lots: i64, horizon_secs: u64, slice_qty_lots: i64) -> TwapView {
        TwapView {
            target_qty_lots,
            slice_qty_lots: Self::slice_for(slice_qty_lots as int) as i64,
            remaining_qty_lots: target_qty_lots,
            next_ts_ns: None,
            interval_ns: Self::interval_for(
                target_qty_lots as int,
                horizon_secs as int,
                slice_qty_lots as int,
            ) as u64,
            in_flight: false,
            last_reported_qty: 0,
        }
    }

    /// Whether the slicer has lots to trade and no order out.
    pub open spec fn idle(self) -> bool {
        self.remaining_qty_lots != 0 && !self.in_flight
    }

    /// The earliest time of the next order as seen at `now`: the first
    /// call sets it to `now`.
    pub open spec fn due_at(self, now: u64) -> u64 {
        match self.next_ts_ns {
            Some(ts) => ts,
            None => now,
        }
    }

    /// The size of the next order: what remains, and no more than a slice.
    pub open spec fn next_qty(self) -> int {
        if magnitude(self.remaining_qty_lots as int) <= self.slice_qty_lots {
            magnitude(self.remaining_qty_lots as int)
        } else {
            self.slice_qty_lots as int
        }
    }

    /// The side of the next order: toward the target.
    pub open spec fn next_side(self) -> Side {
        if self.remaining_qty_lots > 0 {
            Side::Bid
        } else {
            Side::Ask
        }
    }

    /// The price of the next order: the best price of the side it takes
    /// from.
    pub open spec fn next_price(self, ctx: ContextSnapshot) -> Option<Price> {
        match self.next_side() {
            Side::Bid => match ctx.best_ask {
                Some((price, _)) => Some(price),
                None => None,
            },
            Side::Ask => match ctx.best_bid {
                Some((price, _)) => Some(price),
                None => None,
            },
        }
    }

    /// Whether the slicer places an order when called with `ctx`: it is
    /// idle, the order is due, it has a size and there is a price to take.
    pub open spec fn places(self, ctx: ContextSnapshot) -> bool {
        &&& self.idle()
        &&& ctx.ts_ns >= self.due_at(ctx.ts_ns)
        &&& self.next_qty() > 0
        &&& self.next_price(ctx) is Some
    }

    /// The intents of one call: one limit order, or none.
    pub open spec fn placed(self, ctx: ContextSnapshot) -> Seq<Intent> {
        if self.places(ctx) {
            seq![
                Intent::PlaceLimit {
                    symbol: ctx.symbol,
                    side: self.next_side(),
                    price: self.next_price(ctx).unwrap(),
                    qty: Qty::from_lots(self.next_qty()),
                    tif: TimeInForce::Gtc,
                    tag: None,
                },
            ]
        } else {
            Seq::empty()
        }
    }

    /// The slicer after one call. A slicer that is not idle stays as it
    /// is. Otherwise the first call starts the clock; and where an order is
    /// placed, the next one is due one interval after the time at which
    /// this one was due, not after the time of the call, so a late call
    /// does not push the later slices back. The time stops at the largest
    /// that fits.
    pub open spec fn after_place(self, ctx: ContextSnapshot) -> TwapView {
        if !self.idle() {
            self
        } else if !self.places(ctx) {
            TwapView { next_ts_ns: Some(self.due_at(ctx.ts_ns)), ..self }
        } else {
            TwapView {
                next_ts_ns: Some(
                    clamp_u64(
                        self.due_at(ctx.ts_ns) + (if self.interval_ns < 1 {
                            1
                        } else {
                            self.interval_ns as int
                        }),
                    ),
                ),
                in_flight: true,
                last_reported_qty: 0,
                ..self
            }
        }
    }

    /// The slicer once the order that is out is done.
    pub open spec fn landed(self) -> TwapView {
        TwapView { in_flight: false, last_reported_qty: 0, ..self }
    }

    /// The slicer after a fill report has been counted: the lots that the
    /// report adds to the last one move what remains, down for a buy and up
    /// for a sell, within the range of `i64`.
    pub open spec fn counted(self, report: ExecutionReport) -> TwapView {
        let delta = clamp_i64(report.filled_qty@ - self.last_reported_qty);
        if delta > 0 {
            TwapView {
                remaining_qty_lots: match report.side {
                    Side::Bid => clamp_i64(self.remaining_qty_lots - delta),
                    Side::Ask => clamp_i64(self.remaining_qty_lots + delta),
                },
                last_reported_qty: report.filled_qty@ as i64,
                ..self
            }
        } else {
            self
        }
    }

    /// Whether what remains has reached or passed zero on the way from
    /// the target.
    pub open spec fn done(self) -> bool {
        (self.target_qty_lots >= 0 && self.remaining_qty_lots <= 0) || (self.target_qty_lots <= 0
            && self.remaining_qty_lots >= 0)
    }

    /// The slicer after an execution report. Reports count only while an
    /// order is out.
    pub open spec fn after_report(self, report: ExecutionReport) -> TwapView {
        if !self.in_flight {
            self
        } else {
            let seen = if report.status == OrderStatus::Filled {
                self.counted(report).landed()
            } else if report.status == OrderStatus::PartiallyFilled {
                self.counted(report)
            } else if report.status.ends_unfilled() {
                self.landed()
            } else {
                self
            };
            if seen.done() {
                TwapView { remaining_qty_lots: 0, ..seen.landed() }
            } else {
                seen
            }
        }
    }
}

/// Trades a target quantity in slices spread over a horizon.
pub struct TwapStrategy {
    target_qty_lots: i64,
    slice_qty_lots: i64,
    remaining_qty_lots: i64,
    next_ts_ns: Option<u64>,
    interval_ns: u64,
    in_flight: bool,
    last_reported_qty: i64,
}

impl View for TwapStrategy {
    type V = TwapView;

    closed spec fn view(&self) -> TwapView {
        TwapView {
            target_qty_lots: self.target_qty_lots,
            slice_qty_lots: self.slice_qty_lots,
            remaining_qty_lots: self.remaining_qty_lots,
            next_ts_ns: self.next_ts_ns,
            interval_ns: self.interval_ns,
            in_flight: self.in_flight,
            last_reported_qty: self.last_reported_qty,
        }
    }
}

impl TwapStrategy {
    /// A slicer that trades `target_qty_lots` in orders of at most the
    /// magnitude of `slice_qty_lots`, spaced evenly over `horizon_secs`.
    pub fn new(target_qty_lots: i64, horizon_secs: u64, slice_qty_lots: i64) -> (r: TwapStrategy)
        requires
            slice_qty_lots > i64::MIN,
        ensures
            r@ == TwapView::start(target_qty_lots, horizon_secs, slice_qty_lots),
    {
        let slice_size = if slice_qty_lots < 0 {
            -slice_qty_lots
        } else {
            slice_qty_lots
        };
        let slice_qty_lots = if slice_size < 1 {
            1
        } else {
            slice_size
        };
        let abs_target: u64 = if target_qty_lots < 0 {
            (-(target_qty_lots as i128)) as u64
        } else {
            target_qty_lots as u64
        };
        let slice_u = slice_qty_lots as u64;
        assert((slice_u - 1) / (slice_u as int) == 0) by (nonlinear_arith)
            requires
                slice_u >= 1,
        ;
        let total_slices = if abs_target == 0 {
            0
        } else {
            (abs_target + slice_u - 1) / slice_u
        };
        let horizon_ns = match horizon_secs.checked_mul(NANOS_PER_SEC) {
            Some(ns) => ns,
            None => u64::MAX,
        };
        let mut interval_ns = if total_slices == 0 {
            0
        } else {
            horizon_ns / total_slices
        };
        if total_slices > 0 && interval_ns == 0 {
            interval_ns = 1;
        }
        TwapStrategy {
            target_qty_lots,
            slice_qty_lots,
            remaining_qty_lots: target_qty_lots,
            next_ts_ns: None,
            interval_ns,
            in_flight: false,
            last_reported_qty: 0,
        }
    }

    /// The lots still to trade.
    pub fn remaining_qty_lots(&self) -> (r: i64)
        ensures
            r == self@.remaining_qty_lots,
    {
        self.remaining_qty_lots
    }

    /// Places the next slice if one is due: a limit order toward the
    /// target, at the best price of the side it takes from.
    pub fn maybe_place(&mut self, ctx: &ContextSnapshot) -> (r: Vec<Intent>)
        ensures
            r@ == old(self)@.placed(*ctx),
            final(self)@ == old(self)@.after_place(*ctx),
    {
        broadcast use Qty::lemma_from_lots_view;

        if self.remaining_qty_lots == 0 || self.in_flight {
            return Vec::new();
        }
        let next_ts = match self.next_ts_ns {
            Some(ts) => ts,
            None => ctx.ts_ns,
        };
        self.next_ts_ns = Some(next_ts);
        if ctx.ts_ns < next_ts {
            return Vec::new();
        }
        let remaining_size: i128 = if self.remaining_qty_lots < 0 {
            -(self.remaining_qty_lots as i128)
        } else {
            self.remaining_qty_lots as i128
        };
        let qty_lots: i64 = if remaining_size <= self.slice_qty_lots as i128 {
            remaining_size as i64
        } else {
            self.slice_qty_lots
        };
        if qty_lots <= 0 {
            return Vec::new();
        }
        let (side, price) = if self.remaining_qty_lots > 0 {
            (
                Side::Bid,
                match ctx.best_ask {
                    Some((price, _)) => Some(price),
                    None => None,
                },
            )
        } else {
            (
                Side::Ask,
                match ctx.best_bid {
                    Some((price, _)) => Some(price),
                    None => None,
                },
            )
        };
        let price = match price {
            Some(price) => price,
            None => {
                return Vec::new();
            },
        };
        self.in_flight = true;
        self.last_reported_qty = 0;
        let step = if self.interval_ns < 1 {
            1
        } else {
            self.interval_ns
        };
        self.next_ts_ns = Some(next_ts.saturating_add(step));
        let mut intents = Vec::new();
        intents.push(
            Intent::PlaceLimit {
                symbol: ctx.symbol,
                side,
                price,
                qty: Qty::from_valid(qty_lots),
                tif: TimeInForce::Gtc,
                tag: None,
            },
        );
        assert(intents@ =~= old(self)@.placed(*ctx));
        intents
    }

    /// Takes in a report of the order that is out.
    pub fn on_report(&mut self, report: &ExecutionReport)
        ensures
            final(self)@ == old(self)@.after_report(*report),
    {
        if !self.in_flight {
            return ;
        }
        match report.status {
            OrderStatus::Filled | OrderStatus::PartiallyFilled => {
                let reported = report.filled_qty.lots();
                let delta = clamp_wide(reported as i128 - self.last_reported_qty as i128);
                if delta > 0 {
                    self.remaining_qty_lots = match report.side {
                        Side::Bid => clamp_wide(self.remaining_qty_lots as i128 - delta as i128),
                        Side::Ask => clamp_wide(self.remaining_qty_lots as i128 + delta as i128),
                    };
                    self.last_reported_qty = reported;
                }
                if report.status == OrderStatus::Filled {
                    self.in_flight = false;
                    self.last_reported_qty = 0;
                }
            },
            OrderStatus::Canceled | OrderStatus::Rejected | OrderStatus::Expired => {
                self.in_flight = false;
                self.last_reported_qty = 0;
            },
            _ => {},
        }
        if (self.target_qty_lots >= 0 && self.remaining_qty_lots <= 0) || (self.target_qty_lots
            <= 0 && self.remaining_qty_lots >= 0) {
            self.remaining_qty_lots = 0;
            self.in_flight = false;
            self.last_reported_qty = 0;
        }
    }
}

impl Strategy for TwapStrategy {
    type Model = TwapView;

    open spec fn model(&self) -> TwapView {
        self@
    }

    open spec fn market_event_step(
        model: TwapView,
        ctx: ContextSnapshot,
        event: MarketEvent,
    ) -> Option<(Seq<Intent>, TwapView)> {
        Some((model.placed(ctx), model.after_place(ctx)))
    }

    open spec fn timer_step(model: TwapView, ctx: ContextSnapshot) -> Option<
        (Seq<Intent>, TwapView),
    > {
        Some((model.placed(ctx), model.after_place(ctx)))
    }

    open spec fn report_step(
        model: TwapView,
        ctx: ContextSnapshot,
        report: ExecutionReport,
    ) -> Option<(Seq<Intent>, TwapView)> {
        Some((Seq::empty(), model.after_report(report)))
    }

    fn on_market_event(&mut self, ctx: &ContextSnapshot, event: &MarketEvent, out: &mut Vec<Intent>)
        ensures
            final(out)@ == old(out)@ + old(self)@.placed(*ctx),
            final(self)@ == old(self)@.after_place(*ctx),
    {
        let mut intents = self.maybe_place(ctx);
        out.append(&mut intents);
    }

    fn on_timer(&mut self, ctx: &ContextSnapshot, out: &mut Vec<Intent>)
        ensures
            final(out)@ == old(out)@ + old(self)@.placed(*ctx),
            final(self)@ == old(self)@.after_place(*ctx),
    {
        let mut intents = self.maybe_place(ctx);
        out.append(&mut intents);
    }

    fn on_execution_report(
        &mut self,
        ctx: &ContextSnapshot,
        report: &ExecutionReport,
        out: &mut Vec<Intent>,
    )
        ensures
            final(out)@ == old(out)@,
            final(self)@ == old(self)@.after_report(*report),
    {
        self.on_report(report);
    }
}

/// What a market maker holds of one side of its quote.
pub struct QuoteSide {
    /// The id of the order that rests on this side, once known.
    pub order_id: Option<ClientOrderId>,
    /// The price that the order was last asked to have.
    pub price: Option<Price>,
    /// Whether a request for this side is out and not answered.
    pub pending: bool,
}

impl QuoteSide {
    /// A side with no order and nothing asked.
    pub open spec fn clear() -> QuoteSide {
        QuoteSide { order_id: None, price: None, pending: false }
    }

    /// Whether quoting at `price` asks the venue for anything: nothing
    /// while a request is out; a new order where none rests; a replace where
    /// one rests at another price.
    pub open spec fn asks_for(self, price: Price) -> bool {
        !self.pending && (self.order_id is None || self.price != Some(price))
    }

    /// The intent that quoting at `price` leads to, if any.
    pub open spec fn intents(self, ctx: ContextSnapshot, side: Side, price: Price, qty: Qty) -> Seq<
        Intent,
    > {
        if !self.asks_for(price) {
            Seq::empty()
        } else {
            match self.order_id {
                Some(client_order_id) => seq![
                    Intent::Replace { client_order_id, new_price: price, new_qty: qty },
                ],
                None => seq![
                    Intent::PlaceLimit {
                        symbol: ctx.symbol,
                        side,
                        price,
                        qty,
                        tif: TimeInForce::Gtc,
                        tag: None,
                    },
                ],
            }
        }
    }

    /// The side after quoting at `price`.
    pub open spec fn after_quote(self, price: Price) -> QuoteSide {
        if !self.asks_for(price) {
            self
        } else {
            match self.order_id {
                Some(_) => QuoteSide { pending: true, price: Some(price), ..self },
                None => QuoteSide { pending: true, ..self },
            }
        }
    }

    /// The cancel that taking the quote away leads to, if an order rests.
    pub open spec fn cancels(self) -> Seq<Intent> {
        match self.order_id {
            Some(client_order_id) => seq![Intent::Cancel { client_order_id }],
            None => Seq::empty(),
        }
    }

    /// The side after a report for it: an order that works is noted with
    /// its price, an order that is done is forgotten.
    pub open spec fn after_report(self, report: ExecutionReport) -> QuoteSide {
        match report.status {
            OrderStatus::Accepted | OrderStatus::Working | OrderStatus::PartiallyFilled => {
                QuoteSide {
                    order_id: Some(report.client_order_id),
                    price: Some(report.last_fill_price),
                    pending: false,
                }
            },
            OrderStatus::Filled | OrderStatus::Canceled | OrderStatus::Rejected
            | OrderStatus::Expired => QuoteSide::clear(),
            OrderStatus::New => self,
        }
    }
}

/// What a market maker holds.
pub struct MmView {
    pub half_spread_ticks: i64,
    pub quote_qty_lots: i64,
    pub skew_per_lot_ticks: i64,
    pub bid: QuoteSide,
    pub ask: QuoteSide,
}

impl MmView {
    /// A setting in use: the magnitude of the one asked for, and 1 at
    /// least.
    pub open spec fn setting(x: int) -> int {
        if magnitude(x) < 1 {
            1
        } else {
            magnitude(x)
        }
    }

    /// The market maker before its first call.
    pub open spec fn start(half_spread_ticks: i64, quote_qty_lots: i64, skew_per_lot_ticks: i64) -> MmView {
        MmView {
            half_spread_ticks: Self::setting(half_spread_ticks as int) as i64,
            quote_qty_lots: Self::setting(quote_qty_lots as int) as i64,
            skew_per_lot_ticks,
            bid: QuoteSide::clear(),
            ask: QuoteSide::clear(),
        }
    }

    /// The shift of both quotes away from the inventory: the position
    /// times the skew per lot, within the range of `i64`.
    pub open spec fn skew(self, position_lots: i64) -> int {
        clamp_i64(position_lots * self.skew_per_lot_ticks) as int
    }

    /// The bid to quote around `mid`: half a spread below it, shifted by
    /// the skew, and no lower than 1.
    pub open spec fn bid_ticks(self, mid: int, position_lots: i64) -> int {
        let raw = mid - self.half_spread_ticks - self.skew(position_lots);
        if raw < 1 {
            1
        } else if raw > i64::MAX - 1 {
            i64::MAX - 1
        } else {
            raw
        }
    }

    /// The ask to quote around `mid`: half a spread above it, shifted by
    /// the skew, and above the bid.
    pub open spec fn ask_ticks(self, mid: int, position_lots: i64) -> int {
        let raw = mid + self.half_spread_ticks - self.skew(position_lots);
        let bid = self.bid_ticks(mid, position_lots);
        if raw <= bid {
            bid + 1
        } else if raw > i64::MAX {
            i64::MAX as int
        } else {
            raw
        }
    }

    /// The intents of one call: with a mid price, what each side asks
    /// for, the bid first; without one, a cancel for each resting order.
    pub open spec fn quoted(self, ctx: ContextSnapshot) -> Seq<Intent> {
        match ctx.mid_price {
            Some(mid) => {
                let bid = Price::from_ticks(self.bid_ticks(mid@, ctx.position_lots));
                let ask = Price::from_ticks(self.ask_ticks(mid@, ctx.position_lots));
                let qty = Qty::from_lots(self.quote_qty_lots as int);
                self.bid.intents(ctx, Side::Bid, bid, qty) + self.ask.intents(
                    ctx,
                    Side::Ask,
                    ask,
                    qty,
                )
            },
            None => self.bid.cancels() + self.ask.cancels(),
        }
    }

    /// The market maker after one call.
    pub open spec fn after_quote(self, ctx: ContextSnapshot) -> MmView {
        match ctx.mid_price {
            Some(mid) => MmView {
                bid: self.bid.after_quote(
                    Price::from_ticks(self.bid_ticks(mid@, ctx.position_lots)),
                ),
                ask: self.ask.after_quote(
                    Price::from_ticks(self.ask_ticks(mid@, ctx.position_lots)),
                ),
                ..self
            },
            None => MmView { bid: QuoteSide::clear(), ask: QuoteSide::clear(), ..self },
        }
    }

    /// The market maker after an execution report: the report goes to the
    /// side it names.
    pub open spec fn after_report(self, report: ExecutionReport) -> MmView {
        match report.side {
            Side::Bid => MmView { bid: self.bid.after_report(report), ..self },
            Side::Ask => MmView { ask: self.ask.after_report(report), ..self },
        }
    }

    /// The ask that a market maker quotes is above its bid, and the bid is
    /// 1 at least.
    pub proof fn lemma_quotes_are_apart(self, mid: int, position_lots: i64)
        ensures
            1 <= self.bid_ticks(mid, position_lots) < self.ask_ticks(mid, position_lots)
                <= i64::MAX,
    {
    }
}

/// Quotes both sides around the mid price and leans against its
/// inventory.
pub struct MmStrategy {
    half_spread_ticks: i64,
    quote_qty_lots: i64,
    skew_per_lot_ticks: i64,
    bid_order_id: Option<ClientOrderId>,
    ask_order_id: Option<ClientOrderId>,
    bid_price: Option<Price>,
    ask_price: Option<Price>,
    pending_bid: bool,
    pending_ask: bool,
}

impl View for MmStrategy {
    type V = MmView;

    closed spec fn view(&self) -> MmView {
        MmView {
            half_spread_ticks: self.half_spread_ticks,
            quote_qty_lots: self.quote_qty_lots,
            skew_per_lot_ticks: self.skew_per_lot_ticks,
            bid: QuoteSide {
                order_id: self.bid_order_id,
                price: self.bid_price,
                pending: self.pending_bid,
            },
            ask: QuoteSide {
                order_id: self.ask_order_id,
                price: self.ask_price,
                pending: self.pending_ask,
            },
        }
    }
}

/// The magnitude of a setting, and 1 at least.
fn setting_of(x: i64) -> (r: i64)
    requires
        x > i64::MIN,
    ensures
        r == MmView::setting(x as int),
        r >= 1,
{
    let size = if x < 0 {
        -x
    } else {
        x
    };
    if size < 1 {
        1
    } else {
        size
    }
}

impl MmStrategy {
    #[verifier::type_invariant]
    spec fn settings_in_use(self) -> bool {
        self.half_spread_ticks >= 1 && self.quote_qty_lots >= 1
    }

    /// A market maker that quotes `quote_qty_lots` on each side, half a
    /// spread of `half_spread_ticks` from the mid price, shifted by
    /// `skew_per_lot_ticks` for each lot it holds.
    pub fn new(half_spread_ticks: i64, quote_qty_lots: i64, skew_per_lot_ticks: i64) -> (r:
        MmStrategy)
        requires
            half_spread_ticks > i64::MIN,
            quote_qty_lots > i64::MIN,
        ensures
            r@ == MmView::start(half_spread_ticks, quote_qty_lots, skew_per_lot_ticks),
    {
        MmStrategy {
            half_spread_ticks: setting_of(half_spread_ticks),
            quote_qty_lots: setting_of(quote_qty_lots),
            skew_per_lot_ticks,
            bid_order_id: None,
            ask_order_id: None,
            bid_price: None,
            ask_price: None,
            pending_bid: false,
            pending_ask: false,
        }
    }

    /// The prices to quote around `mid`.
    fn quote_prices(&self, mid: Price, position_lots: i64) -> (r: (Price, Price))
        ensures
            r.0@ == self@.bid_ticks(mid@, position_lots),
            r.1@ == self@.ask_ticks(mid@, position_lots),
            r.0 == Price::from_ticks(self@.bid_ticks(mid@, position_lots)),
            r.1 == Price::from_ticks(self@.ask_ticks(mid@, position_lots)),
    {
        broadcast use Price::lemma_from_ticks_view;

        assert(-0x4000_0000_0000_0000_0000_0000_0000_0000 <= position_lots
            * self.skew_per_lot_ticks <= 0x4000_0000_0000_0000_0000_0000_0000_0000)
            by (nonlinear_arith)
            requires
                -0x8000_0000_0000_0000 <= position_lots <= 0x8000_0000_0000_0000,
                -0x8000_0000_0000_0000 <= self.skew_per_lot_ticks <= 0x8000_0000_0000_0000,
        ;
        let skew = clamp_wide(position_lots as i128 * self.skew_per_lot_ticks as i128) as i128;
        let mid_ticks = mid.ticks() as i128;
        let half = self.half_spread_ticks as i128;
        let mut bid_ticks = mid_ticks - half - skew;
        let mut ask_ticks = mid_ticks + half - skew;
        if bid_ticks < 1 {
            bid_ticks = 1;
        } else if bid_ticks > i64::MAX as i128 - 1 {
            bid_ticks = i64::MAX as i128 - 1;
        }
        if ask_ticks <= bid_ticks {
            ask_ticks = bid_ticks + 1;
        } else if ask_ticks > i64::MAX as i128 {
            ask_ticks = i64::MAX as i128;
        }
        (Price::from_valid(bid_ticks as i64), Price::from_valid(ask_ticks as i64))
    }

    /// Quotes both sides around the mid price: places the side that is
    /// missing, replaces the side whose price has moved, and asks for
    /// nothing on a side that waits for an answer. Without a mid price it
    /// takes its quotes away.
    pub fn quote(&mut self, ctx: &ContextSnapshot) -> (r: Vec<Intent>)
        ensures
            r@ == old(self)@.quoted(*ctx),
            final(self)@ == old(self)@.after_quote(*ctx),
    {
        proof {
            use_type_invariant(&*self);
        }
        let mid = match ctx.mid_price {
            Some(mid) => mid,
            None => {
                return self.cancel_all();
            },
        };
        let (bid_price, ask_price) = self.quote_prices(mid, ctx.position_lots);
        let qty = Qty::from_valid(self.quote_qty_lots);
        let mut intents = Vec::new();
        match self.bid_order_id {
            Some(client_order_id) => {
                if !self.pending_bid && !Self::same_price(self.bid_price, bid_price) {
                    intents.push(
                        Intent::Replace { client_order_id, new_price: bid_price, new_qty: qty },
                    );
                    self.pending_bid = true;
                    self.bid_price = Some(bid_price);
                }
            },
            None => {
                if !self.pending_bid {
                    intents.push(
                        Intent::PlaceLimit {
                            symbol: ctx.symbol,
                            side: Side::Bid,
                            price: bid_price,
                            qty,
                            tif: TimeInForce::Gtc,
                            tag: None,
                        },
                    );
                    self.pending_bid = true;
                }
            },
        }
        assert(intents@ =~= old(self)@.bid.intents(*ctx, Side::Bid, bid_price, qty));
        match self.ask_order_id {
            Some(client_order_id) => {
                if !self.pending_ask && !Self::same_price(self.ask_price, ask_price) {
                    intents.push(
                        Intent::Replace { client_order_id, new_price: ask_price, new_qty: qty },
                    );
                    self.pending_ask = true;
                    self.ask_price = Some(ask_price);
                }
            },
            None => {
                if !self.pending_ask {
                    intents.push(
                        Intent::PlaceLimit {
                            symbol: ctx.symbol,
                            side: Side::Ask,
                            price: ask_price,
                            qty,
                            tif: TimeInForce::Gtc,
                            tag: None,
                        },
                    );
                    self.pending_ask = true;
                }
            },
        }
        assert(intents@ =~= old(self)@.quoted(*ctx));
        intents
    }

    /// Whether the price noted for a side is `price`.
    fn same_price(noted: Option<Price>, price: Price) -> (r: bool)
        ensures
            r == (noted == Some(price)),
    {
        match noted {
            Some(p) => p == price,
            None => false,
        }
    }

    /// Takes both quotes away: a cancel for each order that rests.
    pub fn cancel_all(&mut self) -> (r: Vec<Intent>)
        ensures
            r@ == old(self)@.bid.cancels() + old(self)@.ask.cancels(),
            final(self)@ == (MmView {
                bid: QuoteSide::clear(),
                ask: QuoteSide::clear(),
                ..old(self)@
            }),
    {
        proof {
            use_type_invariant(&*self);
        }
        let mut intents = Vec::new();
        match self.bid_order_id {
            Some(client_order_id) => {
                intents.push(Intent::Cancel { client_order_id });
            },
            None => {},
        }
        match self.ask_order_id {
            Some(client_order_id) => {
                intents.push(Intent::Cancel { client_order_id });
            },
            None => {},
        }
        self.bid_order_id = None;
        self.ask_order_id = None;
        self.bid_price = None;
        self.ask_price = None;
        self.pending_bid = false;
        self.pending_ask = false;
        assert(intents@ =~= old(self)@.bid.cancels() + old(self)@.ask.cancels());
        intents
    }

    /// Takes in a report: it goes to the side it names.
    pub fn on_report(&mut self, report: &ExecutionReport)
        ensures
            final(self)@ == old(self)@.after_report(*report),
    {
        match report.side {
            Side::Bid => self.apply_report_side(report, true),
            Side::Ask => self.apply_report_side(report, false),
        }
    }

    /// Takes in a report for one side.
    fn apply_report_side(&mut self, report: &ExecutionReport, is_bid: bool)
        ensures
            is_bid ==> final(self)@ == (MmView {
                bid: old(self)@.bid.after_report(*report),
                ..old(self)@
            }),
            !is_bid ==> final(self)@ == (MmView {
                ask: old(self)@.ask.after_report(*report),
                ..old(self)@
            }),
    {
        proof {
            use_type_invariant(&*self);
        }
        let (order_id, price, pending) = match report.status {
            OrderStatus::Accepted | OrderStatus::Working | OrderStatus::PartiallyFilled => (
                Some(report.client_order_id),
                Some(report.last_fill_price),
                false,
            ),
            OrderStatus::Filled | OrderStatus::Canceled | OrderStatus::Rejected
            | OrderStatus::Expired => (None, None, false),
            OrderStatus::New => {
                return ;
            },
        };
        if is_bid {
            self.bid_order_id = order_id;
            self.bid_price = price;
            self.pending_bid = pending;
        } else {
            self.ask_order_id = order_id;
            self.ask_price = price;
            self.pending_ask = pending;
        }
    }
}

impl Strategy for MmStrategy {
    type Model = MmView;

    open spec fn model(&self) -> MmView {
        self@
    }

    open spec fn market_event_step(model: MmView, ctx: ContextSnapshot, event: MarketEvent) -> Option<
        (Seq<Intent>, MmView),
    > {
        Some((model.quoted(ctx), model.after_quote(ctx)))
    }

    open spec fn timer_step(model: MmView, ctx: ContextSnapshot) -> Option<(Seq<Intent>, MmView)> {
        Some((model.quoted(ctx), model.after_quote(ctx)))
    }

    open spec fn report_step(
        model: MmView,
        ctx: ContextSnapshot,
        report: ExecutionReport,
    ) -> Option<(Seq<Intent>, MmView)> {
        Some((Seq::empty(), model.after_report(report)))
    }

    fn on_market_event(&mut self, ctx: &ContextSnapshot, event: &MarketEvent, out: &mut Vec<Intent>)
        ensures
            final(out)@ == old(out)@ + old(self)@.quoted(*ctx),
            final(self)@ == old(self)@.after_quote(*ctx),
    {
        let mut intents = self.quote(ctx);
        out.append(&mut intents);
    }

    fn on_timer(&mut self, ctx: &ContextSnapshot, out: &mut Vec<Intent>)
        ensures
            final(out)@ == old(out)@ + old(self)@.quoted(*ctx),
            final(self)@ == old(self)@.after_quote(*ctx),
    {
        let mut intents = self.quote(ctx);
        out.append(&mut intents);
    }

    fn on_execution_report(
        &mut self,
        ctx: &ContextSnapshot,
        report: &ExecutionReport,
        out: &mut Vec<Intent>,
    )
        ensures
            final(out)@ == old(out)@,
            final(self)@ == old(self)@.after_report(*report),
    {
        self.on_report(report);
    }
}

} // verus!
