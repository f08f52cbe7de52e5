//! The portfolio: for each symbol the position, its average entry price,
//! the profit and loss realised so far and the fees paid, all in integers.

use crate::arith::{magnitude, mid_of};
use crate::orders::{ClientOrderId, ExecutionReport, OrderStatus};
use crate::types::{Price, Qty, Side, SymbolId};
use std::collections::HashMap;
use vstd::prelude::*;

verus! {

/// The average of two prices, each weighted by a quantity, rounded down.
pub open spec fn weighted_average(old_avg: int, old_qty: int, fill: int, add_qty: int) -> int {
    (old_avg * old_qty + fill * add_qty) / (old_qty + add_qty)
}

/// A weighted average of two prices lies between them.
pub proof fn lemma_weighted_average_bounds(old_avg: int, old_qty: int, fill: int, add_qty: int)
    requires
        old_avg >= 0,
        fill >= 0,
        old_qty >= 0,
        add_qty > 0,
    ensures
        0 <= weighted_average(old_avg, old_qty, fill, add_qty),
        weighted_average(old_avg, old_qty, fill, add_qty) <= (if old_avg >= fill {
            old_avg
        } else {
            fill
        }),
        old_avg * old_qty + fill * add_qty >= 0,
{
    let high = if old_avg >= fill {
        old_avg
    } else {
        fill
    };
    let sum = old_avg * old_qty + fill * add_qty;
    let total = old_qty + add_qty;
    assert(old_avg * old_qty >= 0 && old_avg * old_qty <= high * old_qty) by (nonlinear_arith)
        requires
            0 <= old_avg <= high,
            old_qty >= 0,
    ;
    assert(fill * add_qty >= 0 && fill * add_qty <= high * add_qty) by (nonlinear_arith)
        requires
            0 <= fill <= high,
            add_qty > 0,
    ;
    assert(high * old_qty + high * add_qty == high * total) by (nonlinear_arith)
        requires
            total == old_qty + add_qty,
    ;
    assert(0 <= sum / total <= high) by (nonlinear_arith)
        requires
            0 <= sum <= high * total,
            total > 0,
    ;
}

/// The position in one symbol.
#[derive(Debug, Clone, Copy, PartialEq, Eq)]
pub struct Position {
    /// Lots held: above zero long, below zero short.
    pub position_lots: i64,
    /// Profit and loss realised by fills that closed lots, in ticks.
    pub realized_pnl_ticks: i128,
    /// Fees paid, in ticks.
    pub fees_paid_ticks: i128,
    /// The average price at which the lots held were entered; absent
    /// exactly when no lots are held.
    pub avg_entry_price_ticks: Option<i64>,
}

impl Position {
    /// The position before any fill.
    pub open spec fn flat() -> Position {
        Position {
            position_lots: 0,
            realized_pnl_ticks: 0,
            fees_paid_ticks: 0,
            avg_entry_price_ticks: None,
        }
    }

    /// There is an average entry price exactly when lots are held; the
    /// price is not negative; the position has a magnitude.
    pub open spec fn wf(self) -> bool {
        &&& self.position_lots == 0 <==> self.avg_entry_price_ticks is None
        &&& self.position_lots > i64::MIN
        &&& self.avg_entry_price_ticks matches Some(avg) ==> avg >= 0
    }

    /// Whether a fill of `signed` lots goes against the position, closing
    /// some or all of it.
    pub open spec fn closes(self, signed: int) -> bool {
        self.position_lots != 0 && (self.position_lots > 0) != (signed > 0)
    }

    /// What a fill of `signed` lots at `fill` ticks realises: for each lot
    /// it closes, the distance from the entry price to the fill, counted as
    /// gain for a long that sells higher and a short that buys lower.
    pub open spec fn realized_by(self, signed: int, fill: int) -> int {
        match self.avg_entry_price_ticks {
            Some(avg) if self.closes(signed) => {
                let closed = if magnitude(signed) <= magnitude(self.position_lots as int) {
                    magnitude(signed)
                } else {
                    magnitude(self.position_lots as int)
                };
                let per_lot = if self.position_lots > 0 {
                    fill - avg
                } else {
                    avg - fill
                };
                per_lot * closed
            },
            _ => 0,
        }
    }

    /// The average entry price after a fill of `signed` lots at `fill`
    /// ticks: none when the position ends flat; the weighted average of the
    /// old entry and the fill when the fill adds to the position; the fill
    /// price when it goes against it.
    pub open spec fn avg_after(self, signed: int, fill: int) -> Option<int> {
        if self.position_lots + signed == 0 {
            None
        } else if !self.closes(signed) {
            let old_avg = match self.avg_entry_price_ticks {
                Some(avg) => avg as int,
                None => fill,
            };
            Some(
                weighted_average(
                    old_avg,
                    magnitude(self.position_lots as int),
                    fill,
                    magnitude(signed),
                ),
            )
        } else {
            Some(fill)
        }
    }

    /// Whether a fill can be taken in without leaving the range of the
    /// integers that hold the position, the profit and loss and the fees.
    pub open spec fn fits(self, signed: int, fill: int, fee: int) -> bool {
        &&& i64::MIN < self.position_lots + signed <= i64::MAX
        &&& i128::MIN <= self.realized_pnl_ticks + self.realized_by(signed, fill) <= i128::MAX
        &&& i128::MIN <= self.fees_paid_ticks + fee <= i128::MAX
    }

    /// The position after a fill of `signed` lots at `fill` ticks for a fee
    /// of `fee` ticks.
    pub open spec fn after_fill(self, signed: int, fill: int, fee: int) -> Position {
        Position {
            position_lots: (self.position_lots + signed) as i64,
            realized_pnl_ticks: (self.realized_pnl_ticks + self.realized_by(signed, fill)) as i128,
            fees_paid_ticks: (self.fees_paid_ticks + fee) as i128,
            avg_entry_price_ticks: match self.avg_after(signed, fill) {
                Some(avg) => Some(avg as i64),
                None => None,
            },
        }
    }

    /// A fill leaves an average entry price exactly when it leaves lots
    /// held.
    pub proof fn lemma_fill_keeps_wf(self, signed: int, fill: int, fee: int)
        requires
            self.wf(),
            signed != 0,
            0 <= fill <= i64::MAX,
            self.fits(signed, fill, fee),
        ensures
            self.after_fill(signed, fill, fee).wf(),
            self.after_fill(signed, fill, fee).position_lots == 0 <==> self.after_fill(
                signed,
                fill,
                fee,
            ).avg_entry_price_ticks is None,
    {
        if self.position_lots + signed != 0 && !self.closes(signed) {
            let old_avg = match self.avg_entry_price_ticks {
                Some(avg) => avg as int,
                None => fill,
            };
            lemma_weighted_average_bounds(
                old_avg,
                magnitude(self.position_lots as int),
                fill,
                magnitude(signed),
            );
        }
    }

    /// The magnitude of a number of lots, as a wide integer.
    fn lots_magnitude(lots: i64) -> (r: i128)
        ensures
            r == magnitude(lots as int),
    {
        let wide = lots as i128;
        if wide < 0 {
            -wide
        } else {
            wide
        }
    }

    /// What a fill realises, computed.
    fn realize(&self, signed: i64, fill: i64) -> (r: i128)
        requires
            self.wf(),
            signed != 0,
            signed > i64::MIN,
            fill >= 0,
        ensures
            r == self.realized_by(signed as int, fill as int),
    {
        if self.position_lots != 0 && ((self.position_lots > 0) != (signed > 0)) {
            if let Some(avg) = self.avg_entry_price_ticks {
                let fill_size = Self::lots_magnitude(signed);
                let held = Self::lots_magnitude(self.position_lots);
                let closed = if fill_size <= held {
                    fill_size
                } else {
                    held
                };
                let per_lot: i128 = if self.position_lots > 0 {
                    fill as i128 - avg as i128
                } else {
                    avg as i128 - fill as i128
                };
                assert(-0x8000_0000_0000_0000_0000_0000_0000_0000 <= per_lot * closed
                    <= 0x7fff_ffff_ffff_ffff_ffff_ffff_ffff_ffff) by (nonlinear_arith)
                    requires
                        -0x8000_0000_0000_0000 <= per_lot <= 0x8000_0000_0000_0000,
                        0 <= closed <= 0x8000_0000_0000_0000,
                ;
                return per_lot * closed;
            }
        }
        0
    }

    /// The average entry price after a fill, computed.
    fn reprice(&self, signed: i64, fill: i64) -> (r: Option<i64>)
        requires
            self.wf(),
            signed != 0,
            signed > i64::MIN,
            fill >= 0,
            i64::MIN < self.position_lots + signed <= i64::MAX,
        ensures
            match r {
                Some(avg) => self.avg_after(signed as int, fill as int) == Some(avg as int) && avg
                    >= 0,
                None => self.avg_after(signed as int, fill as int) is None,
            },
    {
        let new_position = self.position_lots + signed;
        if new_position == 0 {
            None
        } else if self.position_lots == 0 || ((self.position_lots > 0) == (signed > 0)) {
            let old_qty = Self::lots_magnitude(self.position_lots);
            let add_qty = Self::lots_magnitude(signed);
            let total_qty = old_qty + add_qty;
            let old_avg: i128 = match self.avg_entry_price_ticks {
                Some(avg) => avg as i128,
                None => fill as i128,
            };
            proof {
                lemma_weighted_average_bounds(
                    old_avg as int,
                    old_qty as int,
                    fill as int,
                    add_qty as int,
                );
                assert(old_avg * old_qty <= 0x3fff_ffff_ffff_ffff_0000_0000_0000_0001)
                    by (nonlinear_arith)
                    requires
                        0 <= old_avg <= 0x7fff_ffff_ffff_ffff,
                        0 <= old_qty <= 0x7fff_ffff_ffff_ffff,
                ;
                assert(fill * add_qty <= 0x3fff_ffff_ffff_ffff_0000_0000_0000_0001)
                    by (nonlinear_arith)
                    requires
                        0 <= fill <= 0x7fff_ffff_ffff_ffff,
                        0 <= add_qty <= 0x7fff_ffff_ffff_ffff,
                ;
                assert(old_avg * old_qty >= 0) by (nonlinear_arith)
                    requires
                        0 <= old_avg,
                        0 <= old_qty,
                ;
                assert(fill * add_qty >= 0) by (nonlinear_arith)
                    requires
                        0 <= fill,
                        0 <= add_qty,
                ;
            }
            let new_avg = (old_avg * old_qty + fill as i128 * add_qty) / total_qty;
            Some(new_avg as i64)
        } else {
            Some(fill)
        }
    }

    /// Whether a fill can be taken in, computed.
    fn has_room(&self, signed: i64, fill: i64, fee: i64) -> (r: bool)
        requires
            self.wf(),
            signed != 0,
            signed > i64::MIN,
            fill >= 0,
        ensures
            r == self.fits(signed as int, fill as int, fee as int),
    {
        let lots_fit = match self.position_lots.checked_add(signed) {
            Some(lots) => lots != i64::MIN,
            None => false,
        };
        let pnl_fits = self.realized_pnl_ticks.checked_add(self.realize(signed, fill)).is_some();
        let fees_fit = self.fees_paid_ticks.checked_add(fee as i128).is_some();
        lots_fit && pnl_fits && fees_fit
    }

    /// Takes in a fill of `signed` lots at `fill` ticks for a fee of `fee`
    /// ticks.
    fn apply_fill(&self, signed: i64, fill: i64, fee: i64) -> (r: Position)
        requires
            self.wf(),
            signed != 0,
            signed > i64::MIN,
            fill >= 0,
            self.fits(signed as int, fill as int, fee as int),
        ensures
            r == self.after_fill(signed as int, fill as int, fee as int),
            r.wf(),
    {
        proof {
            self.lemma_fill_keeps_wf(signed as int, fill as int, fee as int);
        }
        let realized = self.realize(signed, fill);
        let avg = self.reprice(signed, fill);
        Position {
            position_lots: self.position_lots + signed,
            realized_pnl_ticks: self.realized_pnl_ticks + realized,
            fees_paid_ticks: self.fees_paid_ticks + fee as i128,
            avg_entry_price_ticks: avg,
        }
    }
}

/// The lots of a fill with their sign: a buy adds, a sell takes away.
pub open spec fn signed_lots(side: Side, lots: int) -> int {
    match side {
        Side::Bid => lots,
        Side::Ask => -lots,
    }
}

/// What a portfolio holds.
pub struct PortfolioView {
    /// The position in each symbol that was ever filled.
    pub positions: Map<u32, Position>,
    /// For each order that is still being filled, the cumulative quantity
    /// that has been taken in.
    pub filled_by_order: Map<u64, i64>,
}

impl PortfolioView {
    /// The portfolio before any report.
    pub open spec fn empty() -> PortfolioView {
        PortfolioView { positions: Map::empty(), filled_by_order: Map::empty() }
    }

    /// The position in a symbol; flat if it was never filled.
    pub open spec fn position(self, symbol: SymbolId) -> Position {
        if self.positions.contains_key(symbol.0) {
            self.positions[symbol.0]
        } else {
            Position::flat()
        }
    }

    /// The cumulative quantity already taken in for an order.
    pub open spec fn taken_in(self, id: ClientOrderId) -> int {
        if self.filled_by_order.contains_key(id.0) {
            self.filled_by_order[id.0] as int
        } else {
            0
        }
    }

    /// The lots that a report adds to what was taken in for its order.
    pub open spec fn fill_delta(self, report: ExecutionReport) -> int {
        report.filled_qty@ - self.taken_in(report.client_order_id)
    }

    /// Whether a report brings a fill that has not been taken in yet.
    pub open spec fn brings_fill(self, report: ExecutionReport) -> bool {
        report.status.is_fill() && self.fill_delta(report) > 0
    }

    /// Every position is well formed and every quantity taken in is above
    /// zero.
    pub open spec fn wf(self) -> bool {
        &&& forall|s: u32| #[trigger] self.positions.contains_key(s) ==> self.positions[s].wf()
        &&& forall|id: u64| #[trigger]
            self.filled_by_order.contains_key(id) ==> self.filled_by_order[id] > 0
    }

    /// Whether the fill that a report brings, if it brings one, can be taken
    /// in without leaving the integers' range.
    pub open spec fn absorbs(self, report: ExecutionReport) -> bool {
        self.brings_fill(report) ==> self.position(report.symbol).fits(
            signed_lots(report.side, self.fill_delta(report)),
            report.last_fill_price@,
            report.fee_ticks as int,
        )
    }

    /// What is known of orders being filled, after a report: an order that
    /// has come to its end is forgotten, a partial fill is remembered.
    pub open spec fn taken_in_after(self, report: ExecutionReport) -> Map<u64, i64> {
        let id = report.client_order_id.0;
        if report.status.ends_unfilled() || report.status == OrderStatus::Filled {
            self.filled_by_order.remove(id)
        } else if self.brings_fill(report) {
            self.filled_by_order.insert(id, report.filled_qty@ as i64)
        } else {
            self.filled_by_order
        }
    }

    /// The portfolio after an execution report. Only a fill that brings
    /// lots not taken in before changes a position.
    pub open spec fn after_report(self, report: ExecutionReport) -> PortfolioView {
        PortfolioView {
            positions: if self.brings_fill(report) {
                self.positions.insert(
                    report.symbol.0,
                    self.position(report.symbol).after_fill(
                        signed_lots(report.side, self.fill_delta(report)),
                        report.last_fill_price@,
                        report.fee_ticks as int,
                    ),
                )
            } else {
                self.positions
            },
            filled_by_order: self.taken_in_after(report),
        }
    }

    /// The portfolio after an execution report, as far as its integers
    /// reach: a fill that they have no room for is passed over and leaves
    /// the portfolio as it is.
    pub open spec fn folded(self, report: ExecutionReport) -> PortfolioView {
        if self.absorbs(report) {
            self.after_report(report)
        } else {
            self
        }
    }
}

/// The portfolio.
#[derive(Debug)]
pub struct Portfolio {
    positions: HashMap<u32, Position>,
    filled_by_order: HashMap<u64, i64>,
}

impl View for Portfolio {
    type V = PortfolioView;

    closed spec fn view(&self) -> PortfolioView {
        PortfolioView { positions: self.positions@, filled_by_order: self.filled_by_order@ }
    }
}

impl Portfolio {
    /// Every position has an average entry price exactly when it holds
    /// lots.
    pub open spec fn wf(&self) -> bool {
        self@.wf()
    }

    pub fn new() -> (r: Portfolio)
        ensures
            r@ == PortfolioView::empty(),
            r.wf(),
    {
        Portfolio { positions: HashMap::new(), filled_by_order: HashMap::new() }
    }

    /// The position in a symbol; flat if it was never filled.
    pub fn position(&self, symbol: SymbolId) -> (r: Position)
        requires
            self.wf(),
        ensures
            r == self@.position(symbol),
            r.wf(),
    {
        match self.positions.get(&symbol.0) {
            Some(position) => *position,
            None => Position {
                position_lots: 0,
                realized_pnl_ticks: 0,
                fees_paid_ticks: 0,
                avg_entry_price_ticks: None,
            },
        }
    }

    /// The lots that a fill report adds, if it adds any.
    fn new_lots(&self, report: &ExecutionReport) -> (r: Option<i64>)
        requires
            self.wf(),
        ensures
            match r {
                Some(delta) => self@.brings_fill(*report) && delta == self@.fill_delta(*report),
                None => !self@.brings_fill(*report),
            },
    {
        match report.status {
            OrderStatus::Filled | OrderStatus::PartiallyFilled => {},
            _ => {
                return None;
            },
        }
        let reported = report.filled_qty.lots();
        let prev = match self.filled_by_order.get(&report.client_order_id.0) {
            Some(prev) => {
                assert(self@.filled_by_order.contains_key(report.client_order_id.0));
                *prev
            },
            None => 0,
        };
        if reported <= prev {
            None
        } else {
            Some(reported - prev)
        }
    }

    /// Whether `on_execution_report` can take the report in: whether the
    /// position, the profit and loss and the fees stay within their
    /// integers.
    pub fn absorbs(&self, report: &ExecutionReport) -> (r: bool)
        requires
            self.wf(),
        ensures
            r == self@.absorbs(*report),
    {
        match self.new_lots(report) {
            Some(delta) => {
                let signed = match report.side {
                    Side::Bid => delta,
                    Side::Ask => -delta,
                };
                self.position(report.symbol).has_room(
                    signed,
                    report.last_fill_price.ticks(),
                    report.fee_ticks,
                )
            },
            None => true,
        }
    }

    /// Takes an execution report in. A report that ends an order without a
    /// fill only makes the portfolio forget the order. A fill counts for the
    /// lots that its cumulative quantity adds to what was taken in before:
    /// they move the position, realise profit or loss where they close lots,
    /// set the average entry price, and the report's fee is added. A fill
    /// that would take the position, the profit and loss or the fees out of
    /// their integers is passed over, and the portfolio stays as it is.
    pub fn on_execution_report(&mut self, report: &ExecutionReport)
        requires
            old(self).wf(),
        ensures
            final(self).wf(),
            final(self)@ == old(self)@.folded(*report),
    {
        if !self.absorbs(report) {
            return ;
        }
        let id = report.client_order_id.0;
        match report.status {
            OrderStatus::Canceled | OrderStatus::Rejected | OrderStatus::Expired => {
                self.filled_by_order.remove(&id);
                return ;
            },
            _ => {},
        }
        let delta = match self.new_lots(report) {
            Some(delta) => delta,
            None => {
                if report.status == OrderStatus::Filled {
                    self.filled_by_order.remove(&id);
                }
                return ;
            },
        };
        let signed = match report.side {
            Side::Bid => delta,
            Side::Ask => -delta,
        };
        let position = self.position(report.symbol);
        let updated = position.apply_fill(signed, report.last_fill_price.ticks(), report.fee_ticks);
        self.positions.insert(report.symbol.0, updated);
        if report.status == OrderStatus::Filled {
            self.filled_by_order.remove(&id);
        } else {
            self.filled_by_order.insert(id, report.filled_qty.lots());
        }
    }

    /// The value of the position in a symbol at the mid price, against its
    /// average entry: present when both sides of the book are and lots are
    /// held.
    pub fn mark_to_mid(
        &self,
        symbol: SymbolId,
        best_bid: Option<(Price, Qty)>,
        best_ask: Option<(Price, Qty)>,
    ) -> (r: Option<i128>)
        requires
            self.wf(),
        ensures
            match (best_bid, best_ask, self@.position(symbol).avg_entry_price_ticks) {
                (Some(bid), Some(ask), Some(avg)) => r == Some(
                    ((mid_of(bid.0@, ask.0@) - avg) * self@.position(symbol).position_lots) as i128,
                ) && self@.positions.contains_key(symbol.0),
                _ => r is None,
            },
    {
        let position = match self.positions.get(&symbol.0) {
            Some(position) => *position,
            None => {
                return None;
            },
        };
        let (bid, ask) = match (best_bid, best_ask) {
            (Some((bid, _)), Some((ask, _))) => (bid.ticks(), ask.ticks()),
            _ => {
                return None;
            },
        };
        let mid: i128 = (bid as i128 + ask as i128) / 2;
        let avg_entry = match position.avg_entry_price_ticks {
            Some(avg) => avg,
            None => {
                return None;
            },
        };
        let distance: i128 = mid - avg_entry as i128;
        let lots: i128 = position.position_lots as i128;
        assert(-0x4000_0000_0000_0000_0000_0000_0000_0000 <= distance * lots
            <= 0x4000_0000_0000_0000_0000_0000_0000_0000) by (nonlinear_arith)
            requires
                -0x8000_0000_0000_0000 <= distance <= 0x8000_0000_0000_0000,
                -0x8000_0000_0000_0000 <= lots <= 0x8000_0000_0000_0000,
        ;
        Some(distance * lots)
    }

    /// The lots held in a symbol.
    pub fn position_lots(&self, symbol: SymbolId) -> (r: i64)
        ensures
            r == self@.position(symbol).position_lots,
    {
        match self.positions.get(&symbol.0) {
            Some(position) => position.position_lots,
            None => 0,
        }
    }

    /// The average entry price of the lots held in a symbol; absent
    /// exactly when none are held.
    pub fn avg_entry_price_ticks(&self, symbol: SymbolId) -> (r: Option<i64>)
        requires
            self.wf(),
        ensures
            r == self@.position(symbol).avg_entry_price_ticks,
            r is None <==> self@.position(symbol).position_lots == 0,
    {
        match self.positions.get(&symbol.0) {
            Some(position) => position.avg_entry_price_ticks,
            None => None,
        }
    }

    /// The profit and loss realised in a symbol, in ticks.
    pub fn realized_pnl_ticks(&self, symbol: SymbolId) -> (r: i128)
        ensures
            r == self@.position(symbol).realized_pnl_ticks,
    {
        match self.positions.get(&symbol.0) {
            Some(position) => position.realized_pnl_ticks,
            None => 0,
        }
    }

    /// The fees paid in a symbol, in ticks.
    pub fn fees_paid_ticks(&self, symbol: SymbolId) -> (r: i128)
        ensures
            r == self@.position(symbol).fees_paid_ticks,
    {
        match self.positions.get(&symbol.0) {
            Some(position) => position.fees_paid_ticks,
            None => 0,
        }
    }
}

impl Default for Portfolio {
    fn default() -> (r: Portfolio)
        ensures
            r@ == PortfolioView::empty(),
            r.wf(),
    {
        Portfolio::new()
    }
}

} // verus!
