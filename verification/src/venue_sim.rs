//! A simulated venue: it fills an order that crosses the top of the book
//! when it arrives, rests the others, and fills resting orders when the
//! book moves through them.

use crate::book::{top, BookView, OrderBook};
use crate::oms::OrderRequest;
use crate::orders::{ClientOrderId, ExecutionReport, OrderStatus, OrderType};
use crate::types::{Price, Qty, Side, SymbolId};
use crate::venue::ExecutionVenue;
use std::collections::HashMap;
use vstd::prelude::*;

verus! {

/// The most resting orders that one book update may fill.
pub const MAX_PASSIVE_FILLS_PER_EVENT: usize = 1024;

/// An order that rests at the venue.
#[derive(Debug, Clone, Copy, PartialEq, Eq)]
pub struct LiveOrder {
    pub symbol: SymbolId,
    pub side: Side,
    pub price: Option<Price>,
    pub qty: Qty,
}

/// The price at which a limit order of the given side and limit fills
/// against the top of the book: a bid at or above the best ask fills at the
/// best ask, an ask at or below the best bid at the best bid.
pub open spec fn crossing_price(
    side: Side,
    limit: int,
    best_bid: Option<(int, int)>,
    best_ask: Option<(int, int)>,
) -> Option<int> {
    match side {
        Side::Bid => match best_ask {
            Some((ask, _)) if limit >= ask => Some(ask),
            _ => None,
        },
        Side::Ask => match best_bid {
            Some((bid, _)) if limit <= bid => Some(bid),
            _ => None,
        },
    }
}

/// The best price on the other side of the book, if that side holds a
/// level.
pub open spec fn opposite_top(
    side: Side,
    best_bid: Option<(int, int)>,
    best_ask: Option<(int, int)>,
) -> Option<int> {
    match side {
        Side::Bid => match best_ask {
            Some((ask, _)) => Some(ask),
            None => None,
        },
        Side::Ask => match best_bid {
            Some((bid, _)) => Some(bid),
            None => None,
        },
    }
}

/// The venue's clock after `n` reports: one step for each, stopping at
/// `u64::MAX`.
pub open spec fn clock_after(ts: u64, n: nat) -> u64 {
    if ts + n <= u64::MAX {
        (ts + n) as u64
    } else {
        u64::MAX
    }
}

/// The ids of the orders that a run of reports names.
pub open spec fn ids_of(reports: Seq<ExecutionReport>) -> Seq<u64> {
    reports.map_values(|r: ExecutionReport| r.client_order_id.0)
}

/// What a simulated venue holds.
pub struct VenueView {
    pub maker_fee_ticks: i64,
    pub taker_fee_ticks: i64,
    /// The time stamp of the next report.
    pub next_ts_ns: u64,
    /// The orders that rest, by client order id.
    pub live_orders: Map<u64, LiveOrder>,
}

impl VenueView {
    /// A report of no fill: nothing filled, no fee.
    pub open spec fn notice(
        self,
        id: ClientOrderId,
        status: OrderStatus,
        price: Price,
        symbol: SymbolId,
        side: Side,
    ) -> ExecutionReport {
        ExecutionReport {
            client_order_id: id,
            status,
            filled_qty: Qty::from_lots(0),
            last_fill_price: price,
            fee_ticks: 0,
            ts_ns: self.next_ts_ns,
            symbol,
            side,
        }
    }

    /// The report of a full fill, `after` reports into a call.
    pub open spec fn fill(
        self,
        id: ClientOrderId,
        order: LiveOrder,
        price: int,
        fee_ticks: i64,
        after: nat,
    ) -> ExecutionReport {
        ExecutionReport {
            client_order_id: id,
            status: OrderStatus::Filled,
            filled_qty: order.qty,
            last_fill_price: Price::from_ticks(price),
            fee_ticks,
            ts_ns: clock_after(self.next_ts_ns, after),
            symbol: order.symbol,
            side: order.side,
        }
    }

    /// The venue with its clock moved on by `n` reports and the given
    /// resting orders.
    pub open spec fn moved_on(self, n: nat, live_orders: Map<u64, LiveOrder>) -> VenueView {
        VenueView {
            maker_fee_ticks: self.maker_fee_ticks,
            taker_fee_ticks: self.taker_fee_ticks,
            next_ts_ns: clock_after(self.next_ts_ns, n),
            live_orders,
        }
    }

    /// The price at which a new order fills on arrival, if it does: a
    /// limit order where it crosses, a market order at the other side's
    /// best price.
    pub open spec fn arrival_price(
        order: crate::orders::OrderRequest,
        best_bid: Option<(int, int)>,
        best_ask: Option<(int, int)>,
    ) -> Option<int> {
        match order.order_type {
            OrderType::Limit => match order.price {
                Some(limit) => crossing_price(order.side, limit@, best_bid, best_ask),
                None => None,
            },
            OrderType::Market => opposite_top(order.side, best_bid, best_ask),
        }
    }

    /// Whether a new order is turned away: a limit order without a price.
    pub open spec fn turns_away(order: crate::orders::OrderRequest) -> bool {
        order.order_type == OrderType::Limit && order.price is None
    }

    /// What the order rests as.
    pub open spec fn resting(order: crate::orders::OrderRequest) -> LiveOrder {
        LiveOrder { symbol: order.symbol, side: order.side, price: order.price, qty: order.qty }
    }

    /// The reports that a new order leads to: a rejection for a limit
    /// order without a price; otherwise an acceptance, which names the fill
    /// price, else the limit, else zero, and after it a full fill at the
    /// taker fee if the order fills on arrival.
    pub open spec fn place_reports(
        self,
        order: crate::orders::OrderRequest,
        best_bid: Option<(int, int)>,
        best_ask: Option<(int, int)>,
    ) -> Seq<ExecutionReport> {
        let id = order.client_order_id;
        if Self::turns_away(order) {
            seq![
                self.notice(id, OrderStatus::Rejected, Price::from_ticks(0), order.symbol, order.side),
            ]
        } else {
            match Self::arrival_price(order, best_bid, best_ask) {
                Some(price) => seq![
                    self.notice(
                        id,
                        OrderStatus::Accepted,
                        Price::from_ticks(price),
                        order.symbol,
                        order.side,
                    ),
                    self.fill(id, Self::resting(order), price, self.taker_fee_ticks, 1),
                ],
                None => seq![
                    self.notice(
                        id,
                        OrderStatus::Accepted,
                        match order.price {
                            Some(limit) => limit,
                            None => Price::from_ticks(0),
                        },
                        order.symbol,
                        order.side,
                    ),
                ],
            }
        }
    }

    /// The venue after a new order: a limit order that does not fill on
    /// arrival rests.
    pub open spec fn after_place(
        self,
        order: crate::orders::OrderRequest,
        best_bid: Option<(int, int)>,
        best_ask: Option<(int, int)>,
    ) -> VenueView {
        self.moved_on(
            self.place_reports(order, best_bid, best_ask).len(),
            if !Self::turns_away(order) && Self::arrival_price(order, best_bid, best_ask) is None
                && order.order_type == OrderType::Limit {
                self.live_orders.insert(order.client_order_id.0, Self::resting(order))
            } else {
                self.live_orders
            },
        )
    }

    /// A resting order as a new limit order with another price and
    /// quantity.
    pub open spec fn replaced(
        id: ClientOrderId,
        order: LiveOrder,
        new_price: Price,
        new_qty: Qty,
    ) -> crate::orders::OrderRequest {
        crate::orders::OrderRequest {
            client_order_id: id,
            symbol: order.symbol,
            side: order.side,
            order_type: OrderType::Limit,
            price: Some(new_price),
            qty: new_qty,
            tif: crate::orders::TimeInForce::Gtc,
        }
    }

    /// The reports that a request leads to. A cancel of a resting order is
    /// confirmed; a replace of a resting order is a new order in its place;
    /// a cancel or a replace of an order that does not rest leads to
    /// nothing.
    pub open spec fn submit_reports(
        self,
        req: OrderRequest,
        best_bid: Option<(int, int)>,
        best_ask: Option<(int, int)>,
    ) -> Seq<ExecutionReport> {
        match req {
            OrderRequest::Place(order) => self.place_reports(order, best_bid, best_ask),
            OrderRequest::Cancel { client_order_id, .. } => if self.live_orders.contains_key(
                client_order_id.0,
            ) {
                let order = self.live_orders[client_order_id.0];
                seq![
                    self.notice(
                        client_order_id,
                        OrderStatus::Canceled,
                        match order.price {
                            Some(limit) => limit,
                            None => Price::from_ticks(0),
                        },
                        order.symbol,
                        order.side,
                    ),
                ]
            } else {
                Seq::empty()
            },
            OrderRequest::Replace { client_order_id, new_price, new_qty, .. } => if 
                self.live_orders.contains_key(client_order_id.0) {
                self.place_reports(
                    Self::replaced(
                        client_order_id,
                        self.live_orders[client_order_id.0],
                        new_price,
                        new_qty,
                    ),
                    best_bid,
                    best_ask,
                )
            } else {
                Seq::empty()
            },
        }
    }

    /// The venue after a request.
    pub open spec fn after_submit(
        self,
        req: OrderRequest,
        best_bid: Option<(int, int)>,
        best_ask: Option<(int, int)>,
    ) -> VenueView {
        match req {
            OrderRequest::Place(order) => self.after_place(order, best_bid, best_ask),
            OrderRequest::Cancel { client_order_id, .. } => if self.live_orders.contains_key(
                client_order_id.0,
            ) {
                self.moved_on(1, self.live_orders.remove(client_order_id.0))
            } else {
                self
            },
            OrderRequest::Replace { client_order_id, new_price, new_qty, .. } => if 
                self.live_orders.contains_key(client_order_id.0) {
                self.moved_on(0, self.live_orders.remove(client_order_id.0)).after_place(
                    Self::replaced(
                        client_order_id,
                        self.live_orders[client_order_id.0],
                        new_price,
                        new_qty,
                    ),
                    best_bid,
                    best_ask,
                )
            } else {
                self
            },
        }
    }

    /// The price at which the book fills a resting order, if it does.
    pub open spec fn sweep_price(
        self,
        id: u64,
        best_bid: Option<(int, int)>,
        best_ask: Option<(int, int)>,
    ) -> Option<int> {
        if self.live_orders.contains_key(id) {
            match self.live_orders[id].price {
                Some(limit) => crossing_price(self.live_orders[id].side, limit@, best_bid, best_ask),
                None => None,
            }
        } else {
            None
        }
    }

    /// Whether `reports` and `after` are what a passive sweep of this venue
    /// against the given top of the book gives: the resting orders that the
    /// book fills, in ascending order of client order id and no more than
    /// the cap, each filled in full at the other side's best price for the
    /// maker fee, and each gone from the venue afterwards.
    pub open spec fn swept(
        self,
        best_bid: Option<(int, int)>,
        best_ask: Option<(int, int)>,
        reports: Seq<ExecutionReport>,
        after: VenueView,
    ) -> bool {
        &&& reports.len() <= MAX_PASSIVE_FILLS_PER_EVENT
        &&& forall|i: int, j: int|
            0 <= i < j < reports.len() ==> (#[trigger] reports[i]).client_order_id.0 < (
            #[trigger] reports[j]).client_order_id.0
        &&& forall|k: int|
            0 <= k < reports.len() ==> {
                let id = (#[trigger] reports[k]).client_order_id;
                &&& self.sweep_price(id.0, best_bid, best_ask) is Some
                &&& reports[k] == self.fill(
                    id,
                    self.live_orders[id.0],
                    self.sweep_price(id.0, best_bid, best_ask).unwrap(),
                    self.maker_fee_ticks,
                    k as nat,
                )
            }
        &&& forall|id: u64| #[trigger]
            self.sweep_price(id, best_bid, best_ask) is Some ==> ids_of(reports).contains(id) || (
            reports.len() == MAX_PASSIVE_FILLS_PER_EVENT && id > reports.last().client_order_id.0)
        &&& after == self.moved_on(
            reports.len(),
            self.live_orders.remove_keys(ids_of(reports).to_set()),
        )
    }
}

/// Whether a run of ids never steps down.
pub open spec fn ascending(ids: Seq<u64>) -> bool {
    forall|i: int, j: int| 0 <= i < j < ids.len() ==> ids[i] <= ids[j]
}

/// Calls `sort_unstable` on the ids. Trusted: afterwards the same ids
/// stand in ascending order.
#[verifier::external_body]
fn sort_ids(ids: &mut Vec<u64>)
    ensures
        ascending(final(ids)@),
        final(ids)@.to_multiset() == old(ids)@.to_multiset(),
{
    ids.sort_unstable();
}

/// The client order ids of the resting orders, in ascending order.
fn ascending_ids(live_orders: &HashMap<u64, LiveOrder>) -> (ids: Vec<u64>)
    ensures
        forall|i: int, j: int| 0 <= i < j < ids@.len() ==> ids@[i] < ids@[j],
        forall|id: u64| ids@.contains(id) <==> live_orders@.contains_key(id),
{
    let mut ids: Vec<u64> = Vec::new();
    for id in it: live_orders.keys()
        invariant
            it.seq().unref().to_set() == live_orders@.dom(),
            it.seq().no_duplicates(),
            ids@ == it.seq().take(it.index() as int).unref(),
        ensures
            ids@ == it.seq().unref(),
    {
        ids.push(*id);
        assert(it.seq().take(it.index() + 1).unref() =~= it.seq().take(
            it.index() as int,
        ).unref().push(*id));
    }
    let ghost unsorted = ids@;
    assert(unsorted.no_duplicates());
    sort_ids(&mut ids);
    proof {
        unsorted.lemma_multiset_has_no_duplicates();
        ids@.lemma_multiset_has_no_duplicates_conv();
        assert forall|id: u64| ids@.contains(id) <==> live_orders@.contains_key(id) by {
            vstd::seq_lib::to_multiset_contains(ids@, id);
            vstd::seq_lib::to_multiset_contains(unsorted, id);
            assert(unsorted.to_set().contains(id) <==> unsorted.contains(id));
        }
    }
    ids
}

/// The simulated venue.
pub struct SimVenue {
    maker_fee_ticks: i64,
    taker_fee_ticks: i64,
    next_ts_ns: u64,
    live_orders: HashMap<u64, LiveOrder>,
}

impl View for SimVenue {
    type V = VenueView;

    closed spec fn view(&self) -> VenueView {
        VenueView {
            maker_fee_ticks: self.maker_fee_ticks,
            taker_fee_ticks: self.taker_fee_ticks,
            next_ts_ns: self.next_ts_ns,
            live_orders: self.live_orders@,
        }
    }
}

impl SimVenue {
    /// A venue with no resting orders whose first report carries time
    /// stamp 1.
    pub fn new(maker_fee_ticks: i64, taker_fee_ticks: i64) -> (r: SimVenue)
        ensures
            r@ == (VenueView {
                maker_fee_ticks,
                taker_fee_ticks,
                next_ts_ns: 1,
                live_orders: Map::empty(),
            }),
    {
        SimVenue { maker_fee_ticks, taker_fee_ticks, next_ts_ns: 1, live_orders: HashMap::new() }
    }

    /// How many orders rest at the venue.
    pub fn live_order_count(&self) -> (r: usize)
        ensures
            r == self@.live_orders.len(),
    {
        self.live_orders.len()
    }

    /// Hands out the next time stamp.
    fn next_ts(&mut self) -> (ts: u64)
        ensures
            ts == old(self)@.next_ts_ns,
            final(self)@ == old(self)@.moved_on(1, old(self)@.live_orders),
    {
        let ts = self.next_ts_ns;
        self.next_ts_ns = self.next_ts_ns.saturating_add(1);
        ts
    }

    /// The price at which a limit order of the given side and limit fills
    /// against the top of the book, if it crosses.
    pub fn passive_fill_price(
        side: Side,
        limit_price: Price,
        best_bid: Option<(Price, Qty)>,
        best_ask: Option<(Price, Qty)>,
    ) -> (r: Option<Price>)
        ensures
            match r {
                Some(p) => crossing_price(side, limit_price@, top(best_bid), top(best_ask)) == Some(
                    p@,
                ),
                None => crossing_price(side, limit_price@, top(best_bid), top(best_ask)) is None,
            },
    {
        match side {
            Side::Bid => match best_ask {
                Some((ask, _)) => if limit_price.ticks() >= ask.ticks() {
                    Some(ask)
                } else {
                    None
                },
                None => None,
            },
            Side::Ask => match best_bid {
                Some((bid, _)) => if limit_price.ticks() <= bid.ticks() {
                    Some(bid)
                } else {
                    None
                },
                None => None,
            },
        }
    }

    /// The report that turns an order away.
    fn rejected(&mut self, order: &crate::orders::OrderRequest) -> (r: ExecutionReport)
        requires
            VenueView::turns_away(*order),
        ensures
            r == old(self)@.notice(
                order.client_order_id,
                OrderStatus::Rejected,
                Price::from_ticks(0),
                order.symbol,
                order.side,
            ),
            final(self)@ == old(self)@.moved_on(1, old(self)@.live_orders),
    {
        ExecutionReport {
            client_order_id: order.client_order_id,
            status: OrderStatus::Rejected,
            filled_qty: Qty::zero(),
            last_fill_price: match order.price {
                Some(price) => price,
                None => Price::zero(),
            },
            fee_ticks: 0,
            ts_ns: self.next_ts(),
            symbol: order.symbol,
            side: order.side,
        }
    }

    fn handle_place(
        &mut self,
        book: &OrderBook,
        order: &crate::orders::OrderRequest,
        out: &mut Vec<ExecutionReport>,
    )
        requires
            book.wf(),
        ensures
            final(out)@ == old(out)@ + old(self)@.place_reports(
                *order,
                book@.best_bid(),
                book@.best_ask(),
            ),
            final(self)@ == old(self)@.after_place(*order, book@.best_bid(), book@.best_ask()),
    {
        broadcast use Price::lemma_from_ticks_view;

        let best_bid = book.best_bid();
        let best_ask = book.best_ask();
        let ghost reports = self@.place_reports(*order, book@.best_bid(), book@.best_ask());
        let crossing = match order.order_type {
            OrderType::Limit => {
                let limit = match order.price {
                    Some(limit) => limit,
                    None => {
                        let report = self.rejected(order);
                        out.push(report);
                        assert(out@ =~= old(out)@ + reports);
                        return ;
                    },
                };
                Self::passive_fill_price(order.side, limit, best_bid, best_ask)
            },
            OrderType::Market => match order.side {
                Side::Bid => match best_ask {
                    Some((ask, _)) => Some(ask),
                    None => None,
                },
                Side::Ask => match best_bid {
                    Some((bid, _)) => Some(bid),
                    None => None,
                },
            },
        };
        let ack_price = match crossing {
            Some(price) => price,
            None => match order.price {
                Some(limit) => limit,
                None => Price::zero(),
            },
        };
        let ack_ts = self.next_ts();
        out.push(
            ExecutionReport {
                client_order_id: order.client_order_id,
                status: OrderStatus::Accepted,
                filled_qty: Qty::zero(),
                last_fill_price: ack_price,
                fee_ticks: 0,
                ts_ns: ack_ts,
                symbol: order.symbol,
                side: order.side,
            },
        );
        match crossing {
            Some(fill_price) => {
                let fill_ts = self.next_ts();
                out.push(
                    ExecutionReport {
                        client_order_id: order.client_order_id,
                        status: OrderStatus::Filled,
                        filled_qty: order.qty,
                        last_fill_price: fill_price,
                        fee_ticks: self.taker_fee_ticks,
                        ts_ns: fill_ts,
                        symbol: order.symbol,
                        side: order.side,
                    },
                );
            },
            None => {
                if order.order_type == OrderType::Limit {
                    self.live_orders.insert(
                        order.client_order_id.0,
                        LiveOrder {
                            symbol: order.symbol,
                            side: order.side,
                            price: order.price,
                            qty: order.qty,
                        },
                    );
                }
            },
        }
        assert(out@ =~= old(out)@ + reports);
    }

    fn handle_replace(
        &mut self,
        book: &OrderBook,
        client_order_id: ClientOrderId,
        new_price: Price,
        new_qty: Qty,
        out: &mut Vec<ExecutionReport>,
    )
        requires
            book.wf(),
        ensures
            final(out)@ == old(out)@ + old(self)@.submit_reports(
                OrderRequest::Replace { client_order_id, new_price, new_qty, ts_ns: 0 },
                book@.best_bid(),
                book@.best_ask(),
            ),
            final(self)@ == old(self)@.after_submit(
                OrderRequest::Replace { client_order_id, new_price, new_qty, ts_ns: 0 },
                book@.best_bid(),
                book@.best_ask(),
            ),
    {
        let order = match self.live_orders.remove(&client_order_id.0) {
            Some(order) => order,
            None => {
                assert(out@ =~= old(out)@ + Seq::<ExecutionReport>::empty());
                assert(self@.live_orders =~= old(self)@.live_orders);
                return ;
            },
        };
        assert(self@ == old(self)@.moved_on(0, old(self)@.live_orders.remove(client_order_id.0)));
        let replacement = crate::orders::OrderRequest {
            client_order_id,
            symbol: order.symbol,
            side: order.side,
            order_type: OrderType::Limit,
            price: Some(new_price),
            qty: new_qty,
            tif: crate::orders::TimeInForce::Gtc,
        };
        self.handle_place(book, &replacement, out);
    }

    fn handle_cancel(&mut self, client_order_id: ClientOrderId, out: &mut Vec<ExecutionReport>)
        ensures
            final(out)@ == old(out)@ + old(self)@.submit_reports(
                OrderRequest::Cancel { client_order_id, ts_ns: 0 },
                None,
                None,
            ),
            final(self)@ == old(self)@.after_submit(
                OrderRequest::Cancel { client_order_id, ts_ns: 0 },
                None,
                None,
            ),
    {
        let order = match self.live_orders.remove(&client_order_id.0) {
            Some(order) => order,
            None => {
                assert(out@ =~= old(out)@ + Seq::<ExecutionReport>::empty());
                assert(self@.live_orders =~= old(self)@.live_orders);
                return ;
            },
        };
        let ts = self.next_ts();
        out.push(
            ExecutionReport {
                client_order_id,
                status: OrderStatus::Canceled,
                filled_qty: Qty::zero(),
                last_fill_price: match order.price {
                    Some(price) => price,
                    None => Price::zero(),
                },
                fee_ticks: 0,
                ts_ns: ts,
                symbol: order.symbol,
                side: order.side,
            },
        );
        assert(out@ =~= old(out)@ + old(self)@.submit_reports(
            OrderRequest::Cancel { client_order_id, ts_ns: 0 },
            None,
            None,
        ));
    }
}

impl ExecutionVenue for SimVenue {
    type Model = VenueView;

    open spec fn model(&self) -> VenueView {
        self@
    }

    open spec fn submit_step(model: VenueView, book: BookView, req: OrderRequest) -> Option<
        (Seq<ExecutionReport>, VenueView),
    > {
        Some(
            (
                model.submit_reports(req, book.best_bid(), book.best_ask()),
                model.after_submit(req, book.best_bid(), book.best_ask()),
            ),
        )
    }

    open spec fn sweep_ok(
        model: VenueView,
        book: BookView,
        before: Seq<ExecutionReport>,
        after: Seq<ExecutionReport>,
        next: VenueView,
    ) -> bool {
        &&& before.len() <= after.len()
        &&& after.take(before.len() as int) == before
        &&& model.swept(book.best_bid(), book.best_ask(), after.skip(before.len() as int), next)
    }

    /// Takes in one request and appends its reports to `out`: see
    /// [`VenueView::submit_reports`] and [`VenueView::after_submit`].
    fn submit(&mut self, book: &OrderBook, req: &OrderRequest, out: &mut Vec<ExecutionReport>)
        ensures
            final(out)@ == old(out)@ + old(self)@.submit_reports(
                *req,
                book@.best_bid(),
                book@.best_ask(),
            ),
            final(self)@ == old(self)@.after_submit(*req, book@.best_bid(), book@.best_ask()),
    {
        match req {
            OrderRequest::Place(order) => self.handle_place(book, order, out),
            OrderRequest::Cancel { client_order_id, .. } => self.handle_cancel(
                *client_order_id,
                out,
            ),
            OrderRequest::Replace { client_order_id, new_price, new_qty, .. } => {
                self.handle_replace(book, *client_order_id, *new_price, *new_qty, out)
            },
        }
    }

    /// The passive sweep: fills the resting orders that the book now
    /// crosses, lowest client order id first, and appends one report for
    /// each to `out`.
    fn on_book_update(&mut self, book: &OrderBook, out: &mut Vec<ExecutionReport>)
        ensures
            old(out)@.len() <= final(out)@.len(),
            final(out)@.take(old(out)@.len() as int) == old(out)@,
            old(self)@.swept(
                book@.best_bid(),
                book@.best_ask(),
                final(out)@.skip(old(out)@.len() as int),
                final(self)@,
            ),
    {
        broadcast use Price::lemma_from_ticks_view;

        let best_bid = book.best_bid();
        let best_ask = book.best_ask();
        let ghost bb = book@.best_bid();
        let ghost ba = book@.best_ask();
        let ghost before = self@;
        let ghost base = out@.len() as int;
        let ids = ascending_ids(&self.live_orders);
        let mut filled: usize = 0;
        let mut i: usize = 0;
        assert(out@.skip(base) =~= Seq::<ExecutionReport>::empty());
        while i < ids.len() && filled < MAX_PASSIVE_FILLS_PER_EVENT
            invariant
                i <= ids.len(),
                filled <= MAX_PASSIVE_FILLS_PER_EVENT,
                bb == top(best_bid),
                ba == top(best_ask),
                before == old(self)@,
                base == old(out)@.len(),
                forall|a: int, b: int| 0 <= a < b < ids@.len() ==> ids@[a] < ids@[b],
                forall|id: u64| ids@.contains(id) <==> before.live_orders.contains_key(id),
                out@.len() == base + filled,
                out@.take(base) == old(out)@,
                self@.maker_fee_ticks == before.maker_fee_ticks,
                self@.taker_fee_ticks == before.taker_fee_ticks,
                self@.next_ts_ns == clock_after(before.next_ts_ns, filled as nat),
                self@.live_orders == before.live_orders.remove_keys(
                    ids_of(out@.skip(base)).to_set(),
                ),
                forall|k: int|
                    0 <= k < filled ==> exists|a: int|
                        0 <= a < i && ids@[a] == (#[trigger] out@[base + k]).client_order_id.0,
                forall|k: int, l: int|
                    0 <= k < l < filled ==> (#[trigger] out@[base + k]).client_order_id.0 < (
                    #[trigger] out@[base + l]).client_order_id.0,
                forall|k: int|
                    0 <= k < filled ==> {
                        let id = (#[trigger] out@[base + k]).client_order_id;
                        &&& before.sweep_price(id.0, bb, ba) is Some
                        &&& out@[base + k] == before.fill(
                            id,
                            before.live_orders[id.0],
                            before.sweep_price(id.0, bb, ba).unwrap(),
                            before.maker_fee_ticks,
                            k as nat,
                        )
                    },
                forall|a: int|
                    0 <= a < i && before.sweep_price(#[trigger] ids@[a], bb, ba) is Some ==> ids_of(
                        out@.skip(base),
                    ).contains(ids@[a]),
            decreases ids.len() - i,
        {
            let id = ids[i];
            let ghost reports = out@.skip(base);
            assert(ids@.contains(id));
            assert(!ids_of(reports).contains(id)) by {
                if ids_of(reports).contains(id) {
                    let k = choose|k: int| 0 <= k < reports.len() && ids_of(reports)[k] == id;
                    assert(out@[base + k].client_order_id.0 == id);
                }
            }
            assert(self@.live_orders.contains_key(id) && self@.live_orders[id]
                == before.live_orders[id]);
            let order = match self.live_orders.get(&id) {
                Some(order) => *order,
                None => {
                    i = i + 1;
                    continue ;
                },
            };
            let fill_price = match order.price {
                Some(limit) => Self::passive_fill_price(order.side, limit, best_bid, best_ask),
                None => None,
            };
            match fill_price {
                Some(fill_price) => {
                    self.live_orders.remove(&id);
                    let ts = self.next_ts();
                    out.push(
                        ExecutionReport {
                            client_order_id: ClientOrderId(id),
                            status: OrderStatus::Filled,
                            filled_qty: order.qty,
                            last_fill_price: fill_price,
                            fee_ticks: self.maker_fee_ticks,
                            ts_ns: ts,
                            symbol: order.symbol,
                            side: order.side,
                        },
                    );
                    proof {
                        let grown = out@.skip(base);
                        assert(grown =~= reports.push(out@[base + filled]));
                        assert(ids_of(grown) =~= ids_of(reports).push(id));
                        ids_of(reports).lemma_push_to_set_commute(id);
                        assert forall|k: int| 0 <= k < filled implies out@[base + k]
                            == reports[k] by {}
                        assert(before.sweep_price(id, bb, ba) == Some(fill_price@));
                        Price::lemma_from_ticks_view(fill_price);
                        assert(out@[base + filled] == before.fill(
                            ClientOrderId(id),
                            before.live_orders[id],
                            fill_price@,
                            before.maker_fee_ticks,
                            filled as nat,
                        ));
                        assert(self@.live_orders =~= before.live_orders.remove_keys(
                            ids_of(grown).to_set(),
                        ));
                        assert(out@.take(base) =~= old(out)@);
                        assert forall|k: int| 0 <= k < filled + 1 implies exists|a: int|
                            0 <= a < i + 1 && ids@[a] == (#[trigger] out@[base
                                + k]).client_order_id.0 by {
                            if k < filled {
                                let a = choose|a: int|
                                    0 <= a < i && ids@[a] == out@[base + k].client_order_id.0;
                                assert(0 <= a < i + 1);
                            } else {
                                assert(ids@[i as int] == out@[base + k].client_order_id.0);
                            }
                        }
                        assert forall|a: int|
                            0 <= a < i + 1 && before.sweep_price(#[trigger] ids@[a], bb, ba)
                                is Some implies ids_of(grown).contains(ids@[a]) by {
                            if a < i {
                                let k = choose|k: int|
                                    0 <= k < reports.len() && ids_of(reports)[k] == ids@[a];
                                assert(ids_of(grown)[k] == ids@[a]);
                            } else {
                                assert(ids_of(grown)[filled as int] == id);
                            }
                        }
                    }
                    filled = filled + 1;
                },
                None => {},
            }
            i = i + 1;
        }
        proof {
            let reports = out@.skip(base);
            assert forall|k: int| 0 <= k < reports.len() implies {
                let id = (#[trigger] reports[k]).client_order_id;
                &&& before.sweep_price(id.0, bb, ba) is Some
                &&& reports[k] == before.fill(
                    id,
                    before.live_orders[id.0],
                    before.sweep_price(id.0, bb, ba).unwrap(),
                    before.maker_fee_ticks,
                    k as nat,
                )
            } by {
                assert(reports[k] == out@[base + k]);
            }
            assert forall|k: int, l: int| 0 <= k < l < reports.len() implies (
            #[trigger] reports[k]).client_order_id.0 < (#[trigger] reports[l]).client_order_id.0 by {
                assert(reports[k] == out@[base + k]);
                assert(reports[l] == out@[base + l]);
            }
            assert forall|id: u64| #[trigger]
                before.sweep_price(id, bb, ba) is Some implies ids_of(reports).contains(id) || (
            reports.len() == MAX_PASSIVE_FILLS_PER_EVENT && id
                > reports.last().client_order_id.0) by {
                assert(ids@.contains(id));
                let a = choose|a: int| 0 <= a < ids@.len() && ids@[a] == id;
                if a >= i {
                    assert(filled == MAX_PASSIVE_FILLS_PER_EVENT);
                    let last = reports.last();
                    assert(last == out@[base + (filled - 1)]);
                    let b = choose|b: int| 0 <= b < i && ids@[b] == last.client_order_id.0;
                    assert(ids@[b] < ids@[a]);
                }
            }
        }
    }
}

} // verus!
