//! The order management system: the registry of client orders, the step
//! from a strategy's intent to a request for the venue, and the reducer
//! that folds execution reports into each order's state.

use crate::orders::{ClientOrderId, ExecutionReport, Intent, OrderStatus, OrderType};
use crate::types::{Price, Qty};
use std::collections::HashMap;
use vstd::prelude::*;

verus! {

/// Where a client order stands.
#[derive(Debug, Clone, Copy, PartialEq, Eq, Structural)]
pub enum OrderState {
    PendingNew,
    Live,
    PendingCancel,
    Canceled,
    Filled,
    Rejected,
}

impl OrderState {
    /// Whether the order has come to its end.
    pub open spec fn spec_is_terminal(self) -> bool {
        self == OrderState::Canceled || self == OrderState::Filled || self == OrderState::Rejected
    }

    #[verifier::when_used_as_spec(spec_is_terminal)]
    pub fn is_terminal(self) -> (r: bool)
        ensures
            r == self.spec_is_terminal(),
    {
        match self {
            OrderState::Canceled | OrderState::Filled | OrderState::Rejected => true,
            _ => false,
        }
    }
}

/// The state that a report of the given status leaves an order in.
pub open spec fn spec_map_status(status: OrderStatus) -> OrderState {
    match status {
        OrderStatus::New => OrderState::PendingNew,
        OrderStatus::Accepted | OrderStatus::Working | OrderStatus::PartiallyFilled => {
            OrderState::Live
        },
        OrderStatus::Canceled | OrderStatus::Expired => OrderState::Canceled,
        OrderStatus::Filled => OrderState::Filled,
        OrderStatus::Rejected => OrderState::Rejected,
    }
}

#[verifier::when_used_as_spec(spec_map_status)]
pub fn map_status(status: OrderStatus) -> (r: OrderState)
    ensures
        r == spec_map_status(status),
{
    match status {
        OrderStatus::New => OrderState::PendingNew,
        OrderStatus::Accepted | OrderStatus::Working | OrderStatus::PartiallyFilled => {
            OrderState::Live
        },
        OrderStatus::Canceled | OrderStatus::Expired => OrderState::Canceled,
        OrderStatus::Filled => OrderState::Filled,
        OrderStatus::Rejected => OrderState::Rejected,
    }
}

/// What the order manager sends to a venue.
#[derive(Debug, Clone, Copy, PartialEq, Eq)]
pub enum OrderRequest {
    Place(crate::orders::OrderRequest),
    Cancel { client_order_id: ClientOrderId, ts_ns: u64 },
    Replace { client_order_id: ClientOrderId, new_price: Price, new_qty: Qty, ts_ns: u64 },
}

/// What the registry keeps of one client order.
#[derive(Debug, Clone, Copy, PartialEq, Eq, Structural)]
pub struct OrderEntry {
    pub state: OrderState,
    pub filled_qty: Qty,
}

/// The ids of the orders that have not come to their end.
pub open spec fn open_ids(orders: Map<u64, OrderEntry>) -> Set<u64> {
    Set::new(|id: u64| orders.contains_key(id) && !orders[id].state.spec_is_terminal())
}

/// The number of orders that have not come to their end.
pub open spec fn count_open(orders: Map<u64, OrderEntry>) -> nat {
    open_ids(orders).len()
}

/// How many open orders there are once one entry has been set: the entry
/// that was there, if it was open, counts no more, and the new one counts
/// if it is open.
pub proof fn lemma_count_open_insert(orders: Map<u64, OrderEntry>, id: u64, entry: OrderEntry)
    requires
        orders.dom().finite(),
    ensures
        count_open(orders) <= orders.dom().len(),
        count_open(orders.insert(id, entry)) == count_open(orders) - (if orders.contains_key(id)
            && !orders[id].state.spec_is_terminal() {
            1int
        } else {
            0int
        }) + (if entry.state.spec_is_terminal() {
            0int
        } else {
            1int
        }),
{
    let before = open_ids(orders);
    let after = open_ids(orders.insert(id, entry));
    vstd::set_lib::lemma_len_subset(before, orders.dom());
    if entry.state.spec_is_terminal() {
        assert(after =~= before.remove(id));
    } else {
        assert(after =~= before.remove(id).insert(id));
    }
}

/// What an order manager holds.
pub struct OmsView {
    /// The id that the next placed order gets.
    pub next_id: u64,
    /// Every order ever placed, by id.
    pub orders: Map<u64, OrderEntry>,
    /// How many reports named an order that was never placed.
    pub orphan_reports: u64,
}

impl OmsView {
    /// An order manager that has seen nothing yet. Ids start at 1.
    pub open spec fn empty() -> OmsView {
        OmsView { next_id: 1, orders: Map::empty(), orphan_reports: 0 }
    }

    /// The number of orders that have not come to their end.
    pub open spec fn open_orders(self) -> nat {
        count_open(self.orders)
    }

    /// There are finitely many orders and each has an id that was handed
    /// out.
    pub open spec fn wf(self) -> bool {
        &&& self.orders.dom().finite()
        &&& forall|id: u64| #[trigger] self.orders.contains_key(id) ==> id < self.next_id
    }

    /// An entry as a cancel or a replace leaves it: an order that has come
    /// to its end stays as it is, any other goes to `pending`.
    pub open spec fn moved_to(entry: OrderEntry, pending: OrderState) -> OrderEntry {
        if entry.state.spec_is_terminal() {
            entry
        } else {
            OrderEntry { state: pending, filled_qty: entry.filled_qty }
        }
    }

    /// The order manager after an intent. A limit order for which no id is
    /// left changes nothing.
    pub open spec fn after_intent(self, intent: Intent) -> OmsView {
        match intent {
            Intent::PlaceLimit { .. } => if self.next_id < u64::MAX {
                OmsView {
                    next_id: (self.next_id + 1) as u64,
                    orders: self.orders.insert(
                        self.next_id,
                        OrderEntry { state: OrderState::PendingNew, filled_qty: Qty::from_lots(0) },
                    ),
                    orphan_reports: self.orphan_reports,
                }
            } else {
                self
            },
            Intent::Cancel { client_order_id } => if self.orders.contains_key(client_order_id.0) {
                OmsView {
                    next_id: self.next_id,
                    orders: self.orders.insert(
                        client_order_id.0,
                        Self::moved_to(self.orders[client_order_id.0], OrderState::PendingCancel),
                    ),
                    orphan_reports: self.orphan_reports,
                }
            } else {
                self
            },
            Intent::Replace { client_order_id, .. } => if self.orders.contains_key(
                client_order_id.0,
            ) {
                OmsView {
                    next_id: self.next_id,
                    orders: self.orders.insert(
                        client_order_id.0,
                        Self::moved_to(self.orders[client_order_id.0], OrderState::PendingNew),
                    ),
                    orphan_reports: self.orphan_reports,
                }
            } else {
                self
            },
        }
    }

    /// The request that an intent at time `ts_ns` gives rise to. A limit
    /// order for which no id is left gives none, and neither does a cancel
    /// or a replace of an order that was never placed.
    pub open spec fn request_for(self, intent: Intent, ts_ns: u64) -> Option<OrderRequest> {
        match intent {
            Intent::PlaceLimit { symbol, side, price, qty, tif, .. } => if self.next_id < u64::MAX {
                Some(
                    OrderRequest::Place(
                        crate::orders::OrderRequest {
                            client_order_id: ClientOrderId(self.next_id),
                            symbol,
                            side,
                            order_type: OrderType::Limit,
                            price: Some(price),
                            qty,
                            tif,
                        },
                    ),
                )
            } else {
                None
            },
            Intent::Cancel { client_order_id } => if self.orders.contains_key(client_order_id.0) {
                Some(OrderRequest::Cancel { client_order_id, ts_ns })
            } else {
                None
            },
            Intent::Replace { client_order_id, new_price, new_qty } => if self.orders.contains_key(
                client_order_id.0,
            ) {
                Some(OrderRequest::Replace { client_order_id, new_price, new_qty, ts_ns })
            } else {
                None
            },
        }
    }

    /// Whether a report changes the order it names: its cumulative filled
    /// quantity is not below what is known, and it brings a higher one or
    /// another state.
    pub open spec fn report_counts(self, report: ExecutionReport) -> bool {
        let id = report.client_order_id.0;
        &&& self.orders.contains_key(id)
        &&& report.filled_qty@ >= self.orders[id].filled_qty@
        &&& (report.filled_qty@ > self.orders[id].filled_qty@ || self.orders[id].state
            != spec_map_status(report.status))
    }

    /// The order manager after an execution report. A report for an order
    /// that was never placed is counted and dropped; the count stops at
    /// `u64::MAX`.
    pub open spec fn after_report(self, report: ExecutionReport) -> OmsView {
        let id = report.client_order_id.0;
        if !self.orders.contains_key(id) {
            OmsView {
                next_id: self.next_id,
                orders: self.orders,
                orphan_reports: if self.orphan_reports < u64::MAX {
                    (self.orphan_reports + 1) as u64
                } else {
                    self.orphan_reports
                },
            }
        } else if self.report_counts(report) {
            OmsView {
                next_id: self.next_id,
                orders: self.orders.insert(
                    id,
                    OrderEntry {
                        state: spec_map_status(report.status),
                        filled_qty: report.filled_qty,
                    },
                ),
                orphan_reports: self.orphan_reports,
            }
        } else {
            self
        }
    }

    /// Whether this order manager is a later stage of `earlier`: every
    /// order that was known is known still, and no counter has gone back.
    pub open spec fn extends(self, earlier: OmsView) -> bool {
        &&& earlier.next_id <= self.next_id
        &&& earlier.orphan_reports <= self.orphan_reports
        &&& forall|id: u64| #[trigger]
            earlier.orders.contains_key(id) ==> self.orders.contains_key(id)
    }

    /// Orders are never taken out of the registry: an intent or a report
    /// leaves a later stage of the order manager.
    pub proof fn lemma_steps_extend(self, intent: Intent, report: ExecutionReport)
        ensures
            self.after_report(report).extends(self),
            self.after_intent(intent).extends(self),
    {
    }

    /// Delivering a report a second time changes nothing: the order it
    /// names already holds the report's quantity and state. This holds of
    /// every report but one that names an order that was never placed, which
    /// is counted each time it comes.
    pub proof fn lemma_report_idempotent(self, report: ExecutionReport)
        requires
            self.orders.contains_key(report.client_order_id.0) || self.orphan_reports == u64::MAX,
        ensures
            self.after_report(report).after_report(report) == self.after_report(report),
    {
        let once = self.after_report(report);
        let twice = once.after_report(report);
        assert(twice.orders =~= once.orders);
    }

}

/// The order manager.
pub struct Oms {
    next_id: u64,
    orders: HashMap<u64, OrderEntry>,
    open_orders_count: usize,
    orphan_reports: u64,
}

impl View for Oms {
    type V = OmsView;

    closed spec fn view(&self) -> OmsView {
        OmsView {
            next_id: self.next_id,
            orders: self.orders@,
            orphan_reports: self.orphan_reports,
        }
    }
}

impl Oms {
    /// The registry is well formed and the count of open orders is the
    /// number of orders that have not come to their end.
    pub open spec fn wf(&self) -> bool {
        &&& self@.wf()
        &&& self.spec_open_orders() == self@.open_orders()
    }

    /// The count of open orders that the order manager keeps.
    pub closed spec fn spec_open_orders(&self) -> usize {
        self.open_orders_count
    }

    pub fn new() -> (r: Oms)
        ensures
            r.wf(),
            r@ == OmsView::empty(),
    {
        let r = Oms { next_id: 1, orders: HashMap::new(), open_orders_count: 0, orphan_reports: 0 };
        assert(open_ids(r.orders@) =~= Set::<u64>::empty());
        r
    }

    /// Whether there is an id left for another order.
    pub fn has_spare_id(&self) -> (r: bool)
        ensures
            r == (self@.next_id < u64::MAX),
    {
        self.next_id < u64::MAX
    }

    /// Turns an intent into the request to send. A limit order gets the
    /// next id and is registered as pending; if no id is left it is not
    /// taken, and gives no request. A cancel or a replace of a known order
    /// marks it pending, unless it has come to its end, and is passed on
    /// either way; of an unknown order it gives no request.
    pub fn apply_intent(&mut self, intent: Intent, ts_ns: u64) -> (r: Option<OrderRequest>)
        requires
            old(self).wf(),
        ensures
            final(self).wf(),
            final(self)@ == old(self)@.after_intent(intent),
            r == old(self)@.request_for(intent, ts_ns),
    {
        match intent {
            Intent::PlaceLimit { symbol, side, price, qty, tif, tag: _ } => {
                if !self.has_spare_id() {
                    return None;
                }
                let client_order_id = ClientOrderId(self.next_id);
                let entry = OrderEntry { state: OrderState::PendingNew, filled_qty: Qty::zero() };
                proof {
                    lemma_count_open_insert(self.orders@, self.next_id, entry);
                }
                self.orders.insert(self.next_id, entry);
                self.next_id = self.next_id + 1;
                proof {
                    vstd::std_specs::hash::axiom_spec_hash_map_len(&self.orders);
                    lemma_count_open_insert(self.orders@, client_order_id.0, entry);
                }
                self.open_orders_count = self.open_orders_count + 1;
                Some(
                    OrderRequest::Place(
                        crate::orders::OrderRequest {
                            client_order_id,
                            symbol,
                            side,
                            order_type: OrderType::Limit,
                            price: Some(price),
                            qty,
                            tif,
                        },
                    ),
                )
            },
            Intent::Cancel { client_order_id } => {
                if self.mark_pending(client_order_id, OrderState::PendingCancel) {
                    Some(OrderRequest::Cancel { client_order_id, ts_ns })
                } else {
                    None
                }
            },
            Intent::Replace { client_order_id, new_price, new_qty } => {
                if self.mark_pending(client_order_id, OrderState::PendingNew) {
                    Some(OrderRequest::Replace { client_order_id, new_price, new_qty, ts_ns })
                } else {
                    None
                }
            },
        }
    }

    /// Moves a known order that has not come to its end to `pending`, and
    /// says whether the order is known.
    fn mark_pending(&mut self, client_order_id: ClientOrderId, pending: OrderState) -> (known: bool)
        requires
            old(self).wf(),
            !pending.spec_is_terminal(),
        ensures
            final(self).wf(),
            known == old(self)@.orders.contains_key(client_order_id.0),
            final(self)@.next_id == old(self)@.next_id,
            final(self)@.orphan_reports == old(self)@.orphan_reports,
            known ==> final(self)@.orders == old(self)@.orders.insert(
                client_order_id.0,
                OmsView::moved_to(old(self)@.orders[client_order_id.0], pending),
            ),
            !known ==> final(self)@.orders == old(self)@.orders,
    {
        let id = client_order_id.0;
        let entry = match self.orders.get(&id) {
            Some(entry) => *entry,
            None => {
                return false;
            },
        };
        proof {
            lemma_count_open_insert(self.orders@, id, OmsView::moved_to(entry, pending));
        }
        if !entry.state.is_terminal() {
            self.orders.insert(id, OrderEntry { state: pending, filled_qty: entry.filled_qty });
        } else {
            assert(self.orders@ =~= self.orders@.insert(id, entry));
        }
        true
    }

    /// Folds an execution report into the order it names. A report for an
    /// unknown order is counted and dropped. One whose cumulative filled
    /// quantity is below what is known is stale and dropped; one that brings
    /// neither a higher quantity nor another state changes nothing. Any other
    /// sets the order's state and quantity.
    pub fn on_execution_report(&mut self, report: &ExecutionReport)
        requires
            old(self).wf(),
        ensures
            final(self).wf(),
            final(self)@ == old(self)@.after_report(*report),
    {
        let id = report.client_order_id.0;
        let entry = match self.orders.get(&id) {
            Some(entry) => *entry,
            None => {
                self.orphan_reports = self.orphan_reports.saturating_add(1);
                return ;
            },
        };
        let new_state = map_status(report.status);
        let report_qty = report.filled_qty.lots();
        let current_qty = entry.filled_qty.lots();
        if report_qty < current_qty {
            // A lower cumulative quantity is a stale report: keep what is known.
            return ;
        }
        if report_qty == current_qty && entry.state == new_state {
            return ;
        }
        let was_open = !entry.state.is_terminal();
        let is_open = !new_state.is_terminal();
        let updated = OrderEntry { state: new_state, filled_qty: report.filled_qty };
        proof {
            lemma_count_open_insert(self.orders@, id, updated);
        }
        self.orders.insert(id, updated);
        proof {
            vstd::std_specs::hash::axiom_spec_hash_map_len(&self.orders);
            lemma_count_open_insert(self.orders@, id, updated);
        }
        if was_open && !is_open {
            self.open_orders_count = self.open_orders_count - 1;
        } else if !was_open && is_open {
            self.open_orders_count = self.open_orders_count + 1;
        }
    }

    /// How many reports named an order that was never placed.
    pub fn orphan_report_count(&self) -> (r: u64)
        ensures
            r == self@.orphan_reports,
    {
        self.orphan_reports
    }

    /// How many orders have not come to their end.
    pub fn open_orders(&self) -> (r: usize)
        requires
            self.wf(),
        ensures
            r == self@.open_orders(),
    {
        self.open_orders_count
    }

    /// The state of an order, if it was ever placed.
    pub fn order_state(&self, client_order_id: ClientOrderId) -> (r: Option<OrderState>)
        ensures
            match r {
                Some(state) => self@.orders.contains_key(client_order_id.0)
                    && self@.orders[client_order_id.0].state == state,
                None => !self@.orders.contains_key(client_order_id.0),
            },
    {
        match self.orders.get(&client_order_id.0) {
            Some(entry) => Some(entry.state),
            None => None,
        }
    }

    /// The cumulative filled quantity of an order, if it was ever placed.
    pub fn filled_qty(&self, client_order_id: ClientOrderId) -> (r: Option<Qty>)
        ensures
            match r {
                Some(qty) => self@.orders.contains_key(client_order_id.0)
                    && self@.orders[client_order_id.0].filled_qty == qty,
                None => !self@.orders.contains_key(client_order_id.0),
            },
    {
        match self.orders.get(&client_order_id.0) {
            Some(entry) => Some(entry.filled_qty),
            None => None,
        }
    }
}

impl Default for Oms {
    fn default() -> (r: Oms)
        ensures
            r.wf(),
            r@ == OmsView::empty(),
    {
        Oms::new()
    }
}

} // verus!
