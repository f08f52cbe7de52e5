//! What strategies, the order manager and venues say to each other:
//! intents, order requests and execution reports.

use crate::types::{Price, Qty, Side, SymbolId};
use vstd::prelude::*;

verus! {

/// The number that the order manager gives to a client order.
#[derive(Debug, Clone, Copy, PartialEq, Eq, Structural, Hash)]
pub struct ClientOrderId(pub u64);

/// A free-form label that a strategy may put on an order.
#[derive(Debug, PartialEq, Eq, Hash)]
pub struct OrderTag(pub String);

impl Clone for OrderTag {
    fn clone(&self) -> (r: OrderTag)
        ensures
            r == *self,
    {
        OrderTag(self.0.clone())
    }
}

#[derive(Debug, Clone, Copy, PartialEq, Eq, Structural)]
pub enum TimeInForce {
    Gtc,
    Ioc,
    Fok,
}

#[derive(Debug, Clone, Copy, PartialEq, Eq, Structural)]
pub enum OrderType {
    Limit,
    Market,
}

#[derive(Debug, Clone, Copy, PartialEq, Eq, Structural)]
pub enum OrderStatus {
    New,
    Accepted,
    Working,
    PartiallyFilled,
    Filled,
    Canceled,
    Rejected,
    Expired,
}

impl OrderStatus {
    /// Whether a report of this status carries a fill.
    pub open spec fn is_fill(self) -> bool {
        self == OrderStatus::Filled || self == OrderStatus::PartiallyFilled
    }

    /// Whether this status ends an order without filling it.
    pub open spec fn ends_unfilled(self) -> bool {
        self == OrderStatus::Canceled || self == OrderStatus::Rejected || self
            == OrderStatus::Expired
    }
}

/// A new order on its way to a venue.
#[derive(Debug, Clone, Copy, PartialEq, Eq)]
pub struct OrderRequest {
    pub client_order_id: ClientOrderId,
    pub symbol: SymbolId,
    pub side: Side,
    pub order_type: OrderType,
    pub price: Option<Price>,
    pub qty: Qty,
    pub tif: TimeInForce,
}

/// What a venue reports of one order. `filled_qty` is the total filled so
/// far, not the size of the last fill.
#[derive(Debug, Clone, Copy, PartialEq, Eq, Structural)]
pub struct ExecutionReport {
    pub client_order_id: ClientOrderId,
    pub status: OrderStatus,
    pub filled_qty: Qty,
    pub last_fill_price: Price,
    pub fee_ticks: i64,
    pub ts_ns: u64,
    pub symbol: SymbolId,
    pub side: Side,
}

/// What a strategy asks for.
#[derive(Debug, PartialEq, Eq)]
pub enum Intent {
    PlaceLimit {
        symbol: SymbolId,
        side: Side,
        price: Price,
        qty: Qty,
        tif: TimeInForce,
        tag: Option<OrderTag>,
    },
    Cancel { client_order_id: ClientOrderId },
    Replace { client_order_id: ClientOrderId, new_price: Price, new_qty: Qty },
}

impl Clone for Intent {
    fn clone(&self) -> (r: Intent)
        ensures
            r == *self,
    {
        match self {
            Intent::PlaceLimit { symbol, side, price, qty, tif, tag } => {
                let tag = match tag {
                    Some(t) => Some(t.clone()),
                    None => None,
                };
                Intent::PlaceLimit {
                    symbol: *symbol,
                    side: *side,
                    price: *price,
                    qty: *qty,
                    tif: *tif,
                    tag,
                }
            },
            Intent::Cancel { client_order_id } => Intent::Cancel {
                client_order_id: *client_order_id,
            },
            Intent::Replace { client_order_id, new_price, new_qty } => Intent::Replace {
                client_order_id: *client_order_id,
                new_price: *new_price,
                new_qty: *new_qty,
            },
        }
    }
}

} // verus!
