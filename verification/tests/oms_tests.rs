use lob_kernel::oms::{map_status, Oms, OrderRequest, OrderState};
use lob_kernel::orders::{
    ClientOrderId, ExecutionReport, Intent, OrderStatus, OrderType, TimeInForce,
};
use lob_kernel::types::{Price, Qty, Side, SymbolId};

fn oms_report(
    client_order_id: ClientOrderId,
    symbol: SymbolId,
    side: Side,
    status: OrderStatus,
    filled_qty: i64,
    ts_ns: u64,
) -> ExecutionReport {
    ExecutionReport {
        client_order_id,
        status,
        filled_qty: Qty::new(filled_qty).unwrap(),
        last_fill_price: Price::new(100).unwrap(),
        fee_ticks: 0,
        ts_ns,
        symbol,
        side,
    }
}

fn place(symbol: SymbolId, side: Side, price: i64, qty: i64) -> Intent {
    Intent::PlaceLimit {
        symbol,
        side,
        price: Price::new(price).unwrap(),
        qty: Qty::new(qty).unwrap(),
        tif: TimeInForce::Gtc,
        tag: None,
    }
}

#[test]
fn new_ack_fill_flow() {
    let symbol = SymbolId::from_u32(0);
    let mut oms = Oms::new();
    let intent = place(symbol, Side::Bid, 100, 2);

    let request = oms.apply_intent(intent, 1).unwrap();
    let OrderRequest::Place(order) = request else {
        panic!("expected place request");
    };
    let id = order.client_order_id;
    assert_eq!(oms.order_state(id), Some(OrderState::PendingNew));
    assert_eq!(oms.open_orders(), 1);

    oms.on_execution_report(&oms_report(id, symbol, Side::Bid, OrderStatus::Accepted, 0, 2));
    assert_eq!(oms.order_state(id), Some(OrderState::Live));
    assert_eq!(oms.open_orders(), 1);

    oms.on_execution_report(&oms_report(id, symbol, Side::Bid, OrderStatus::Filled, 2, 3));
    assert_eq!(oms.order_state(id), Some(OrderState::Filled));
    assert_eq!(oms.filled_qty(id).unwrap().lots(), 2);
    assert_eq!(oms.open_orders(), 0);
}

#[test]
fn cancel_flow() {
    let symbol = SymbolId::from_u32(1);
    let mut oms = Oms::new();
    let intent = place(symbol, Side::Ask, 200, 1);
    let request = oms.apply_intent(intent, 1).unwrap();
    let OrderRequest::Place(order) = request else {
        panic!("expected place request");
    };
    let id = order.client_order_id;
    assert_eq!(oms.open_orders(), 1);
    oms.on_execution_report(&oms_report(id, symbol, Side::Ask, OrderStatus::Accepted, 0, 2));
    assert_eq!(oms.open_orders(), 1);

    let cancel_intent = Intent::Cancel {
        client_order_id: id,
    };
    let cancel_req = oms.apply_intent(cancel_intent, 3).unwrap();
    assert!(matches!(cancel_req, OrderRequest::Cancel { .. }));
    assert_eq!(oms.order_state(id), Some(OrderState::PendingCancel));
    assert_eq!(oms.open_orders(), 1);

    oms.on_execution_report(&oms_report(id, symbol, Side::Ask, OrderStatus::Canceled, 0, 4));
    assert_eq!(oms.order_state(id), Some(OrderState::Canceled));
    assert_eq!(oms.open_orders(), 0);
}

#[test]
fn duplicate_fill_report_does_not_double_count() {
    let symbol = SymbolId::from_u32(2);
    let mut oms = Oms::new();
    let intent = place(symbol, Side::Bid, 50, 3);
    let request = oms.apply_intent(intent, 1).unwrap();
    let OrderRequest::Place(order) = request else {
        panic!("expected place request");
    };
    let id = order.client_order_id;
    assert_eq!(oms.open_orders(), 1);
    oms.on_execution_report(&oms_report(id, symbol, Side::Bid, OrderStatus::Accepted, 0, 2));

    let fill = oms_report(id, symbol, Side::Bid, OrderStatus::Filled, 3, 3);
    oms.on_execution_report(&fill);
    oms.on_execution_report(&fill);

    assert_eq!(oms.order_state(id), Some(OrderState::Filled));
    assert_eq!(oms.filled_qty(id).unwrap().lots(), 3);
    assert_eq!(oms.open_orders(), 0);
}

#[test]
fn place_request_carries_the_intent() {
    let symbol = SymbolId::from_u32(4);
    let mut oms = Oms::new();
    let first = oms.apply_intent(place(symbol, Side::Ask, 77, 5), 9).unwrap();
    assert_eq!(
        first,
        OrderRequest::Place(lob_kernel::orders::OrderRequest {
            client_order_id: ClientOrderId(1),
            symbol,
            side: Side::Ask,
            order_type: OrderType::Limit,
            price: Some(Price::new(77).unwrap()),
            qty: Qty::new(5).unwrap(),
            tif: TimeInForce::Gtc,
        })
    );
    let second = oms.apply_intent(place(symbol, Side::Bid, 70, 1), 10).unwrap();
    let OrderRequest::Place(order) = second else {
        panic!("expected place request");
    };
    assert_eq!(order.client_order_id, ClientOrderId(2));
    assert_eq!(oms.open_orders(), 2);
    assert!(oms.has_spare_id());
}

#[test]
fn unknown_orders_give_no_request_and_orphans_are_counted() {
    let symbol = SymbolId::from_u32(0);
    let mut oms = Oms::new();
    let ghost = ClientOrderId(42);
    assert_eq!(oms.apply_intent(Intent::Cancel { client_order_id: ghost }, 1), None);
    assert_eq!(
        oms.apply_intent(
            Intent::Replace {
                client_order_id: ghost,
                new_price: Price::new(1).unwrap(),
                new_qty: Qty::new(1).unwrap(),
            },
            1,
        ),
        None
    );
    assert_eq!(oms.order_state(ghost), None);
    assert_eq!(oms.orphan_report_count(), 0);
    let report = oms_report(ghost, symbol, Side::Bid, OrderStatus::Filled, 1, 2);
    oms.on_execution_report(&report);
    oms.on_execution_report(&report);
    assert_eq!(oms.orphan_report_count(), 2);
    assert_eq!(oms.open_orders(), 0);
}

#[test]
fn replace_and_cancel_of_finished_orders_still_emit() {
    let symbol = SymbolId::from_u32(0);
    let mut oms = Oms::new();
    let OrderRequest::Place(order) = oms.apply_intent(place(symbol, Side::Bid, 10, 1), 1).unwrap()
    else {
        panic!("expected place request");
    };
    let id = order.client_order_id;
    oms.on_execution_report(&oms_report(id, symbol, Side::Bid, OrderStatus::Accepted, 0, 2));
    let replace = oms
        .apply_intent(
            Intent::Replace {
                client_order_id: id,
                new_price: Price::new(11).unwrap(),
                new_qty: Qty::new(2).unwrap(),
            },
            3,
        )
        .unwrap();
    assert_eq!(
        replace,
        OrderRequest::Replace {
            client_order_id: id,
            new_price: Price::new(11).unwrap(),
            new_qty: Qty::new(2).unwrap(),
            ts_ns: 3,
        }
    );
    assert_eq!(oms.order_state(id), Some(OrderState::PendingNew));

    oms.on_execution_report(&oms_report(id, symbol, Side::Bid, OrderStatus::Rejected, 0, 4));
    assert_eq!(oms.order_state(id), Some(OrderState::Rejected));
    assert_eq!(oms.open_orders(), 0);

    let cancel = oms.apply_intent(Intent::Cancel { client_order_id: id }, 5).unwrap();
    assert_eq!(cancel, OrderRequest::Cancel { client_order_id: id, ts_ns: 5 });
    assert_eq!(oms.order_state(id), Some(OrderState::Rejected));
    assert_eq!(oms.open_orders(), 0);
}

#[test]
fn stale_reports_are_ignored() {
    let symbol = SymbolId::from_u32(0);
    let mut oms = Oms::new();
    let OrderRequest::Place(order) = oms.apply_intent(place(symbol, Side::Bid, 10, 5), 1).unwrap()
    else {
        panic!("expected place request");
    };
    let id = order.client_order_id;
    oms.on_execution_report(&oms_report(id, symbol, Side::Bid, OrderStatus::PartiallyFilled, 3, 2));
    assert_eq!(oms.filled_qty(id).unwrap().lots(), 3);
    oms.on_execution_report(&oms_report(id, symbol, Side::Bid, OrderStatus::Filled, 2, 3));
    assert_eq!(oms.order_state(id), Some(OrderState::Live));
    assert_eq!(oms.filled_qty(id).unwrap().lots(), 3);
    assert_eq!(oms.open_orders(), 1);
}

#[test]
fn statuses_map_to_states() {
    assert_eq!(map_status(OrderStatus::New), OrderState::PendingNew);
    assert_eq!(map_status(OrderStatus::Accepted), OrderState::Live);
    assert_eq!(map_status(OrderStatus::Working), OrderState::Live);
    assert_eq!(map_status(OrderStatus::PartiallyFilled), OrderState::Live);
    assert_eq!(map_status(OrderStatus::Canceled), OrderState::Canceled);
    assert_eq!(map_status(OrderStatus::Expired), OrderState::Canceled);
    assert_eq!(map_status(OrderStatus::Filled), OrderState::Filled);
    assert_eq!(map_status(OrderStatus::Rejected), OrderState::Rejected);
    assert!(OrderState::Filled.is_terminal());
    assert!(OrderState::Canceled.is_terminal());
    assert!(OrderState::Rejected.is_terminal());
    assert!(!OrderState::PendingNew.is_terminal());
    assert!(!OrderState::Live.is_terminal());
    assert!(!OrderState::PendingCancel.is_terminal());
}

fn oms_draw(state: &mut u64) -> u64 {
    *state = state
        .wrapping_mul(6364136223846793005)
        .wrapping_add(1442695040888963407);
    *state >> 33
}

#[test]
fn open_orders_is_the_number_of_unfinished_orders() {
    let symbol = SymbolId::from_u32(0);
    let statuses = [
        OrderStatus::New,
        OrderStatus::Accepted,
        OrderStatus::Working,
        OrderStatus::PartiallyFilled,
        OrderStatus::Filled,
        OrderStatus::Canceled,
        OrderStatus::Rejected,
        OrderStatus::Expired,
    ];
    let mut oms = Oms::new();
    let mut placed = 0u64;
    let mut state = 11u64;
    for step in 0..2000u64 {
        match oms_draw(&mut state) % 4 {
            0 => {
                assert!(oms.apply_intent(place(symbol, Side::Bid, 10, 5), step).is_some());
                placed += 1;
            }
            1 => {
                let id = ClientOrderId(1 + oms_draw(&mut state) % (placed + 2));
                oms.apply_intent(Intent::Cancel { client_order_id: id }, step);
            }
            _ => {
                let id = ClientOrderId(1 + oms_draw(&mut state) % (placed + 2));
                let status = statuses[(oms_draw(&mut state) % 8) as usize];
                let filled = (oms_draw(&mut state) % 6) as i64;
                let report = oms_report(id, symbol, Side::Bid, status, filled, step);
                oms.on_execution_report(&report);
                // A second delivery changes nothing for a known order.
                let known = oms.order_state(id);
                let qty = oms.filled_qty(id);
                let open = oms.open_orders();
                if known.is_some() {
                    oms.on_execution_report(&report);
                    assert_eq!(oms.order_state(id), known);
                    assert_eq!(oms.filled_qty(id), qty);
                    assert_eq!(oms.open_orders(), open);
                }
            }
        }
        let unfinished = (1..=placed)
            .filter(|id| !oms.order_state(ClientOrderId(*id)).unwrap().is_terminal())
            .count();
        assert_eq!(oms.open_orders(), unfinished);
    }
    assert!(placed > 100);
}
