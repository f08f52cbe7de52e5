use lob_kernel::orders::{ClientOrderId, ExecutionReport, OrderStatus};
use lob_kernel::portfolio::Portfolio;
use lob_kernel::types::{Price, Qty, Side, SymbolId};

fn fill_report(
    client_order_id: ClientOrderId,
    symbol: SymbolId,
    qty: i64,
    price: i64,
    fee_ticks: i64,
    status: OrderStatus,
    side: Side,
) -> ExecutionReport {
    ExecutionReport {
        client_order_id,
        status,
        filled_qty: Qty::new(qty).unwrap(),
        last_fill_price: Price::new(price).unwrap(),
        fee_ticks,
        ts_ns: 1,
        symbol,
        side,
    }
}

fn take_in(portfolio: &mut Portfolio, report: &ExecutionReport) {
    assert!(portfolio.absorbs(report));
    portfolio.on_execution_report(report);
}

#[test]
fn buy_then_sell_realizes_profit() {
    let symbol = SymbolId::from_u32(0);
    let mut portfolio = Portfolio::new();

    take_in(
        &mut portfolio,
        &fill_report(ClientOrderId(1), symbol, 2, 100, 0, OrderStatus::Filled, Side::Bid),
    );
    take_in(
        &mut portfolio,
        &fill_report(ClientOrderId(2), symbol, 2, 110, 0, OrderStatus::Filled, Side::Ask),
    );

    assert_eq!(portfolio.position_lots(symbol), 0);
    assert_eq!(portfolio.realized_pnl_ticks(symbol), 20);
    assert_eq!(portfolio.avg_entry_price_ticks(symbol), None);
    assert_eq!(portfolio.fees_paid_ticks(symbol), 0);
}

#[test]
fn fees_reduce_pnl() {
    let symbol = SymbolId::from_u32(1);
    let mut portfolio = Portfolio::new();

    take_in(
        &mut portfolio,
        &fill_report(ClientOrderId(1), symbol, 1, 100, 2, OrderStatus::Filled, Side::Bid),
    );
    take_in(
        &mut portfolio,
        &fill_report(ClientOrderId(2), symbol, 1, 105, 1, OrderStatus::Filled, Side::Ask),
    );

    assert_eq!(portfolio.realized_pnl_ticks(symbol), 5);
    assert_eq!(portfolio.fees_paid_ticks(symbol), 3);
}

#[test]
fn mark_to_mid_uses_mid_price() {
    let symbol = SymbolId::from_u32(2);
    let mut portfolio = Portfolio::new();

    take_in(
        &mut portfolio,
        &fill_report(ClientOrderId(1), symbol, 2, 100, 0, OrderStatus::Filled, Side::Bid),
    );

    let unrealized = portfolio
        .mark_to_mid(
            symbol,
            Some((Price::new(104).unwrap(), Qty::new(1).unwrap())),
            Some((Price::new(106).unwrap(), Qty::new(1).unwrap())),
        )
        .unwrap();
    assert_eq!(unrealized, 10);
}

#[test]
fn cumulative_partial_fills_use_delta_per_report() {
    let symbol = SymbolId::from_u32(3);
    let mut portfolio = Portfolio::new();
    let id = ClientOrderId(7);

    take_in(
        &mut portfolio,
        &fill_report(id, symbol, 1, 100, 1, OrderStatus::PartiallyFilled, Side::Bid),
    );
    take_in(
        &mut portfolio,
        &fill_report(id, symbol, 3, 101, 1, OrderStatus::PartiallyFilled, Side::Bid),
    );
    take_in(
        &mut portfolio,
        &fill_report(id, symbol, 5, 102, 1, OrderStatus::Filled, Side::Bid),
    );

    assert_eq!(portfolio.position_lots(symbol), 5);
    assert_eq!(portfolio.fees_paid_ticks(symbol), 3);
}

#[test]
fn average_entry_is_weighted_and_rounded_down() {
    let symbol = SymbolId::from_u32(0);
    let mut portfolio = Portfolio::new();
    take_in(
        &mut portfolio,
        &fill_report(ClientOrderId(1), symbol, 1, 100, 0, OrderStatus::Filled, Side::Bid),
    );
    assert_eq!(portfolio.avg_entry_price_ticks(symbol), Some(100));
    take_in(
        &mut portfolio,
        &fill_report(ClientOrderId(2), symbol, 2, 101, 0, OrderStatus::Filled, Side::Bid),
    );
    // (100 * 1 + 101 * 2) / 3 = 302 / 3, rounded down.
    assert_eq!(portfolio.avg_entry_price_ticks(symbol), Some(100));
    assert_eq!(portfolio.position_lots(symbol), 3);
    let position = portfolio.position(symbol);
    assert_eq!(position.position_lots, 3);
    assert_eq!(position.avg_entry_price_ticks, Some(100));
}

#[test]
fn short_position_realizes_on_buy_back_and_flip_reprices() {
    let symbol = SymbolId::from_u32(0);
    let mut portfolio = Portfolio::new();
    take_in(
        &mut portfolio,
        &fill_report(ClientOrderId(1), symbol, 3, 100, 0, OrderStatus::Filled, Side::Ask),
    );
    assert_eq!(portfolio.position_lots(symbol), -3);
    assert_eq!(portfolio.avg_entry_price_ticks(symbol), Some(100));

    // Buy 5 at 90: closes the 3 short lots for 10 ticks each, leaves 2 long at 90.
    take_in(
        &mut portfolio,
        &fill_report(ClientOrderId(2), symbol, 5, 90, 0, OrderStatus::Filled, Side::Bid),
    );
    assert_eq!(portfolio.position_lots(symbol), 2);
    assert_eq!(portfolio.realized_pnl_ticks(symbol), 30);
    assert_eq!(portfolio.avg_entry_price_ticks(symbol), Some(90));

    // A short marked at a mid price above its entry shows a loss.
    let mut short = Portfolio::new();
    take_in(
        &mut short,
        &fill_report(ClientOrderId(1), symbol, 2, 100, 0, OrderStatus::Filled, Side::Ask),
    );
    let marked = short.mark_to_mid(
        symbol,
        Some((Price::new(103).unwrap(), Qty::new(1).unwrap())),
        Some((Price::new(106).unwrap(), Qty::new(1).unwrap())),
    );
    assert_eq!(marked, Some(-8));
}

#[test]
fn reports_without_new_lots_change_nothing() {
    let symbol = SymbolId::from_u32(0);
    let mut portfolio = Portfolio::new();
    let id = ClientOrderId(1);
    take_in(
        &mut portfolio,
        &fill_report(id, symbol, 2, 100, 1, OrderStatus::PartiallyFilled, Side::Bid),
    );
    // The same cumulative quantity again, an acceptance and a cancel.
    take_in(
        &mut portfolio,
        &fill_report(id, symbol, 2, 100, 1, OrderStatus::PartiallyFilled, Side::Bid),
    );
    take_in(
        &mut portfolio,
        &fill_report(id, symbol, 0, 100, 1, OrderStatus::Accepted, Side::Bid),
    );
    take_in(
        &mut portfolio,
        &fill_report(id, symbol, 0, 100, 1, OrderStatus::Canceled, Side::Bid),
    );
    assert_eq!(portfolio.position_lots(symbol), 2);
    assert_eq!(portfolio.fees_paid_ticks(symbol), 1);

    // After the cancel the order is forgotten: its next report counts from zero.
    take_in(
        &mut portfolio,
        &fill_report(id, symbol, 2, 100, 0, OrderStatus::PartiallyFilled, Side::Bid),
    );
    assert_eq!(portfolio.position_lots(symbol), 4);
}

#[test]
fn mark_to_mid_needs_both_sides_and_a_position() {
    let symbol = SymbolId::from_u32(0);
    let mut portfolio = Portfolio::new();
    let bid = Some((Price::new(104).unwrap(), Qty::new(1).unwrap()));
    let ask = Some((Price::new(107).unwrap(), Qty::new(1).unwrap()));
    assert_eq!(portfolio.mark_to_mid(symbol, bid, ask), None);
    take_in(
        &mut portfolio,
        &fill_report(ClientOrderId(1), symbol, 2, 100, 0, OrderStatus::Filled, Side::Bid),
    );
    assert_eq!(portfolio.mark_to_mid(symbol, None, ask), None);
    assert_eq!(portfolio.mark_to_mid(symbol, bid, None), None);
    // The mid of 104 and 107 is 105: half the sum, rounded down.
    assert_eq!(portfolio.mark_to_mid(symbol, bid, ask), Some(10));
}

#[test]
fn a_fill_beyond_the_integers_is_not_absorbed() {
    let symbol = SymbolId::from_u32(0);
    let mut portfolio = Portfolio::new();
    take_in(
        &mut portfolio,
        &fill_report(ClientOrderId(1), symbol, i64::MAX, 1, 0, OrderStatus::Filled, Side::Bid),
    );
    assert_eq!(portfolio.position_lots(symbol), i64::MAX);
    let more = fill_report(ClientOrderId(2), symbol, 1, 1, 0, OrderStatus::Filled, Side::Bid);
    assert!(!portfolio.absorbs(&more));
    // Handed over all the same, it is passed over.
    portfolio.on_execution_report(&more);
    assert_eq!(portfolio.position_lots(symbol), i64::MAX);
    assert_eq!(portfolio.avg_entry_price_ticks(symbol), Some(1));
    assert_eq!(portfolio.fees_paid_ticks(symbol), 0);
}

fn fill_draw(state: &mut u64) -> u64 {
    *state = state
        .wrapping_mul(6364136223846793005)
        .wrapping_add(1442695040888963407);
    *state >> 33
}

#[test]
fn average_entry_is_absent_exactly_when_flat() {
    let symbol = SymbolId::from_u32(0);
    let mut portfolio = Portfolio::new();
    let mut state = 3u64;
    let mut flat_seen = 0;
    for id in 1..=3000u64 {
        // Lean against the position so that it comes back to flat often.
        let held = portfolio.position_lots(symbol);
        let toward_flat = fill_draw(&mut state) % 3 != 0;
        let side = if (held > 0) == toward_flat { Side::Ask } else { Side::Bid };
        let qty = 1 + (fill_draw(&mut state) % 3) as i64;
        let price = 90 + (fill_draw(&mut state) % 20) as i64;
        let status = if fill_draw(&mut state) % 3 == 0 {
            OrderStatus::PartiallyFilled
        } else {
            OrderStatus::Filled
        };
        take_in(
            &mut portfolio,
            &fill_report(ClientOrderId(id), symbol, qty, price, 1, status, side),
        );
        let lots = portfolio.position_lots(symbol);
        let entry = portfolio.avg_entry_price_ticks(symbol);
        assert_eq!(lots == 0, entry.is_none());
        if let Some(entry) = entry {
            assert!((90..=109).contains(&entry));
        }
        if lots == 0 {
            flat_seen += 1;
        }
    }
    assert!(flat_seen > 10);
    assert_eq!(portfolio.fees_paid_ticks(symbol), 3000);
}
