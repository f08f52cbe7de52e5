use lob_kernel::orders::{ClientOrderId, ExecutionReport, Intent, OrderStatus, TimeInForce};
use lob_kernel::strategies::{MmStrategy, NoopStrategy, TwapStrategy};
use lob_kernel::strategy::{ContextSnapshot, Strategy};
use lob_kernel::types::{MarketEvent, Price, Qty, Side, SymbolId};

fn ctx_with_book(
    ts_ns: u64,
    symbol: SymbolId,
    best_bid: i64,
    best_ask: i64,
    position_lots: i64,
) -> ContextSnapshot {
    ContextSnapshot::new(
        ts_ns,
        symbol,
        Some((Price::new(best_bid).unwrap(), Qty::new(1).unwrap())),
        Some((Price::new(best_ask).unwrap(), Qty::new(1).unwrap())),
        position_lots,
        0,
    )
}

fn on_event<S: Strategy>(strategy: &mut S, ctx: &ContextSnapshot, event: &MarketEvent) -> Vec<Intent> {
    let mut out = Vec::new();
    strategy.on_market_event(ctx, event, &mut out);
    out
}

fn on_tick<S: Strategy>(strategy: &mut S, ctx: &ContextSnapshot) -> Vec<Intent> {
    let mut out = Vec::new();
    strategy.on_timer(ctx, &mut out);
    out
}

fn on_report<S: Strategy>(strategy: &mut S, ctx: &ContextSnapshot, report: &ExecutionReport) -> Vec<Intent> {
    let mut out = Vec::new();
    strategy.on_execution_report(ctx, report, &mut out);
    out
}

fn empty_delta(symbol: SymbolId) -> MarketEvent {
    MarketEvent::L2Delta {
        ts_ns: 1,
        symbol,
        updates: vec![],
    }
}

fn report_of(id: u64, status: OrderStatus, filled: i64, price: i64, side: Side) -> ExecutionReport {
    ExecutionReport {
        client_order_id: ClientOrderId(id),
        status,
        filled_qty: Qty::new(filled).unwrap(),
        last_fill_price: Price::new(price).unwrap(),
        fee_ticks: 0,
        ts_ns: 2,
        symbol: SymbolId::from_u32(0),
        side,
    }
}

#[test]
fn noop_strategy_returns_empty_intents() {
    let mut strategy = NoopStrategy;
    let symbol = SymbolId::from_u32(0);
    let ctx = ContextSnapshot::new(
        1,
        symbol,
        Some((Price::new(100).unwrap(), Qty::new(1).unwrap())),
        Some((Price::new(101).unwrap(), Qty::new(1).unwrap())),
        0,
        0,
    );
    let event = empty_delta(symbol);

    assert!(on_event(&mut strategy, &ctx, &event).is_empty());
    assert!(on_tick(&mut strategy, &ctx).is_empty());
}

#[test]
fn twap_emits_until_target_reached() {
    let symbol = SymbolId::from_u32(0);
    let mut strategy = TwapStrategy::new(3, 0, 1);

    let mut ctx = ctx_with_book(1, symbol, 100, 102, 0);
    let event = empty_delta(symbol);
    let intents = on_event(&mut strategy, &ctx, &event);
    assert_eq!(intents.len(), 1);
    assert!(matches!(
        intents[0],
        Intent::PlaceLimit {
            side: Side::Bid,
            price,
            qty,
            tif: TimeInForce::Gtc,
            ..
        } if price == Price::new(102).unwrap() && qty == Qty::new(1).unwrap()
    ));

    let report = ExecutionReport {
        client_order_id: ClientOrderId(1),
        status: OrderStatus::Filled,
        filled_qty: Qty::new(1).unwrap(),
        last_fill_price: Price::new(102).unwrap(),
        fee_ticks: 0,
        ts_ns: 2,
        symbol,
        side: Side::Bid,
    };
    on_report(&mut strategy, &ctx, &report);

    ctx.ts_ns = 3;
    let intents = on_event(&mut strategy, &ctx, &event);
    assert_eq!(intents.len(), 1);

    on_report(
        &mut strategy,
        &ctx,
        &ExecutionReport {
            filled_qty: Qty::new(1).unwrap(),
            ts_ns: 4,
            ..report.clone()
        },
    );

    ctx.ts_ns = 5;
    let intents = on_event(&mut strategy, &ctx, &event);
    assert_eq!(intents.len(), 1);

    on_report(
        &mut strategy,
        &ctx,
        &ExecutionReport {
            filled_qty: Qty::new(1).unwrap(),
            ts_ns: 6,
            ..report
        },
    );

    ctx.ts_ns = 7;
    let intents = on_event(&mut strategy, &ctx, &event);
    assert!(intents.is_empty());
}

#[test]
fn mm_quotes_both_sides_and_skews_with_inventory() {
    let symbol = SymbolId::from_u32(0);
    let mut mm = MmStrategy::new(2, 1, 1);
    let ctx = ctx_with_book(1, symbol, 100, 102, 0);
    let event = empty_delta(symbol);

    let intents = on_event(&mut mm, &ctx, &event);
    assert_eq!(intents.len(), 2);

    let mut bid_price = None;
    let mut ask_price = None;
    for intent in intents {
        if let Intent::PlaceLimit { side, price, .. } = intent {
            match side {
                Side::Bid => bid_price = Some(price.ticks()),
                Side::Ask => ask_price = Some(price.ticks()),
            }
        }
    }

    assert_eq!(bid_price, Some(99));
    assert_eq!(ask_price, Some(103));

    let mut mm = MmStrategy::new(2, 1, 1);
    let skew_ctx = ctx_with_book(1, symbol, 100, 102, 5);
    let intents = on_event(&mut mm, &skew_ctx, &event);

    let mut bid_price = None;
    let mut ask_price = None;
    for intent in intents {
        if let Intent::PlaceLimit { side, price, .. } = intent {
            match side {
                Side::Bid => bid_price = Some(price.ticks()),
                Side::Ask => ask_price = Some(price.ticks()),
            }
        }
    }

    assert_eq!(bid_price, Some(94));
    assert_eq!(ask_price, Some(98));
}

#[test]
fn twap_slices_and_waits_for_the_interval() {
    let symbol = SymbolId::from_u32(0);
    // 5 lots to sell in slices of 2 over 3 seconds: 3 slices, one a second.
    let mut strategy = TwapStrategy::new(-5, 3, -2);
    assert_eq!(strategy.remaining_qty_lots(), -5);
    let ctx = ctx_with_book(10, symbol, 100, 102, 0);
    let intents = strategy.maybe_place(&ctx);
    assert_eq!(
        intents,
        vec![Intent::PlaceLimit {
            symbol,
            side: Side::Ask,
            price: Price::new(100).unwrap(),
            qty: Qty::new(2).unwrap(),
            tif: TimeInForce::Gtc,
            tag: None,
        }]
    );
    // An order is out: nothing more until it is done.
    assert!(strategy.maybe_place(&ctx_with_book(5_000_000_000, symbol, 100, 102, 0)).is_empty());
    strategy.on_report(&report_of(1, OrderStatus::PartiallyFilled, 1, 100, Side::Ask));
    assert_eq!(strategy.remaining_qty_lots(), -4);
    strategy.on_report(&report_of(1, OrderStatus::Filled, 2, 100, Side::Ask));
    assert_eq!(strategy.remaining_qty_lots(), -3);
    // The next slice is due one second after the first.
    assert!(strategy.maybe_place(&ctx_with_book(1_000_000_009, symbol, 100, 102, 0)).is_empty());
    let intents = strategy.maybe_place(&ctx_with_book(1_000_000_010, symbol, 100, 102, 0));
    assert_eq!(intents.len(), 1);
    // A cancel frees the slicer without moving what remains.
    strategy.on_report(&report_of(2, OrderStatus::Canceled, 0, 100, Side::Ask));
    assert_eq!(strategy.remaining_qty_lots(), -3);
    let intents = strategy.maybe_place(&ctx_with_book(3_000_000_000, symbol, 100, 102, 0));
    assert_eq!(intents.len(), 1);
    // A fill beyond what remains ends the work.
    strategy.on_report(&report_of(3, OrderStatus::Filled, 9, 100, Side::Ask));
    assert_eq!(strategy.remaining_qty_lots(), 0);
    assert!(strategy.maybe_place(&ctx_with_book(9_000_000_000, symbol, 100, 102, 0)).is_empty());
}

#[test]
fn twap_needs_a_price_to_take() {
    let symbol = SymbolId::from_u32(0);
    let mut strategy = TwapStrategy::new(2, 0, 5);
    let no_ask = ContextSnapshot::new(
        1,
        symbol,
        Some((Price::new(100).unwrap(), Qty::new(1).unwrap())),
        None,
        0,
        0,
    );
    assert!(on_tick(&mut strategy, &no_ask).is_empty());
    let intents = on_tick(&mut strategy, &ctx_with_book(1, symbol, 100, 102, 0));
    assert_eq!(intents.len(), 1);
    assert!(matches!(
        intents[0],
        Intent::PlaceLimit { qty, .. } if qty == Qty::new(2).unwrap()
    ));
    let mut idle = TwapStrategy::new(0, 10, 1);
    assert!(on_tick(&mut idle, &ctx_with_book(1, symbol, 100, 102, 0)).is_empty());
}

#[test]
fn mm_replaces_moved_quotes_and_cancels_without_mid() {
    let symbol = SymbolId::from_u32(0);
    let mut mm = MmStrategy::new(-2, -3, 0);
    let ctx = ctx_with_book(1, symbol, 100, 102, 0);
    let first = mm.quote(&ctx);
    assert_eq!(
        first,
        vec![
            Intent::PlaceLimit {
                symbol,
                side: Side::Bid,
                price: Price::new(99).unwrap(),
                qty: Qty::new(3).unwrap(),
                tif: TimeInForce::Gtc,
                tag: None,
            },
            Intent::PlaceLimit {
                symbol,
                side: Side::Ask,
                price: Price::new(103).unwrap(),
                qty: Qty::new(3).unwrap(),
                tif: TimeInForce::Gtc,
                tag: None,
            },
        ]
    );
    // Both sides wait for an answer: nothing more is asked.
    assert!(mm.quote(&ctx).is_empty());
    mm.on_report(&report_of(1, OrderStatus::Accepted, 0, 99, Side::Bid));
    mm.on_report(&report_of(2, OrderStatus::Accepted, 0, 103, Side::Ask));
    // Same prices: nothing to do.
    assert!(mm.quote(&ctx).is_empty());
    // The mid moves up by 2: both quotes follow.
    let moved = ctx_with_book(2, symbol, 102, 104, 0);
    assert_eq!(
        mm.quote(&moved),
        vec![
            Intent::Replace {
                client_order_id: ClientOrderId(1),
                new_price: Price::new(101).unwrap(),
                new_qty: Qty::new(3).unwrap(),
            },
            Intent::Replace {
                client_order_id: ClientOrderId(2),
                new_price: Price::new(105).unwrap(),
                new_qty: Qty::new(3).unwrap(),
            },
        ]
    );
    mm.on_report(&report_of(1, OrderStatus::Accepted, 0, 101, Side::Bid));
    mm.on_report(&report_of(2, OrderStatus::Filled, 3, 105, Side::Ask));
    // The ask is gone and is placed anew; the bid rests where it should.
    let again = mm.quote(&moved);
    assert_eq!(again.len(), 1);
    assert!(matches!(again[0], Intent::PlaceLimit { side: Side::Ask, .. }));
    // Without a mid price the resting bid is cancelled.
    let no_mid = ContextSnapshot::new(3, symbol, None, None, 0, 0);
    assert_eq!(
        on_event(&mut mm, &no_mid, &empty_delta(symbol)),
        vec![Intent::Cancel { client_order_id: ClientOrderId(1) }]
    );
    assert!(mm.cancel_all().is_empty());
}

#[test]
fn mm_keeps_quotes_apart_and_above_zero() {
    let symbol = SymbolId::from_u32(0);
    let mut mm = MmStrategy::new(1, 1, 1000);
    let ctx = ctx_with_book(1, symbol, 100, 102, 5);
    let intents = mm.quote(&ctx);
    let prices: Vec<i64> = intents
        .iter()
        .map(|intent| match intent {
            Intent::PlaceLimit { price, .. } => price.ticks(),
            _ => panic!("expected a limit order"),
        })
        .collect();
    assert_eq!(prices, vec![1, 2]);
}

#[test]
fn twap_late_slice_does_not_push_the_next_back() {
    let symbol = SymbolId::from_u32(0);
    // 6 lots to buy in slices of 2 over 3 seconds: one slice a second.
    let mut strategy = TwapStrategy::new(6, 3, 2);
    assert_eq!(strategy.maybe_place(&ctx_with_book(10, symbol, 100, 102, 0)).len(), 1);
    strategy.on_report(&report_of(1, OrderStatus::Filled, 2, 102, Side::Bid));
    assert_eq!(strategy.remaining_qty_lots(), 4);
    // The second slice was due at 1_000_000_010 and goes out late.
    assert_eq!(strategy.maybe_place(&ctx_with_book(5_000_000_000, symbol, 100, 102, 0)).len(), 1);
    strategy.on_report(&report_of(2, OrderStatus::Filled, 2, 102, Side::Bid));
    assert_eq!(strategy.remaining_qty_lots(), 2);
    // The third is due one interval after the second was due, not after it went out.
    assert!(strategy.maybe_place(&ctx_with_book(2_000_000_009, symbol, 100, 102, 0)).is_empty());
    assert_eq!(strategy.maybe_place(&ctx_with_book(2_000_000_010, symbol, 100, 102, 0)).len(), 1);
}
