use std::collections::HashMap;

use lob_kernel::book::OrderBook;
use lob_kernel::engine::Engine;
use lob_kernel::oms::{Oms, OrderRequest as OmsRequest};
use lob_kernel::orders::{ClientOrderId, ExecutionReport, Intent, OrderStatus, TimeInForce};
use lob_kernel::portfolio::Portfolio;
use lob_kernel::risk::{MaxPositionPolicy, RateLimitPolicy, RiskEngine};
use lob_kernel::session::{CountingVenue, Simulation};
use lob_kernel::strategies::{MmStrategy, NoopStrategy, TwapStrategy};
use lob_kernel::strategy::{ContextSnapshot, Strategy};
use lob_kernel::types::{LevelUpdate, MarketEvent, Price, Qty, Side, Symbol, SymbolId, SymbolTable};
use lob_kernel::venue::ExecutionVenue;
use lob_kernel::venue_sim::SimVenue;

struct DummyStrategy {
    placed: bool,
}

impl DummyStrategy {
    fn new() -> Self {
        Self { placed: false }
    }
}

impl Strategy for DummyStrategy {
    type Model = ();

    fn on_market_event(
        &mut self,
        ctx: &ContextSnapshot,
        _event: &MarketEvent,
        out: &mut Vec<Intent>,
    ) {
        if self.placed {
            return;
        }
        let Some((ask, _)) = ctx.best_ask else {
            return;
        };
        self.placed = true;
        out.push(Intent::PlaceLimit {
            symbol: ctx.symbol,
            side: Side::Bid,
            price: ask,
            qty: Qty::new(1).unwrap(),
            tif: TimeInForce::Gtc,
            tag: None,
        });
    }

    fn on_timer(&mut self, _ctx: &ContextSnapshot, _out: &mut Vec<Intent>) {}

    fn on_execution_report(
        &mut self,
        _ctx: &ContextSnapshot,
        _report: &ExecutionReport,
        _out: &mut Vec<Intent>,
    ) {
    }
}

struct DummyVenue;

impl ExecutionVenue for DummyVenue {
    type Model = ();

    fn submit(&mut self, _book: &OrderBook, req: &OmsRequest, out: &mut Vec<ExecutionReport>) {
        let OmsRequest::Place(order) = req else {
            return;
        };

        let symbol = order.symbol;
        let side = order.side;
        let price = order.price.unwrap_or_else(|| Price::new(0).unwrap());
        let qty = order.qty;
        out.push(ExecutionReport {
            client_order_id: order.client_order_id,
            status: OrderStatus::Accepted,
            filled_qty: Qty::new(0).unwrap(),
            last_fill_price: price,
            fee_ticks: 0,
            ts_ns: 1,
            symbol,
            side,
        });
        out.push(ExecutionReport {
            client_order_id: order.client_order_id,
            status: OrderStatus::Filled,
            filled_qty: qty,
            last_fill_price: price,
            fee_ticks: 0,
            ts_ns: 2,
            symbol,
            side,
        });
    }

    fn on_book_update(&mut self, _book: &OrderBook, _out: &mut Vec<ExecutionReport>) {}
}

#[derive(Clone)]
struct PassiveLiveOrder {
    symbol: SymbolId,
    side: Side,
    price: Price,
    qty: Qty,
}

struct PassiveFillVenue {
    next_ts_ns: u64,
    live_orders: HashMap<ClientOrderId, PassiveLiveOrder>,
}

impl PassiveFillVenue {
    fn new() -> Self {
        Self {
            next_ts_ns: 1,
            live_orders: HashMap::new(),
        }
    }

    fn next_ts(&mut self) -> u64 {
        let ts = self.next_ts_ns;
        self.next_ts_ns = self.next_ts_ns.saturating_add(1);
        ts
    }
}

impl ExecutionVenue for PassiveFillVenue {
    type Model = ();

    fn submit(&mut self, book: &OrderBook, req: &OmsRequest, out: &mut Vec<ExecutionReport>) {
        let OmsRequest::Place(order) = req else {
            return;
        };
        let Some(limit_price) = order.price else {
            return;
        };

        let (best_bid, best_ask) = (book.best_bid(), book.best_ask());
        let crossing_price = match order.side {
            Side::Bid => best_ask.and_then(|(ask, _)| {
                if limit_price.ticks() >= ask.ticks() {
                    Some(ask)
                } else {
                    None
                }
            }),
            Side::Ask => best_bid.and_then(|(bid, _)| {
                if limit_price.ticks() <= bid.ticks() {
                    Some(bid)
                } else {
                    None
                }
            }),
        };

        out.push(ExecutionReport {
            client_order_id: order.client_order_id,
            status: OrderStatus::Accepted,
            filled_qty: Qty::new(0).unwrap(),
            last_fill_price: limit_price,
            fee_ticks: 0,
            ts_ns: self.next_ts(),
            symbol: order.symbol,
            side: order.side,
        });

        if let Some(fill_price) = crossing_price {
            out.push(ExecutionReport {
                client_order_id: order.client_order_id,
                status: OrderStatus::Filled,
                filled_qty: order.qty,
                last_fill_price: fill_price,
                fee_ticks: 0,
                ts_ns: self.next_ts(),
                symbol: order.symbol,
                side: order.side,
            });
        } else {
            self.live_orders.insert(
                order.client_order_id,
                PassiveLiveOrder {
                    symbol: order.symbol,
                    side: order.side,
                    price: limit_price,
                    qty: order.qty,
                },
            );
        }
    }

    fn on_book_update(&mut self, book: &OrderBook, out: &mut Vec<ExecutionReport>) {
        let (best_bid, best_ask) = (book.best_bid(), book.best_ask());

        let mut order_ids: Vec<ClientOrderId> = self.live_orders.keys().copied().collect();
        order_ids.sort_by_key(|id| id.0);
        for client_order_id in order_ids {
            let Some(order) = self.live_orders.get(&client_order_id).cloned() else {
                continue;
            };

            let fill_price = match order.side {
                Side::Bid => best_ask.and_then(|(ask, _)| {
                    if order.price.ticks() >= ask.ticks() {
                        Some(ask)
                    } else {
                        None
                    }
                }),
                Side::Ask => best_bid.and_then(|(bid, _)| {
                    if order.price.ticks() <= bid.ticks() {
                        Some(bid)
                    } else {
                        None
                    }
                }),
            };
            let Some(fill_price) = fill_price else {
                continue;
            };

            self.live_orders.remove(&client_order_id);
            out.push(ExecutionReport {
                client_order_id,
                status: OrderStatus::Filled,
                filled_qty: order.qty,
                last_fill_price: fill_price,
                fee_ticks: 0,
                ts_ns: self.next_ts(),
                symbol: order.symbol,
                side: order.side,
            });
        }
    }
}

struct ReactiveFollowUpStrategy {
    placed_initial: bool,
    placed_after_fill: bool,
}

impl ReactiveFollowUpStrategy {
    fn new() -> Self {
        Self {
            placed_initial: false,
            placed_after_fill: false,
        }
    }
}

impl Strategy for ReactiveFollowUpStrategy {
    type Model = ();

    fn on_market_event(
        &mut self,
        ctx: &ContextSnapshot,
        _event: &MarketEvent,
        out: &mut Vec<Intent>,
    ) {
        if self.placed_initial {
            return;
        }
        let Some((ask, _)) = ctx.best_ask else {
            return;
        };
        self.placed_initial = true;
        out.push(Intent::PlaceLimit {
            symbol: ctx.symbol,
            side: Side::Bid,
            price: ask,
            qty: Qty::new(1).unwrap(),
            tif: TimeInForce::Gtc,
            tag: None,
        });
    }

    fn on_execution_report(
        &mut self,
        ctx: &ContextSnapshot,
        report: &ExecutionReport,
        out: &mut Vec<Intent>,
    ) {
        if self.placed_after_fill || report.status != OrderStatus::Filled {
            return;
        }
        let Some((ask, _)) = ctx.best_ask else {
            return;
        };
        self.placed_after_fill = true;
        out.push(Intent::PlaceLimit {
            symbol: ctx.symbol,
            side: Side::Bid,
            price: ask,
            qty: Qty::new(1).unwrap(),
            tif: TimeInForce::Gtc,
            tag: None,
        });
    }

    fn on_timer(&mut self, _ctx: &ContextSnapshot, _out: &mut Vec<Intent>) {}
}

struct TimerOnlyStrategy {
    fired: bool,
}

impl TimerOnlyStrategy {
    fn new() -> Self {
        Self { fired: false }
    }
}

impl Strategy for TimerOnlyStrategy {
    type Model = ();

    fn on_market_event(
        &mut self,
        _ctx: &ContextSnapshot,
        _event: &MarketEvent,
        _out: &mut Vec<Intent>,
    ) {
    }

    fn on_timer(&mut self, ctx: &ContextSnapshot, out: &mut Vec<Intent>) {
        if self.fired {
            return;
        }
        let Some((ask, _)) = ctx.best_ask else {
            return;
        };
        self.fired = true;
        out.push(Intent::PlaceLimit {
            symbol: ctx.symbol,
            side: Side::Bid,
            price: ask,
            qty: Qty::new(1).unwrap(),
            tif: TimeInForce::Gtc,
            tag: None,
        });
    }

    fn on_execution_report(
        &mut self,
        _ctx: &ContextSnapshot,
        _report: &ExecutionReport,
        _out: &mut Vec<Intent>,
    ) {
    }
}

struct RestingBidStrategy {
    placed: bool,
}

impl RestingBidStrategy {
    fn new() -> Self {
        Self { placed: false }
    }
}

impl Strategy for RestingBidStrategy {
    type Model = ();

    fn on_market_event(
        &mut self,
        ctx: &ContextSnapshot,
        _event: &MarketEvent,
        out: &mut Vec<Intent>,
    ) {
        if self.placed {
            return;
        }
        let Some((bid, _)) = ctx.best_bid else {
            return;
        };
        self.placed = true;
        out.push(Intent::PlaceLimit {
            symbol: ctx.symbol,
            side: Side::Bid,
            price: bid,
            qty: Qty::new(1).unwrap(),
            tif: TimeInForce::Gtc,
            tag: None,
        });
    }

    fn on_timer(&mut self, _ctx: &ContextSnapshot, _out: &mut Vec<Intent>) {}

    fn on_execution_report(
        &mut self,
        _ctx: &ContextSnapshot,
        _report: &ExecutionReport,
        _out: &mut Vec<Intent>,
    ) {
    }
}

fn named(text: &str) -> SymbolId {
    let mut symbols = SymbolTable::new();
    Symbol::new(text, &mut symbols).unwrap().id()
}

fn first_snapshot(symbol: SymbolId) -> MarketEvent {
    MarketEvent::L2Snapshot {
        ts_ns: 1,
        symbol,
        bids: vec![(Price::new(100).unwrap(), Qty::new(1).unwrap())],
        asks: vec![(Price::new(101).unwrap(), Qty::new(1).unwrap())],
    }
}

#[test]
fn snapshot_then_delta_triggers_fill_and_position() {
    let symbol = named("BTC-USD");
    let mut engine = Engine::new(
        OrderBook::new(symbol),
        Portfolio::new(),
        Oms::new(),
        RiskEngine::new(),
        Box::new(DummyStrategy::new()),
        Box::new(DummyVenue),
    );

    let snapshot = first_snapshot(symbol);
    assert!(engine.on_market_event(&snapshot));

    let delta = MarketEvent::L2Delta {
        ts_ns: 2,
        symbol,
        updates: vec![LevelUpdate {
            side: Side::Bid,
            price: Price::new(100).unwrap(),
            qty: Qty::new(2).unwrap(),
        }],
    };
    assert!(engine.on_market_event(&delta));

    assert_eq!(engine.position_lots(symbol), 1);
}

#[test]
fn execution_report_follow_up_intents_are_processed() {
    let symbol = named("BTC-USD");
    let mut engine = Engine::new(
        OrderBook::new(symbol),
        Portfolio::new(),
        Oms::new(),
        RiskEngine::new(),
        Box::new(ReactiveFollowUpStrategy::new()),
        Box::new(DummyVenue),
    );

    let snapshot = first_snapshot(symbol);
    assert!(engine.on_market_event(&snapshot));
    assert_eq!(engine.position_lots(symbol), 2);
}

#[test]
fn timer_tick_routes_strategy_intents() {
    let symbol = named("BTC-USD");
    let mut engine = Engine::new(
        OrderBook::new(symbol),
        Portfolio::new(),
        Oms::new(),
        RiskEngine::new(),
        Box::new(TimerOnlyStrategy::new()),
        Box::new(DummyVenue),
    );

    let snapshot = first_snapshot(symbol);
    assert!(engine.on_market_event(&snapshot));
    assert_eq!(engine.position_lots(symbol), 0);

    engine.on_timer(2, symbol);
    assert_eq!(engine.position_lots(symbol), 1);
}

#[test]
fn passive_fill_triggers_when_market_moves_through_resting_order() {
    let symbol = named("BTC-USD");
    let venue = PassiveFillVenue::new();
    let mut engine = Engine::with_shared_book(
        OrderBook::new(symbol),
        Portfolio::new(),
        Oms::new(),
        RiskEngine::new(),
        Box::new(RestingBidStrategy::new()),
        Box::new(venue),
    );

    let snapshot = first_snapshot(symbol);
    assert!(engine.on_market_event(&snapshot));
    assert_eq!(engine.position_lots(symbol), 0);

    let delta = MarketEvent::L2Delta {
        ts_ns: 2,
        symbol,
        updates: vec![LevelUpdate {
            side: Side::Ask,
            price: Price::new(100).unwrap(),
            qty: Qty::new(1).unwrap(),
        }],
    };
    assert!(engine.on_market_event(&delta));
    assert_eq!(engine.position_lots(symbol), 1);
}

#[test]
fn sim_venue_sweep_fills_resting_bid_through_the_engine() {
    let symbol = SymbolId::from_u32(0);
    let mut engine = Engine::new(
        OrderBook::new(symbol),
        Portfolio::new(),
        Oms::new(),
        RiskEngine::new(),
        RestingBidStrategy::new(),
        SimVenue::new(0, 0),
    );
    assert!(engine.on_market_event(&first_snapshot(symbol)));
    assert_eq!(engine.position_lots(symbol), 0);
    assert_eq!(engine.oms().open_orders(), 1);
    assert_eq!(engine.venue().live_order_count(), 1);

    let delta = MarketEvent::L2Delta {
        ts_ns: 2,
        symbol,
        updates: vec![LevelUpdate {
            side: Side::Ask,
            price: Price::new(100).unwrap(),
            qty: Qty::new(1).unwrap(),
        }],
    };
    assert!(engine.on_market_event_deterministic(&delta));
    assert_eq!(engine.position_lots(symbol), 1);
    assert_eq!(engine.oms().open_orders(), 0);
    assert_eq!(engine.venue().live_order_count(), 0);
    assert_eq!(engine.portfolio().avg_entry_price_ticks(symbol), Some(100));
    assert_eq!(engine.realized_pnl_ticks(symbol), 0);
    assert_eq!(engine.fees_paid_ticks(symbol), 0);
    assert_eq!(
        engine.book().best_ask(),
        Some((Price::new(100).unwrap(), Qty::new(1).unwrap()))
    );
    // Only the first event was measured by the timed entry point.
    assert_eq!(engine.latency_stats().count(), 1);
}

#[test]
fn cross_symbol_event_is_dropped_by_the_engine() {
    let symbol = SymbolId::from_u32(0);
    let other = SymbolId::from_u32(1);
    let mut engine = Engine::new(
        OrderBook::new(symbol),
        Portfolio::new(),
        Oms::new(),
        RiskEngine::new(),
        DummyStrategy::new(),
        DummyVenue,
    );
    assert!(!engine.on_market_event(&first_snapshot(other)));
    assert_eq!(engine.book().best_bid(), None);
    assert_eq!(engine.position_lots(symbol), 0);
    assert_eq!(engine.latency_stats().count(), 0);
    assert!(!engine.strategy().placed);
}

#[test]
fn risk_rejection_drops_the_intent() {
    let symbol = SymbolId::from_u32(0);
    let mut engine = Engine::new(
        OrderBook::new(symbol),
        Portfolio::new(),
        Oms::new(),
        RiskEngine::new().with_policy(MaxPositionPolicy::new(0)),
        DummyStrategy::new(),
        DummyVenue,
    );
    assert!(engine.on_market_event(&first_snapshot(symbol)));
    assert_eq!(engine.position_lots(symbol), 0);
    assert_eq!(engine.oms().open_orders(), 0);
    assert_eq!(engine.oms().order_state(ClientOrderId(1)), None);
}

struct EndlessStrategy;

impl Strategy for EndlessStrategy {
    type Model = ();

    fn on_market_event(
        &mut self,
        ctx: &ContextSnapshot,
        _event: &MarketEvent,
        out: &mut Vec<Intent>,
    ) {
        out.push(Intent::PlaceLimit {
            symbol: ctx.symbol,
            side: Side::Bid,
            price: Price::new(1).unwrap(),
            qty: Qty::new(1).unwrap(),
            tif: TimeInForce::Gtc,
            tag: None,
        });
    }

    fn on_execution_report(
        &mut self,
        ctx: &ContextSnapshot,
        report: &ExecutionReport,
        out: &mut Vec<Intent>,
    ) {
        if report.status == OrderStatus::Filled {
            out.push(Intent::PlaceLimit {
                symbol: ctx.symbol,
                side: Side::Bid,
                price: Price::new(1).unwrap(),
                qty: Qty::new(1).unwrap(),
                tif: TimeInForce::Gtc,
                tag: None,
            });
        }
    }

    fn on_timer(&mut self, _ctx: &ContextSnapshot, _out: &mut Vec<Intent>) {}
}

#[test]
fn intent_churn_stops_at_the_cap() {
    let symbol = SymbolId::from_u32(0);
    let mut engine = Engine::new(
        OrderBook::new(symbol),
        Portfolio::new(),
        Oms::new(),
        RiskEngine::new(),
        EndlessStrategy,
        DummyVenue,
    );
    assert!(engine.on_market_event(&first_snapshot(symbol)));
    assert_eq!(engine.position_lots(symbol), 1024);
}

#[test]
fn simulation_ticks_the_timer_in_event_time() {
    let symbol = SymbolId::from_u32(0);
    let engine = Engine::new(
        OrderBook::new(symbol),
        Portfolio::new(),
        Oms::new(),
        RiskEngine::new(),
        TimerOnlyStrategy::new(),
        CountingVenue::new(SimVenue::new(0, 0)),
    );
    let mut run = Simulation::new(engine, symbol, 10);
    assert!(run.on_event(&first_snapshot(symbol)));
    // The first event only starts the timer.
    assert_eq!(run.engine().position_lots(symbol), 0);
    let near = MarketEvent::L2Delta { ts_ns: 10, symbol, updates: vec![] };
    assert!(run.on_event(&near));
    assert_eq!(run.engine().position_lots(symbol), 0);
    let due = MarketEvent::L2Delta { ts_ns: 11, symbol, updates: vec![] };
    assert!(run.on_event(&due));
    assert_eq!(run.engine().position_lots(symbol), 1);
    assert_eq!(run.engine().venue().orders_sent(), 1);
    assert_eq!(run.engine().venue().fills_count(), 1);
    let elsewhere = MarketEvent::L2Delta { ts_ns: 12, symbol: SymbolId::from_u32(9), updates: vec![] };
    assert!(!run.on_event(&elsewhere));
    assert_eq!(run.events_read(), 4);
    assert_eq!(run.events_applied(), 3);
}

#[test]
fn simulation_runs_built_in_strategies() {
    let symbol = SymbolId::from_u32(0);
    let events = vec![
        first_snapshot(symbol),
        MarketEvent::L2Delta {
            ts_ns: 2_000_000_000,
            symbol,
            updates: vec![LevelUpdate {
                side: Side::Ask,
                price: Price::new(102).unwrap(),
                qty: Qty::new(1).unwrap(),
            }],
        },
        MarketEvent::L2Delta { ts_ns: 4_000_000_000, symbol, updates: vec![] },
    ];

    let noop = Engine::new(
        OrderBook::new(symbol),
        Portfolio::new(),
        Oms::new(),
        RiskEngine::new(),
        NoopStrategy,
        CountingVenue::new(SimVenue::new(0, 0)),
    );
    let mut run = Simulation::new(noop, symbol, 1_000_000_000);
    for event in &events {
        assert!(run.on_event(event));
    }
    assert_eq!(run.events_read(), 3);
    assert_eq!(run.engine().venue().orders_sent(), 0);
    assert_eq!(run.engine().position_lots(symbol), 0);

    // Two lots to buy, one at a time, two seconds apart: each takes the best ask.
    let twap = Engine::new(
        OrderBook::new(symbol),
        Portfolio::new(),
        Oms::new(),
        RiskEngine::new(),
        TwapStrategy::new(2, 4, 1),
        CountingVenue::new(SimVenue::new(0, 1)),
    );
    let mut run = Simulation::new(twap, symbol, 1_000_000_000);
    for event in &events {
        assert!(run.on_event(event));
    }
    assert_eq!(run.engine().position_lots(symbol), 2);
    assert_eq!(run.engine().venue().orders_sent(), 2);
    assert_eq!(run.engine().venue().fills_count(), 2);
    assert_eq!(run.engine().fees_paid_ticks(symbol), 2);
    assert_eq!(run.engine().strategy().remaining_qty_lots(), 0);

    // The market maker quotes both sides and neither crosses.
    let mm = Engine::new(
        OrderBook::new(symbol),
        Portfolio::new(),
        Oms::new(),
        RiskEngine::new(),
        MmStrategy::new(2, 1, 0),
        CountingVenue::new(SimVenue::new(0, 0)),
    );
    let mut run = Simulation::new(mm, symbol, 1_000_000_000);
    assert!(run.on_event(&events[0]));
    assert_eq!(run.engine().venue().orders_sent(), 2);
    assert_eq!(run.engine().venue().inner().live_order_count(), 2);
    assert_eq!(run.engine().oms().open_orders(), 2);
    assert_eq!(run.engine().position_lots(symbol), 0);
}

#[test]
fn noop_run_moves_only_the_book() {
    let symbol = SymbolId::from_u32(0);
    let engine = Engine::new(
        OrderBook::new(symbol),
        Portfolio::new(),
        Oms::new(),
        RiskEngine::new(),
        NoopStrategy,
        CountingVenue::new(SimVenue::new(0, 0)),
    );
    let mut run = Simulation::new(engine, symbol, 1_000_000_000);
    assert!(run.on_event(&first_snapshot(symbol)));
    let elsewhere =
        MarketEvent::L2Delta { ts_ns: 2_000_000_000, symbol: SymbolId::from_u32(7), updates: vec![] };
    assert!(!run.on_event(&elsewhere));
    let delta = MarketEvent::L2Delta {
        ts_ns: 3_000_000_000,
        symbol,
        updates: vec![LevelUpdate {
            side: Side::Ask,
            price: Price::new(102).unwrap(),
            qty: Qty::new(1).unwrap(),
        }],
    };
    assert!(run.on_event(&delta));
    assert_eq!(run.events_read(), 3);
    assert_eq!(run.events_applied(), 2);
    assert_eq!(run.engine().venue().orders_sent(), 0);
    assert_eq!(run.engine().venue().fills_count(), 0);
    assert_eq!(run.engine().venue().inner().live_order_count(), 0);
    assert_eq!(run.engine().oms().open_orders(), 0);
    assert_eq!(run.engine().position_lots(symbol), 0);
    assert_eq!(run.engine().realized_pnl_ticks(symbol), 0);
    assert_eq!(run.engine().fees_paid_ticks(symbol), 0);
}

#[test]
fn rejecting_chain_turns_every_order_away() {
    let symbol = SymbolId::from_u32(0);
    let mut engine = Engine::new(
        OrderBook::new(symbol),
        Portfolio::new(),
        Oms::new(),
        RiskEngine::new().with_policy(MaxPositionPolicy::new(0)),
        TwapStrategy::new(2, 4, 1),
        CountingVenue::new(SimVenue::new(0, 1)),
    );
    assert!(engine.on_market_event(&first_snapshot(symbol)));
    engine.on_timer(2_000_000_000, symbol);
    engine.on_timer(4_000_000_000, symbol);
    assert_eq!(engine.venue().orders_sent(), 0);
    assert_eq!(engine.oms().open_orders(), 0);
    assert_eq!(engine.position_lots(symbol), 0);
}

#[test]
fn rate_limit_lets_one_quote_through_each_second() {
    let symbol = SymbolId::from_u32(0);
    let mut engine = Engine::new(
        OrderBook::new(symbol),
        Portfolio::new(),
        Oms::new(),
        RiskEngine::new().with_policy(RateLimitPolicy::new(1)),
        MmStrategy::new(2, 1, 0),
        CountingVenue::new(SimVenue::new(0, 0)),
    );
    // The market maker asks for a bid and an ask; the second is over the limit.
    assert!(engine.on_market_event(&first_snapshot(symbol)));
    assert_eq!(engine.venue().orders_sent(), 1);
    assert_eq!(engine.venue().inner().live_order_count(), 1);
    assert_eq!(engine.oms().open_orders(), 1);
}
