//! What a run over a tape keeps track of: how many events were read and
//! applied, when timer ticks fall due between events, what a venue was
//! asked and answered, and how a synthetic tape takes its next step.

use crate::arith::capped_sum;
use crate::book::{BookView, OrderBook};
use crate::engine::{Engine, EngineModel};
use crate::oms::OrderRequest;
use crate::orders::{ExecutionReport, OrderStatus};
use crate::risk::Judge;
use crate::strategies::NoopStrategy;
use crate::strategy::Strategy;
use crate::types::{LevelUpdate, MarketEvent, Price, Qty, Side, SymbolId};
use crate::venue::ExecutionVenue;
use crate::venue_sim::{ids_of, LiveOrder, SimVenue, VenueView};
use vstd::prelude::*;

verus! {

/// The most timer ticks that fall between two market events.
pub const MAX_TIMER_TICKS_PER_EVENT: usize = 1024;

/// The events of a replay, counted.
#[derive(Debug, Clone, Copy, PartialEq, Eq, Structural)]
pub struct ReplayTally {
    pub total_events_read: u64,
    pub events_applied: u64,
    pub events_dropped: u64,
}

impl ReplayTally {
    /// A tally of nothing.
    pub fn new() -> (r: ReplayTally)
        ensures
            r == (ReplayTally { total_events_read: 0, events_applied: 0, events_dropped: 0 }),
    {
        ReplayTally { total_events_read: 0, events_applied: 0, events_dropped: 0 }
    }

    /// The tally after one more event: read, and applied or dropped.
    pub open spec fn after(self, applied: bool) -> ReplayTally {
        ReplayTally {
            total_events_read: capped_sum(self.total_events_read, 1),
            events_applied: if applied {
                capped_sum(self.events_applied, 1)
            } else {
                self.events_applied
            },
            events_dropped: if applied {
                self.events_dropped
            } else {
                capped_sum(self.events_dropped, 1)
            },
        }
    }

    /// Counts one event.
    pub fn record(&mut self, applied: bool)
        ensures
            *final(self) == old(self).after(applied),
    {
        self.total_events_read = self.total_events_read.saturating_add(1);
        if applied {
            self.events_applied = self.events_applied.saturating_add(1);
        } else {
            self.events_dropped = self.events_dropped.saturating_add(1);
        }
    }

    /// Applies one event to the book and counts it.
    pub fn replay_event(&mut self, book: &mut OrderBook, event: &MarketEvent) -> (applied: bool)
        requires
            old(book).wf(),
        ensures
            final(book).wf(),
            final(book).spec_symbol() == old(book).spec_symbol(),
            applied == (event.spec_symbol() == old(book).spec_symbol()),
            applied ==> final(book)@ == old(book)@.apply_event(*event),
            !applied ==> final(book)@ == old(book)@,
            *final(self) == old(self).after(applied),
    {
        let applied = book.apply(event);
        self.record(applied);
        applied
    }

    /// Whether as many events have been read as the limit allows. Without
    /// a limit there is always room.
    pub fn limit_reached(&self, limit: Option<u64>) -> (r: bool)
        ensures
            r == (limit matches Some(most) && self.total_events_read >= most),
    {
        match limit {
            Some(most) => self.total_events_read >= most,
            None => false,
        }
    }
}

/// How many timer ticks fall due when an event of time `event_ts_ns`
/// comes and the last tick was at `last_tick_ts_ns`: one for each whole
/// interval that has passed, and no more than the cap.
pub open spec fn due_ticks(last_tick_ts_ns: u64, event_ts_ns: u64, interval_ns: u64) -> nat {
    if event_ts_ns < last_tick_ts_ns || interval_ns == 0 {
        0
    } else {
        let whole = (event_ts_ns - last_tick_ts_ns) / (interval_ns as int);
        if whole > MAX_TIMER_TICKS_PER_EVENT {
            MAX_TIMER_TICKS_PER_EVENT as nat
        } else {
            whole as nat
        }
    }
}

/// A venue that counts what it is asked and what it fills, around another
/// venue that does the work.
pub struct CountingVenue<V: ExecutionVenue> {
    inner: V,
    orders_sent: u64,
    fills_count: u64,
}

/// Whether a report tells of lots filled.
pub open spec fn is_fill(report: ExecutionReport) -> bool {
    report.status.is_fill() && report.filled_qty@ != 0
}

/// How many of the reports tell of lots filled.
pub open spec fn count_fills(reports: Seq<ExecutionReport>) -> nat
    decreases reports.len(),
{
    if reports.len() == 0 {
        0
    } else {
        count_fills(reports.drop_last()) + (if is_fill(reports.last()) {
            1nat
        } else {
            0nat
        })
    }
}

/// Counts the reports from `start` on that tell of lots filled.
pub fn fills_among(reports: &Vec<ExecutionReport>, start: usize) -> (r: usize)
    ensures
        start <= reports@.len() ==> r == count_fills(reports@.skip(start as int)),
        start > reports@.len() ==> r == 0,
{
    if start > reports.len() {
        return 0;
    }
    let mut fills: usize = 0;
    let mut i: usize = start;
    let ghost tail = reports@.skip(start as int);
    assert(tail.take(0) =~= Seq::<ExecutionReport>::empty());
    while i < reports.len()
        invariant
            start <= i <= reports.len(),
            tail == reports@.skip(start as int),
            fills <= i - start,
            fills == count_fills(tail.take(i - start)),
        decreases reports.len() - i,
    {
        assert(tail.take(i - start + 1).drop_last() =~= tail.take(i - start));
        assert(tail.take(i - start + 1).last() == reports@[i as int]);
        let report = reports[i];
        let filled = match report.status {
            OrderStatus::Filled | OrderStatus::PartiallyFilled => !report.filled_qty.is_zero(),
            _ => false,
        };
        if filled {
            fills = fills + 1;
        }
        i = i + 1;
    }
    assert(tail.take(i - start) =~= tail);
    fills
}

impl<V: ExecutionVenue> CountingVenue<V> {
    /// The venue inside.
    pub closed spec fn spec_inner(&self) -> V {
        self.inner
    }

    /// How many requests have been sent on.
    pub closed spec fn spec_orders_sent(&self) -> u64 {
        self.orders_sent
    }

    /// How many reports of lots filled have come back.
    pub closed spec fn spec_fills_count(&self) -> u64 {
        self.fills_count
    }

    pub fn new(inner: V) -> (r: Self)
        ensures
            r.spec_inner() == inner,
            r.spec_orders_sent() == 0,
            r.spec_fills_count() == 0,
    {
        CountingVenue { inner, orders_sent: 0, fills_count: 0 }
    }

    #[verifier::when_used_as_spec(spec_orders_sent)]
    pub fn orders_sent(&self) -> (r: u64)
        ensures
            r == self.spec_orders_sent(),
    {
        self.orders_sent
    }

    #[verifier::when_used_as_spec(spec_fills_count)]
    pub fn fills_count(&self) -> (r: u64)
        ensures
            r == self.spec_fills_count(),
    {
        self.fills_count
    }

    /// The venue inside.
    pub fn inner(&self) -> (r: &V)
        ensures
            *r == self.spec_inner(),
    {
        &self.inner
    }

    /// Adds the fills among the reports from `held` on to the count.
    fn count(&mut self, reports: &Vec<ExecutionReport>, held: usize)
        ensures
            final(self).spec_inner() == old(self).spec_inner(),
            final(self).spec_orders_sent() == old(self).spec_orders_sent(),
            final(self).spec_fills_count() == capped_sum(
                old(self).spec_fills_count(),
                if held <= reports@.len() {
                    count_fills(reports@.skip(held as int))
                } else {
                    0
                },
            ),
    {
        let fills = fills_among(reports, held);
        if fills > 0 {
            self.fills_count = self.fills_count.saturating_add(fills as u64);
        }
    }
}

/// What a counting venue holds: the venue inside and its two counts.
pub struct CountingModel<VM> {
    pub inner: VM,
    pub orders_sent: u64,
    pub fills_count: u64,
}

/// The reports that a call has appended: those of `after` that follow the
/// ones `before` held.
pub open spec fn appended(before: Seq<ExecutionReport>, after: Seq<ExecutionReport>) -> Seq<
    ExecutionReport,
> {
    if before.len() <= after.len() {
        after.skip(before.len() as int)
    } else {
        Seq::empty()
    }
}

impl<V: ExecutionVenue> ExecutionVenue for CountingVenue<V> {
    type Model = CountingModel<V::Model>;

    open spec fn model(&self) -> CountingModel<V::Model> {
        CountingModel {
            inner: self.spec_inner().model(),
            orders_sent: self.spec_orders_sent(),
            fills_count: self.spec_fills_count(),
        }
    }

    /// A request goes to the venue inside and is counted, and so are the
    /// fills among the reports that it leads to.
    open spec fn submit_step(
        model: CountingModel<V::Model>,
        book: BookView,
        req: OrderRequest,
    ) -> Option<(Seq<ExecutionReport>, CountingModel<V::Model>)> {
        match V::submit_step(model.inner, book, req) {
            Some((reports, inner)) => Some(
                (
                    reports,
                    CountingModel {
                        inner,
                        orders_sent: capped_sum(model.orders_sent, 1),
                        fills_count: capped_sum(model.fills_count, count_fills(reports)),
                    },
                ),
            ),
            None => None,
        }
    }

    /// A book update goes to the venue inside, and the fills among the
    /// reports that it appends are counted.
    open spec fn sweep_ok(
        model: CountingModel<V::Model>,
        book: BookView,
        before: Seq<ExecutionReport>,
        after: Seq<ExecutionReport>,
        next: CountingModel<V::Model>,
    ) -> bool {
        &&& V::sweep_ok(model.inner, book, before, after, next.inner)
        &&& next.orders_sent == model.orders_sent
        &&& next.fills_count == capped_sum(
            model.fills_count,
            count_fills(appended(before, after)),
        )
    }

    /// Counts the request, hands it to the venue inside, and counts the
    /// fills among the reports that the venue appends.
    fn submit(&mut self, book: &OrderBook, req: &OrderRequest, out: &mut Vec<ExecutionReport>)
        ensures
            final(self).spec_orders_sent() == capped_sum(old(self).spec_orders_sent(), 1),
            final(self).spec_fills_count() == capped_sum(
                old(self).spec_fills_count(),
                count_fills(appended(old(out)@, final(out)@)),
            ),
    {
        let held = out.len();
        self.orders_sent = self.orders_sent.saturating_add(1);
        self.inner.submit(book, req, out);
        self.count(out, held);
        proof {
            if let Some((reports, inner)) = V::submit_step(old(self).inner.model(), book@, *req) {
                assert(appended(old(out)@, out@) =~= reports);
            }
        }
    }

    /// Hands the book update to the venue inside and counts the fills
    /// among the reports that the venue appends.
    fn on_book_update(&mut self, book: &OrderBook, out: &mut Vec<ExecutionReport>)
        ensures
            final(self).spec_orders_sent() == old(self).spec_orders_sent(),
            final(self).spec_fills_count() == capped_sum(
                old(self).spec_fills_count(),
                count_fills(appended(old(out)@, final(out)@)),
            ),
    {
        let held = out.len();
        self.inner.on_book_update(book, out);
        self.count(out, held);
    }
}

/// A run of the whole pipeline over a tape: the engine, the timer that
/// ticks in event time, and the count of events.
pub struct Simulation<S: Strategy, V: ExecutionVenue> {
    engine: Engine<S, V>,
    symbol: SymbolId,
    timer_interval_ns: u64,
    last_tick_ts_ns: Option<u64>,
    events_read: u64,
    events_applied: u64,
}

impl<S: Strategy, V: ExecutionVenue> Simulation<S, V> {
    /// The engine.
    pub closed spec fn spec_engine(&self) -> Engine<S, V> {
        self.engine
    }

    /// The time of the last timer tick, once the first event has come.
    pub closed spec fn spec_last_tick(&self) -> Option<u64> {
        self.last_tick_ts_ns
    }

    /// The time between two timer ticks: 1 at least.
    pub closed spec fn spec_interval(&self) -> u64 {
        self.timer_interval_ns
    }

    /// How many events have been read.
    pub closed spec fn spec_events_read(&self) -> u64 {
        self.events_read
    }

    /// How many events the book has taken in.
    pub closed spec fn spec_events_applied(&self) -> u64 {
        self.events_applied
    }

    /// The symbol that the timer ticks for.
    pub closed spec fn spec_symbol(&self) -> SymbolId {
        self.symbol
    }

    /// The engine after `n` timer ticks, one interval apart, the first one
    /// interval after `last`, with a risk chain that judges as `judge`
    /// says.
    pub open spec fn ticked(
        m: EngineModel<S::Model, V::Model>,
        judge: Judge,
        last: u64,
        interval: u64,
        n: nat,
        symbol: SymbolId,
    ) -> Option<EngineModel<S::Model, V::Model>>
        decreases n,
    {
        if n == 0 {
            Some(m)
        } else {
            match Self::ticked(m, judge, last, interval, (n - 1) as nat, symbol) {
                Some(mid) => Engine::<S, V>::timer_result(
                    mid,
                    judge,
                    (last + n * interval) as u64,
                    symbol,
                ),
                None => None,
            }
        }
    }

    /// The engine after the timer ticks that fall due when an event of
    /// time `event_ts_ns` comes. The first event only starts the timer.
    pub open spec fn after_due_ticks(&self, event_ts_ns: u64) -> Option<
        EngineModel<S::Model, V::Model>,
    > {
        match self.spec_last_tick() {
            Some(last) => Self::ticked(
                self.spec_engine().model(),
                self.spec_engine().spec_risk().judge(),
                last,
                self.spec_interval(),
                due_ticks(last, event_ts_ns, self.spec_interval()),
                self.spec_symbol(),
            ),
            None => Some(self.spec_engine().model()),
        }
    }

    /// Whether `after` is an engine that `ticked` may have become by an
    /// event, with a risk chain that judges as `judge` says before and as
    /// `judge_after` says afterwards: what [`Engine::event_outcome`] allows
    /// for some sweep of the venue if the book took the event, and `ticked`
    /// itself if it did not.
    pub open spec fn event_follows(
        ticked: EngineModel<S::Model, V::Model>,
        judge: Judge,
        event: MarketEvent,
        applied: bool,
        after: EngineModel<S::Model, V::Model>,
        judge_after: Judge,
    ) -> bool {
        if applied {
            exists|swept: Seq<ExecutionReport>, venue_after: V::Model|
                Engine::<S, V>::event_outcome(
                    ticked,
                    judge,
                    event,
                    swept,
                    venue_after,
                    after,
                    judge_after,
                )
        } else {
            after == ticked && judge_after == judge
        }
    }

    /// The engine is well formed and the timer has an interval.
    pub open spec fn wf(&self) -> bool {
        self.spec_engine().wf() && self.spec_interval() >= 1
    }

    /// A run that has read nothing. An interval of zero counts as one
    /// nanosecond.
    pub fn new(engine: Engine<S, V>, symbol: SymbolId, timer_interval_ns: u64) -> (r: Self)
        requires
            engine.wf(),
        ensures
            r.wf(),
            r.spec_engine() == engine,
            r.spec_symbol() == symbol,
            r.spec_last_tick() is None,
            r.spec_interval() == (if timer_interval_ns < 1 {
                1
            } else {
                timer_interval_ns
            }),
            r.spec_events_read() == 0,
            r.spec_events_applied() == 0,
    {
        Simulation {
            engine,
            symbol,
            timer_interval_ns: if timer_interval_ns < 1 {
                1
            } else {
                timer_interval_ns
            },
            last_tick_ts_ns: None,
            events_read: 0,
            events_applied: 0,
        }
    }

    /// Takes one event from the tape. First the timer ticks that have
    /// fallen due since the last one are handed to the engine, one for each
    /// whole interval of event time and no more than the cap; the first
    /// event only starts the timer. Then the event goes to the engine, and
    /// is counted as read and, if the book took it in, as applied. The
    /// engine is then what [`Engine::event_outcome`] allows after the ticks,
    /// or, for an event that the book does not take, what it was after the
    /// ticks, wherever the strategy, the venue and the policies say what
    /// they do.
    pub fn on_event(&mut self, event: &MarketEvent) -> (applied: bool)
        requires
            old(self).wf(),
        ensures
            final(self).wf(),
            final(self).spec_interval() == old(self).spec_interval(),
            final(self).spec_symbol() == old(self).spec_symbol(),
            final(self).spec_engine().spec_risk_len() == old(self).spec_engine().spec_risk_len(),
            old(self).after_due_ticks(event.spec_ts_ns()) matches Some(ticked)
                ==> Self::event_follows(
                ticked,
                old(self).spec_engine().spec_risk().judge(),
                *event,
                applied,
                final(self).spec_engine().model(),
                final(self).spec_engine().spec_risk().judge(),
            ),
            applied == (event.spec_symbol() == old(self).spec_engine().spec_book().spec_symbol()),
            final(self).spec_engine().spec_book().spec_symbol() == old(
                self,
            ).spec_engine().spec_book().spec_symbol(),
            applied ==> final(self).spec_engine().spec_book()@ == old(
                self,
            ).spec_engine().spec_book()@.apply_event(*event),
            !applied ==> final(self).spec_engine().spec_book()@ == old(
                self,
            ).spec_engine().spec_book()@,
            final(self).spec_last_tick() == Some(
                match old(self).spec_last_tick() {
                    Some(last) => (last + due_ticks(
                        last,
                        event.spec_ts_ns(),
                        old(self).spec_interval(),
                    ) * old(self).spec_interval()) as u64,
                    None => event.spec_ts_ns(),
                },
            ),
            final(self).spec_events_read() == capped_sum(old(self).spec_events_read(), 1),
            final(self).spec_events_applied() == (if applied {
                capped_sum(old(self).spec_events_applied(), 1)
            } else {
                old(self).spec_events_applied()
            }),
    {
        let event_ts_ns = event.ts_ns();
        let interval = self.timer_interval_ns;
        let ghost before = self.engine.model();
        let ghost judge = self.engine.spec_risk().judge();
        match self.last_tick_ts_ns {
            Some(first_tick) => {
                let mut last_tick = first_tick;
                let mut ticks_processed: usize = 0;
                while ticks_processed < MAX_TIMER_TICKS_PER_EVENT && event_ts_ns >= last_tick
                    && event_ts_ns - last_tick >= interval
                    invariant
                        self.engine.wf(),
                        interval >= 1,
                        interval == self.timer_interval_ns,
                        self.timer_interval_ns == old(self).timer_interval_ns,
                        self.events_read == old(self).events_read,
                        self.events_applied == old(self).events_applied,
                        self.engine.spec_book() == old(self).engine.spec_book(),
                        self.symbol == old(self).symbol,
                        self.engine.spec_risk_len() == old(self).engine.spec_risk_len(),
                        before == old(self).engine.model(),
                        judge == old(self).engine.spec_risk().judge(),
                        ticks_processed == 0 ==> self.engine.spec_risk() == old(
                            self,
                        ).engine.spec_risk(),
                        Self::ticked(
                            before,
                            judge,
                            first_tick,
                            interval,
                            ticks_processed as nat,
                            self.symbol,
                        ) matches Some(m) ==> self.engine.model() == m
                            && self.engine.spec_risk().judge() == judge,
                        ticks_processed <= MAX_TIMER_TICKS_PER_EVENT,
                        last_tick == first_tick + ticks_processed * interval,
                        ticks_processed > 0 ==> last_tick <= event_ts_ns,
                    decreases MAX_TIMER_TICKS_PER_EVENT - ticks_processed,
                {
                    assert((ticks_processed + 1) * interval == ticks_processed * interval
                        + interval) by (nonlinear_arith);
                    last_tick = last_tick + interval;
                    self.engine.on_timer(last_tick, self.symbol);
                    ticks_processed = ticks_processed + 1;
                }
                proof {
                    lemma_due_ticks(first_tick, event_ts_ns, interval, ticks_processed as nat);
                }
                self.last_tick_ts_ns = Some(last_tick);
            },
            None => {
                self.last_tick_ts_ns = Some(event_ts_ns);
            },
        }
        self.events_read = self.events_read.saturating_add(1);
        let ghost ticked = self.engine.model();
        let ghost judged = self.engine.spec_risk().judge();
        assert(old(self).after_due_ticks(event_ts_ns) matches Some(m) ==> m == ticked && judged
            == judge);
        let applied = self.engine.on_market_event(event);
        let ghost handled = self.engine.model();
        if applied {
            self.events_applied = self.events_applied.saturating_add(1);
        }
        proof {
            assert(self.engine.model() == handled);
            assert(!applied ==> handled == ticked);
            if applied {
                let (swept, venue_after) = choose|
                    swept: Seq<ExecutionReport>,
                    venue_after: V::Model,
                |
                    Engine::<S, V>::event_outcome(
                        ticked,
                        judged,
                        *event,
                        swept,
                        venue_after,
                        handled,
                        self.engine.spec_risk().judge(),
                    );
                assert(Engine::<S, V>::event_outcome(
                    ticked,
                    judged,
                    *event,
                    swept,
                    venue_after,
                    self.engine.model(),
                    self.engine.spec_risk().judge(),
                ));
            }
            assert(old(self).after_due_ticks(event_ts_ns) is Some ==> Self::event_follows(
                ticked,
                judge,
                *event,
                applied,
                self.engine.model(),
                self.engine.spec_risk().judge(),
            ));
        }
        applied
    }

    pub fn engine(&self) -> (r: &Engine<S, V>)
        ensures
            *r == self.spec_engine(),
    {
        &self.engine
    }

    pub fn events_read(&self) -> (r: u64)
        ensures
            r == self.spec_events_read(),
    {
        self.events_read
    }

    pub fn events_applied(&self) -> (r: u64)
        ensures
            r == self.spec_events_applied(),
    {
        self.events_applied
    }
}

/// A count of ticks that stops where the next tick would pass the event,
/// or at the cap, is the number of ticks that are due.
pub proof fn lemma_due_ticks(last: u64, event_ts: u64, interval: u64, n: nat)
    requires
        interval >= 1,
        n <= MAX_TIMER_TICKS_PER_EVENT,
        n > 0 ==> last + n * interval <= event_ts,
        n == MAX_TIMER_TICKS_PER_EVENT || event_ts < last + n * interval || event_ts - (last + n
            * interval) < interval,
    ensures
        n == due_ticks(last, event_ts, interval),
{
    if event_ts < last {
        assert(n * interval >= 0) by (nonlinear_arith)
            requires
                n >= 0,
                interval >= 1,
        ;
    } else {
        let span = event_ts - last;
        let whole = span / (interval as int);
        assert(whole * interval <= span < (whole + 1) * interval) by (nonlinear_arith)
            requires
                whole == span / (interval as int),
                interval >= 1,
                span >= 0,
        ;
        if n * interval <= span {
            assert(n <= whole) by (nonlinear_arith)
                requires
                    n * interval <= span,
                    span < (whole + 1) * interval,
                    interval >= 1,
            ;
        } else {
            assert(n == 0);
        }
        if n < MAX_TIMER_TICKS_PER_EVENT {
            assert(span < (n + 1) * interval) by (nonlinear_arith)
                requires
                    event_ts < last + n * interval || event_ts - (last + n * interval) < interval,
                    span == event_ts - last,
                    interval >= 1,
            ;
            assert(whole < n + 1) by (nonlinear_arith)
                requires
                    whole * interval <= span,
                    span < (n + 1) * interval,
                    interval >= 1,
            ;
        }
    }
}

/// The mid price of a synthetic tape after a step of `drift` ticks: never
/// below 1.
pub open spec fn drifted(mid: i64, drift: i64) -> int {
    if mid + drift < 1 {
        1
    } else if mid + drift > i64::MAX {
        i64::MAX as int
    } else {
        mid + drift
    }
}

/// The price of a synthetic level `offset` ticks from the mid price: below
/// it for a bid and never below 1, above it for an ask.
pub open spec fn level_price(mid: int, side: Side, offset: i64) -> int {
    let raw = match side {
        Side::Bid => mid - offset,
        Side::Ask => mid + offset,
    };
    if raw < 1 {
        1
    } else if raw > i64::MAX {
        i64::MAX as int
    } else {
        raw
    }
}

/// The next step of a synthetic tape, from numbers drawn elsewhere: the
/// mid price drifts, and one level `offset` ticks from it is set to
/// `qty_lots`, or removed. Returns the new mid price and the update.
pub fn synth_update(
    mid: i64,
    drift: i64,
    side: Side,
    offset: i64,
    remove: bool,
    qty_lots: i64,
) -> (r: (i64, LevelUpdate))
    requires
        qty_lots >= 0,
    ensures
        r.0 == drifted(mid, drift),
        r.1.side == side,
        r.1.price@ == level_price(drifted(mid, drift), side, offset),
        r.1.qty@ == (if remove {
            0
        } else {
            qty_lots as int
        }),
{
    let moved: i128 = mid as i128 + drift as i128;
    let new_mid: i64 = if moved < 1 {
        1
    } else if moved > i64::MAX as i128 {
        i64::MAX
    } else {
        moved as i64
    };
    let raw: i128 = match side {
        Side::Bid => new_mid as i128 - offset as i128,
        Side::Ask => new_mid as i128 + offset as i128,
    };
    let price_ticks: i64 = if raw < 1 {
        1
    } else if raw > i64::MAX as i128 {
        i64::MAX
    } else {
        raw as i64
    };
    let qty = if remove {
        Qty::zero()
    } else {
        Qty::from_valid(qty_lots)
    };
    (new_mid, LevelUpdate { side, price: Price::from_valid(price_ticks), qty })
}

/// A venue that holds no order answers no book with a report, and stays
/// as it is.
pub proof fn lemma_empty_venue_sweeps_nothing(
    m: CountingModel<VenueView>,
    book: BookView,
    swept: Seq<ExecutionReport>,
    next: CountingModel<VenueView>,
)
    requires
        m.inner.live_orders == Map::<u64, LiveOrder>::empty(),
        CountingVenue::<SimVenue>::sweep_ok(m, book, Seq::empty(), swept, next),
    ensures
        swept.len() == 0,
        next == m,
{
    let rs = swept.skip(0);
    assert(rs =~= swept);
    if rs.len() > 0 {
        let id = rs[0].client_order_id;
        assert(m.inner.sweep_price(id.0, book.best_bid(), book.best_ask()) is Some);
    }
    assert(ids_of(rs).to_set() =~= Set::<u64>::empty());
    assert(m.inner.live_orders.remove_keys(ids_of(rs).to_set()) =~= m.inner.live_orders);
    assert(appended(Seq::empty(), swept) =~= swept);
    assert(count_fills(swept) == 0);
}

/// With a strategy that asks for nothing, timer ticks leave the engine as
/// it is, whatever the venue and the risk chain.
pub proof fn lemma_idle_ticks_change_nothing<V: ExecutionVenue>(
    m: EngineModel<(), V::Model>,
    judge: Judge,
    last: u64,
    interval: u64,
    n: nat,
    symbol: SymbolId,
)
    requires
        m.queue.len() == 0,
    ensures
        Simulation::<NoopStrategy, V>::ticked(m, judge, last, interval, n, symbol) == Some(m),
    decreases n,
{
    if n > 0 {
        lemma_idle_ticks_change_nothing::<V>(m, judge, last, interval, (n - 1) as nat, symbol);
        reveal_with_fuel(Engine::drained, 2);
        assert(m.queue =~= Seq::empty());
    }
}

/// With a strategy that asks for nothing and a venue that holds no order,
/// an event moves the book and nothing else: no order is sent, nothing is
/// filled, and the order manager, the portfolio and the venue stay as they
/// are.
pub proof fn lemma_idle_event_moves_the_book_only(
    ticked: EngineModel<(), CountingModel<VenueView>>,
    judge: Judge,
    event: MarketEvent,
    applied: bool,
    after: EngineModel<(), CountingModel<VenueView>>,
    judge_after: Judge,
)
    requires
        ticked.queue.len() == 0,
        ticked.venue.inner.live_orders == Map::<u64, LiveOrder>::empty(),
        Simulation::<NoopStrategy, CountingVenue<SimVenue>>::event_follows(
            ticked,
            judge,
            event,
            applied,
            after,
            judge_after,
        ),
    ensures
        after == (EngineModel {
            book: if applied {
                ticked.book.apply_event(event)
            } else {
                ticked.book
            },
            ..ticked
        }),
        judge_after == judge,
{
    assert(ticked.queue =~= Seq::empty());
    if applied {
        let (swept, venue_after) = choose|
            swept: Seq<ExecutionReport>,
            venue_after: CountingModel<VenueView>,
        |
            Engine::<NoopStrategy, CountingVenue<SimVenue>>::event_outcome(
                ticked,
                judge,
                event,
                swept,
                venue_after,
                after,
                judge_after,
            );
        lemma_empty_venue_sweeps_nothing(
            ticked.venue,
            ticked.book.apply_event(event),
            swept,
            venue_after,
        );
        reveal_with_fuel(Engine::after_reports, 2);
        reveal_with_fuel(Engine::drained, 2);
        assert(swept =~= Seq::empty());
    }
}

} // verus!
