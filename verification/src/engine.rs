//! The engine: for each market event or timer tick it moves the book, asks
//! the strategy, gates its intents by risk, registers them with the order
//! manager, sends them to the venue and folds the venue's reports back
//! into the order manager, the portfolio and the strategy.

use crate::book::{BookView, OrderBook};
use crate::metrics::{LatencyStats, Stopwatch, MAX_SAMPLE};
use crate::oms::{Oms, OmsView};
use crate::orders::{ExecutionReport, Intent};
use crate::portfolio::{Portfolio, PortfolioView};
use crate::risk::{fold_action, Judge, RiskEngine};
use crate::strategy::{ContextSnapshot, Strategy};
use crate::types::{MarketEvent, SymbolId};
use crate::venue::ExecutionVenue;
use std::collections::VecDeque;
use vstd::multiset::Multiset;
use vstd::prelude::*;

verus! {

/// The most intents that one event or tick may lead the engine to handle.
pub const MAX_INTENT_STEPS: usize = 1024;

/// What an engine holds, as far as its parts say: the book, the order
/// manager, the portfolio, what each policy of the risk chain remembers,
/// what the strategy and the venue say of themselves, and the intents that
/// wait to be handled.
pub struct EngineModel<SM, VM> {
    pub book: BookView,
    pub oms: OmsView,
    pub portfolio: PortfolioView,
    pub risk: Seq<Seq<int>>,
    pub strategy: SM,
    pub venue: VM,
    pub queue: Seq<Intent>,
}

/// The order manager after a run of reports, first to last.
pub open spec fn oms_after(oms: OmsView, reports: Seq<ExecutionReport>) -> OmsView
    decreases reports.len(),
{
    if reports.len() == 0 {
        oms
    } else {
        oms_after(oms, reports.drop_last()).after_report(reports.last())
    }
}

/// The portfolio after a run of reports, first to last.
pub open spec fn portfolio_after(portfolio: PortfolioView, reports: Seq<ExecutionReport>) -> PortfolioView
    decreases reports.len(),
{
    if reports.len() == 0 {
        portfolio
    } else {
        portfolio_after(portfolio, reports.drop_last()).folded(reports.last())
    }
}

/// The engine. It owns the book and lends it to the venue for each call.
pub struct Engine<S: Strategy, V: ExecutionVenue> {
    book: OrderBook,
    portfolio: Portfolio,
    oms: Oms,
    risk: RiskEngine,
    strategy: S,
    venue: V,
    latency: LatencyStats,
    intent_queue: VecDeque<Intent>,
    intent_buffer: Vec<Intent>,
    report_buffer: Vec<ExecutionReport>,
}

/// Moves the intents of one callback to the end of the queue, in order, and
/// leaves the buffer empty.
pub fn enqueue_all(queue: &mut VecDeque<Intent>, intents: &mut Vec<Intent>)
    ensures
        final(queue)@ == old(queue)@ + old(intents)@,
        final(intents)@.len() == 0,
{
    let mut i: usize = 0;
    while i < intents.len()
        invariant
            i <= intents.len(),
            intents@ == old(intents)@,
            queue@ == old(queue)@ + intents@.take(i as int),
        decreases intents.len() - i,
    {
        let intent = intents[i].clone();
        queue.push_back(intent);
        assert(intents@.take(i + 1) =~= intents@.take(i as int).push(intents@[i as int]));
        assert(queue@ =~= old(queue)@ + intents@.take(i + 1));
        i = i + 1;
    }
    assert(intents@.take(i as int) =~= intents@);
    intents.clear();
}

impl<S: Strategy, V: ExecutionVenue> Engine<S, V> {
    /// The book.
    pub closed spec fn spec_book(&self) -> OrderBook {
        self.book
    }

    /// The order manager.
    pub closed spec fn spec_oms(&self) -> Oms {
        self.oms
    }

    /// The portfolio.
    pub closed spec fn spec_portfolio(&self) -> Portfolio {
        self.portfolio
    }

    /// The latency statistics.
    pub closed spec fn spec_latency(&self) -> LatencyStats {
        self.latency
    }

    /// The risk chain.
    pub closed spec fn spec_risk(&self) -> RiskEngine {
        self.risk
    }

    /// How many policies the risk chain holds.
    pub open spec fn spec_risk_len(&self) -> nat {
        self.spec_risk().spec_len()
    }

    /// The strategy.
    pub closed spec fn spec_strategy(&self) -> S {
        self.strategy
    }

    /// The venue.
    pub closed spec fn spec_venue(&self) -> V {
        self.venue
    }

    /// The book, the order manager, the portfolio and the latency
    /// statistics are well formed.
    pub open spec fn wf(&self) -> bool {
        &&& self.spec_book().wf()
        &&& self.spec_oms().wf()
        &&& self.spec_portfolio().wf()
        &&& self.spec_latency().wf()
    }

    /// Whether nothing that the engine holds has changed but, at most, its
    /// latency statistics.
    pub open spec fn untouched(&self, before: &Self) -> bool {
        &&& self.spec_book()@ == before.spec_book()@
        &&& self.spec_oms()@ == before.spec_oms()@
        &&& self.spec_portfolio()@ == before.spec_portfolio()@
        &&& self.spec_risk() == before.spec_risk()
        &&& self.spec_strategy() == before.spec_strategy()
        &&& self.spec_venue() == before.spec_venue()
    }

    /// The engine's model with the given intents waiting.
    pub open spec fn model_with(&self, queue: Seq<Intent>) -> EngineModel<S::Model, V::Model> {
        EngineModel {
            book: self.spec_book()@,
            oms: self.spec_oms()@,
            portfolio: self.spec_portfolio()@,
            risk: self.spec_risk().spec_memories(),
            strategy: self.spec_strategy().model(),
            venue: self.spec_venue().model(),
            queue,
        }
    }

    /// The engine's model between two calls: no intent waits.
    pub open spec fn model(&self) -> EngineModel<S::Model, V::Model> {
        self.model_with(Seq::empty())
    }

    /// The context that the strategy sees at a time, for a symbol.
    pub open spec fn context_at(
        m: EngineModel<S::Model, V::Model>,
        ts_ns: u64,
        symbol: SymbolId,
    ) -> ContextSnapshot {
        ContextSnapshot::of(
            ts_ns,
            symbol,
            m.book.best_bid(),
            m.book.best_ask(),
            m.portfolio.position(symbol).position_lots,
            m.oms.open_orders(),
        )
    }

    /// The engine after one report: the report goes to the order manager,
    /// then to the portfolio, then to the strategy, which sees the two as
    /// they then are, and what the strategy asks for goes to the end of the
    /// queue. Nothing, where the strategy does not say what it does.
    pub open spec fn after_report(
        m: EngineModel<S::Model, V::Model>,
        report: ExecutionReport,
    ) -> Option<EngineModel<S::Model, V::Model>> {
        let folded = EngineModel {
            oms: m.oms.after_report(report),
            portfolio: m.portfolio.folded(report),
            ..m
        };
        match S::report_step(
            m.strategy,
            Self::context_at(folded, report.ts_ns, report.symbol),
            report,
        ) {
            Some((asks, next)) => Some(
                EngineModel { strategy: next, queue: m.queue + asks, ..folded },
            ),
            None => None,
        }
    }

    /// The engine after a run of reports, first to last.
    pub open spec fn after_reports(
        m: EngineModel<S::Model, V::Model>,
        reports: Seq<ExecutionReport>,
    ) -> Option<EngineModel<S::Model, V::Model>>
        decreases reports.len(),
    {
        if reports.len() == 0 {
            Some(m)
        } else {
            match Self::after_reports(m, reports.drop_last()) {
                Some(mid) => Self::after_report(mid, reports.last()),
                None => None,
            }
        }
    }

    /// The engine after an intent that the risk chain let through has been
    /// routed. An intent that the order manager gives no request for is
    /// dropped: a new order for which no id is left, and a cancel or a
    /// replace of an order that was never placed. Any other intent is
    /// registered with the order manager and sent to the venue, and the
    /// venue's reports are folded in. Nothing, where the venue or the
    /// strategy does not say what it does.
    pub open spec fn routed(m: EngineModel<S::Model, V::Model>, intent: Intent, ts_ns: u64) -> Option<
        EngineModel<S::Model, V::Model>,
    > {
        match m.oms.request_for(intent, ts_ns) {
            None => Some(m),
            Some(request) => match V::submit_step(m.venue, m.book, request) {
                Some((reports, venue)) => Self::after_reports(
                    EngineModel { oms: m.oms.after_intent(intent), venue, ..m },
                    reports,
                ),
                None => None,
            },
        }
    }

    /// The engine after the intent at the head of the queue has been
    /// handled. The risk chain, which judges as `judge` says, sees the
    /// intent with the engine as it then is, and its policies remember what
    /// they do: what it turns away is dropped, and what it lets through, as
    /// it came or changed, is routed. Nothing, where a policy, the venue or
    /// the strategy does not say what it does.
    pub open spec fn drain_step(
        m: EngineModel<S::Model, V::Model>,
        judge: Judge,
        ts_ns: u64,
        symbol: SymbolId,
    ) -> Option<EngineModel<S::Model, V::Model>> {
        match judge(m.risk, Self::context_at(m, ts_ns, symbol), m.queue[0]) {
            None => None,
            Some(ruling) => {
                let rest = EngineModel { queue: m.queue.skip(1), risk: ruling.memories, ..m };
                match ruling.verdict.folded() {
                    Ok(intent) => Self::routed(rest, intent, ts_ns),
                    Err(_) => Some(rest),
                }
            },
        }
    }

    /// The engine after the queue has been drained: intents are handled
    /// from the head, first in first out, until none waits or `steps` have
    /// been handled.
    pub open spec fn drained(
        m: EngineModel<S::Model, V::Model>,
        judge: Judge,
        ts_ns: u64,
        symbol: SymbolId,
        steps: nat,
    ) -> Option<EngineModel<S::Model, V::Model>>
        decreases steps,
    {
        if steps == 0 || m.queue.len() == 0 {
            Some(m)
        } else {
            match Self::drain_step(m, judge, ts_ns, symbol) {
                Some(next) => Self::drained(next, judge, ts_ns, symbol, (steps - 1) as nat),
                None => None,
            }
        }
    }

    /// The engine at rest: intents that still wait are dropped.
    pub open spec fn settled(m: EngineModel<S::Model, V::Model>) -> EngineModel<
        S::Model,
        V::Model,
    > {
        EngineModel { queue: Seq::empty(), ..m }
    }

    /// The engine after a timer tick, with a risk chain that judges as
    /// `judge` says: the strategy sees the tick, and what it asks for is
    /// drained.
    pub open spec fn timer_result(
        m: EngineModel<S::Model, V::Model>,
        judge: Judge,
        ts_ns: u64,
        symbol: SymbolId,
    ) -> Option<EngineModel<S::Model, V::Model>> {
        match S::timer_step(m.strategy, Self::context_at(m, ts_ns, symbol)) {
            Some((asks, next)) => match Self::drained(
                EngineModel { strategy: next, queue: asks, ..m },
                judge,
                ts_ns,
                symbol,
                MAX_INTENT_STEPS as nat,
            ) {
                Some(done) => Some(Self::settled(done)),
                None => None,
            },
            None => None,
        }
    }

    /// The engine after a market event for its symbol, with a risk chain
    /// that judges as `judge` says, where the venue's sweep of the new book
    /// gave `swept` and left the venue as `venue_after`: the book takes the
    /// event in, the swept reports are folded in, the strategy sees the
    /// event, and what it has asked for by then is drained.
    pub open spec fn event_result(
        m: EngineModel<S::Model, V::Model>,
        judge: Judge,
        event: MarketEvent,
        swept: Seq<ExecutionReport>,
        venue_after: V::Model,
    ) -> Option<EngineModel<S::Model, V::Model>> {
        let start = EngineModel {
            book: m.book.apply_event(event),
            venue: venue_after,
            queue: Seq::empty(),
            ..m
        };
        match Self::after_reports(start, swept) {
            Some(folded) => match S::market_event_step(
                folded.strategy,
                Self::context_at(folded, event.spec_ts_ns(), event.spec_symbol()),
                event,
            ) {
                Some((asks, next)) => match Self::drained(
                    EngineModel { strategy: next, queue: folded.queue + asks, ..folded },
                    judge,
                    event.spec_ts_ns(),
                    event.spec_symbol(),
                    MAX_INTENT_STEPS as nat,
                ) {
                    Some(done) => Some(Self::settled(done)),
                    None => None,
                },
                None => None,
            },
            None => None,
        }
    }

    /// Whether `after` is an engine that `before` may have become by a
    /// market event for its symbol: the venue's sweep of the new book gave
    /// `swept` and left the venue as `venue_after`, and, with a risk chain
    /// that judges as `judge` says, the rest followed as
    /// [`Engine::event_result`] says and left a chain that judges as
    /// `judge_after` says, which is the same.
    pub open spec fn event_outcome(
        before: EngineModel<S::Model, V::Model>,
        judge: Judge,
        event: MarketEvent,
        swept: Seq<ExecutionReport>,
        venue_after: V::Model,
        after: EngineModel<S::Model, V::Model>,
        judge_after: Judge,
    ) -> bool {
        &&& V::sweep_ok(
            before.venue,
            before.book.apply_event(event),
            Seq::empty(),
            swept,
            venue_after,
        )
        &&& Self::event_result(before, judge, event, swept, venue_after) matches Some(m) ==> after
            == m && judge_after == judge
    }

    pub fn new(
        book: OrderBook,
        portfolio: Portfolio,
        oms: Oms,
        risk: RiskEngine,
        strategy: S,
        venue: V,
    ) -> (r: Self)
        requires
            book.wf(),
            portfolio.wf(),
            oms.wf(),
        ensures
            r.wf(),
            r.spec_book() == book,
            r.spec_portfolio() == portfolio,
            r.spec_oms() == oms,
            r.spec_strategy() == strategy,
            r.spec_venue() == venue,
            r.spec_risk() == risk,
            r.spec_latency()@ == Multiset::<u64>::empty(),
    {
        Engine {
            book,
            portfolio,
            oms,
            risk,
            strategy,
            venue,
            latency: LatencyStats::new(),
            intent_queue: VecDeque::new(),
            intent_buffer: Vec::new(),
            report_buffer: Vec::new(),
        }
    }

    /// An engine around a book that the venue reads as well. The engine
    /// holds the book and lends it to the venue for each call, so this is
    /// [`Engine::new`].
    pub fn with_shared_book(
        book: OrderBook,
        portfolio: Portfolio,
        oms: Oms,
        risk: RiskEngine,
        strategy: S,
        venue: V,
    ) -> (r: Self)
        requires
            book.wf(),
            portfolio.wf(),
            oms.wf(),
        ensures
            r.wf(),
            r.spec_book() == book,
            r.spec_portfolio() == portfolio,
            r.spec_oms() == oms,
            r.spec_strategy() == strategy,
            r.spec_venue() == venue,
            r.spec_risk() == risk,
            r.spec_latency()@ == Multiset::<u64>::empty(),
    {
        Self::new(book, portfolio, oms, risk, strategy, venue)
    }

    /// Handles one market event and measures how long that took. An event
    /// for another symbol than the book's is dropped: the result is `false`,
    /// nothing changes and nothing is measured. Otherwise the event goes
    /// through [`Engine::on_market_event_deterministic`] and the time it
    /// took, one nanosecond at least, is added to the latency statistics.
    pub fn on_market_event(&mut self, event: &MarketEvent) -> (applied: bool)
        requires
            old(self).wf(),
        ensures
            final(self).wf(),
            applied == (event.spec_symbol() == old(self).spec_book().spec_symbol()),
            final(self).spec_book().spec_symbol() == old(self).spec_book().spec_symbol(),
            final(self).spec_risk_len() == old(self).spec_risk_len(),
            final(self).spec_oms()@.extends(old(self).spec_oms()@),
            applied ==> final(self).spec_book()@ == old(self).spec_book()@.apply_event(*event),
            applied ==> exists|swept: Seq<ExecutionReport>, venue_after: V::Model|
                Self::event_outcome(
                    old(self).model(),
                    old(self).spec_risk().judge(),
                    *event,
                    swept,
                    venue_after,
                    final(self).model(),
                    final(self).spec_risk().judge(),
                ),
            !applied ==> final(self).untouched(old(self)) && final(self).spec_latency()@ == old(
                self,
            ).spec_latency()@,
            applied ==> exists|ns: u64|
                1 <= ns <= MAX_SAMPLE && final(self).spec_latency()@ == old(
                    self,
                ).spec_latency()@.insert(ns),
    {
        // Measures book apply, strategy decision, routing and the venue's answers.
        let watch = Stopwatch::start();
        let applied = self.on_market_event_deterministic(event);
        if !applied {
            return false;
        }
        let ghost handled = self.model();
        let ns = watch.elapsed_sample();
        self.latency.record(ns);
        proof {
            assert(self.model() == handled);
            let (swept, venue_after) = choose|swept: Seq<ExecutionReport>, venue_after: V::Model|
                Self::event_outcome(
                    old(self).model(),
                    old(self).spec_risk().judge(),
                    *event,
                    swept,
                    venue_after,
                    handled,
                    self.spec_risk().judge(),
                );
            assert(Self::event_outcome(
                old(self).model(),
                old(self).spec_risk().judge(),
                *event,
                swept,
                venue_after,
                self.model(),
                self.spec_risk().judge(),
            ));
        }
        true
    }

    /// Handles one market event. An event for another symbol than the
    /// book's is dropped: the result is `false` and nothing changes.
    /// Otherwise the book takes the event in; the venue sweeps the new book
    /// and its reports are folded in; the strategy sees the event; its
    /// intents, and those that the reports of their orders lead it to, are
    /// handled in the order in which they came, up to the cap; and the result
    /// is `true`. The engine is then as [`Engine::event_result`] says,
    /// wherever the strategy, the venue and the policies say what they do.
    pub fn on_market_event_deterministic(&mut self, event: &MarketEvent) -> (applied: bool)
        requires
            old(self).wf(),
        ensures
            final(self).wf(),
            applied == (event.spec_symbol() == old(self).spec_book().spec_symbol()),
            final(self).spec_book().spec_symbol() == old(self).spec_book().spec_symbol(),
            final(self).spec_risk_len() == old(self).spec_risk_len(),
            final(self).spec_oms()@.extends(old(self).spec_oms()@),
            applied ==> final(self).spec_book()@ == old(self).spec_book()@.apply_event(*event),
            applied ==> exists|swept: Seq<ExecutionReport>, venue_after: V::Model|
                Self::event_outcome(
                    old(self).model(),
                    old(self).spec_risk().judge(),
                    *event,
                    swept,
                    venue_after,
                    final(self).model(),
                    final(self).spec_risk().judge(),
                ),
            !applied ==> final(self).untouched(old(self)),
            final(self).spec_latency() == old(self).spec_latency(),
    {
        let ghost before = self.model();
        let applied = self.book.apply(event);
        if !applied {
            return false;
        }
        let ts_ns = event.ts_ns();
        let symbol = event.symbol();
        let mut queue: VecDeque<Intent> = VecDeque::new();
        let mut intents: Vec<Intent> = Vec::new();
        let mut reports: Vec<ExecutionReport> = Vec::new();
        std::mem::swap(&mut self.intent_queue, &mut queue);
        std::mem::swap(&mut self.intent_buffer, &mut intents);
        std::mem::swap(&mut self.report_buffer, &mut reports);
        queue.clear();
        intents.clear();
        reports.clear();

        self.venue.on_book_update(&self.book, &mut reports);
        let ghost swept = reports@;
        let ghost venue_after = self.venue.model();
        let ghost start = self.model_with(queue@);
        assert(queue@ =~= Seq::<Intent>::empty());
        self.process_reports(&mut reports, &mut queue, &mut intents);
        let ghost folded = self.model_with(queue@);

        let ctx = self.build_context(ts_ns, symbol);
        self.strategy.on_market_event(&ctx, event, &mut intents);
        let ghost asked = intents@;
        enqueue_all(&mut queue, &mut intents);
        let ghost loaded = self.model_with(queue@);
        self.handle_intent_queue(ts_ns, symbol, &mut queue, &mut reports, &mut intents);
        proof {
            let done = self.model_with(queue@);
            assert(Self::settled(done) == self.model());
            if let Some(m) = Self::event_result(
                before,
                old(self).spec_risk().judge(),
                *event,
                swept,
                venue_after,
            ) {
                assert(start == (EngineModel {
                    book: before.book.apply_event(*event),
                    venue: venue_after,
                    queue: Seq::empty(),
                    ..before
                }));
                assert(Self::after_reports(start, swept) == Some(folded));
                assert(ctx == Self::context_at(folded, ts_ns, symbol));
                let step = S::market_event_step(
                    folded.strategy,
                    Self::context_at(folded, ts_ns, symbol),
                    *event,
                )->Some_0;
                assert(asked =~= step.0);
                assert(loaded == (EngineModel {
                    strategy: step.1,
                    queue: folded.queue + step.0,
                    ..folded
                }));
            }
            assert(Self::event_outcome(
                before,
                old(self).spec_risk().judge(),
                *event,
                swept,
                venue_after,
                self.model(),
                self.spec_risk().judge(),
            ));
        }
        let ghost handled = self.model();

        std::mem::swap(&mut self.intent_queue, &mut queue);
        std::mem::swap(&mut self.intent_buffer, &mut intents);
        std::mem::swap(&mut self.report_buffer, &mut reports);
        proof {
            assert(self.model() == handled);
            assert(before == old(self).model());
            assert(Self::event_outcome(
                old(self).model(),
                old(self).spec_risk().judge(),
                *event,
                swept,
                venue_after,
                self.model(),
                self.spec_risk().judge(),
            ));
        }
        true
    }

    /// Handles one timer tick: the strategy sees the tick, and its
    /// intents are handled as after a market event. The book, the latency
    /// statistics and the risk chain's length stay as they are, and no order
    /// leaves the order manager. The engine is then as
    /// [`Engine::timer_result`] says, wherever the strategy, the venue and
    /// the policies say what they do.
    pub fn on_timer(&mut self, ts_ns: u64, symbol: SymbolId)
        requires
            old(self).wf(),
        ensures
            final(self).wf(),
            final(self).spec_book() == old(self).spec_book(),
            final(self).spec_latency() == old(self).spec_latency(),
            final(self).spec_risk_len() == old(self).spec_risk_len(),
            final(self).spec_oms()@.extends(old(self).spec_oms()@),
            Self::timer_result(old(self).model(), old(self).spec_risk().judge(), ts_ns, symbol)
                matches Some(m) ==> final(self).model() == m && final(self).spec_risk().judge()
                == old(self).spec_risk().judge(),
    {
        let ghost before = self.model();
        let mut queue: VecDeque<Intent> = VecDeque::new();
        let mut intents: Vec<Intent> = Vec::new();
        let mut reports: Vec<ExecutionReport> = Vec::new();
        std::mem::swap(&mut self.intent_queue, &mut queue);
        std::mem::swap(&mut self.intent_buffer, &mut intents);
        std::mem::swap(&mut self.report_buffer, &mut reports);
        queue.clear();
        intents.clear();
        reports.clear();

        let ctx = self.build_context(ts_ns, symbol);
        self.strategy.on_timer(&ctx, &mut intents);
        let ghost asked = intents@;
        enqueue_all(&mut queue, &mut intents);
        let ghost loaded = self.model_with(queue@);
        self.handle_intent_queue(ts_ns, symbol, &mut queue, &mut reports, &mut intents);
        proof {
            let done = self.model_with(queue@);
            assert(Self::settled(done) == self.model());
            if let Some(m) = Self::timer_result(
                before,
                old(self).spec_risk().judge(),
                ts_ns,
                symbol,
            ) {
                let step = S::timer_step(
                    before.strategy,
                    Self::context_at(before, ts_ns, symbol),
                )->Some_0;
                assert(asked =~= step.0);
                assert(loaded == (EngineModel { strategy: step.1, queue: step.0, ..before }));
            }
        }

        std::mem::swap(&mut self.intent_queue, &mut queue);
        std::mem::swap(&mut self.intent_buffer, &mut intents);
        std::mem::swap(&mut self.report_buffer, &mut reports);
    }

    /// Whether the intent at the head of the queue is a new order that
    /// nothing stands in the way of: the risk chain is empty and the order
    /// manager has an id left.
    pub open spec fn head_is_free_order(&self, queue: Seq<Intent>) -> bool {
        &&& queue.len() > 0
        &&& queue[0] is PlaceLimit
        &&& self.spec_risk_len() == 0
        &&& self.spec_oms()@.next_id < u64::MAX
    }

    /// Takes intents from the front of the queue until it is empty or the
    /// cap is reached. Each goes through the risk chain; what passes is
    /// registered with the order manager and sent to the venue, and the
    /// venue's reports are folded in, which may add to the queue. An order
    /// for which the order manager has no id left is dropped.
    ///
    /// The engine and the queue are then as [`Engine::drained`] says,
    /// wherever the strategy, the venue and the policies say what they do.
    /// Whatever they do, the book and the latency statistics stay as they
    /// are and no order leaves the order manager.
    fn handle_intent_queue(
        &mut self,
        ts_ns: u64,
        symbol: SymbolId,
        queue: &mut VecDeque<Intent>,
        reports: &mut Vec<ExecutionReport>,
        intents: &mut Vec<Intent>,
    )
        requires
            old(self).wf(),
        ensures
            final(self).wf(),
            final(self).spec_book() == old(self).spec_book(),
            final(self).spec_latency() == old(self).spec_latency(),
            final(self).spec_risk_len() == old(self).spec_risk_len(),
            final(self).spec_oms()@.extends(old(self).spec_oms()@),
            old(queue)@.len() == 0 ==> final(self).untouched(old(self)) && final(queue)@.len() == 0,
            old(self).head_is_free_order(old(queue)@) ==> final(self).spec_oms()@.orders.contains_key(
                old(self).spec_oms()@.next_id,
            ) && final(self).spec_oms()@.next_id > old(self).spec_oms()@.next_id,
            Self::drained(
                old(self).model_with(old(queue)@),
                old(self).spec_risk().judge(),
                ts_ns,
                symbol,
                MAX_INTENT_STEPS as nat,
            ) matches Some(m) ==> final(self).model_with(final(queue)@) == m && final(self).spec_risk().judge() == old(self).spec_risk().judge(),
    {
        let ghost first_id = self.oms@.next_id;
        let ghost free_head = self.head_is_free_order(queue@);
        let ghost judge = self.spec_risk().judge();
        let ghost goal = Self::drained(
            self.model_with(queue@),
            judge,
            ts_ns,
            symbol,
            MAX_INTENT_STEPS as nat,
        );
        let mut processed_steps: usize = 0;
        while processed_steps < MAX_INTENT_STEPS
            invariant
                self.wf(),
                self.spec_book() == old(self).spec_book(),
                self.spec_latency() == old(self).spec_latency(),
                self.spec_risk_len() == old(self).spec_risk_len(),
                self.spec_oms()@.extends(old(self).spec_oms()@),
                first_id == old(self).spec_oms()@.next_id,
                free_head == old(self).head_is_free_order(old(queue)@),
                judge == old(self).spec_risk().judge(),
                goal is Some ==> self.spec_risk().judge() == judge,
                goal == Self::drained(
                    old(self).model_with(old(queue)@),
                    judge,
                    ts_ns,
                    symbol,
                    MAX_INTENT_STEPS as nat,
                ),
                processed_steps <= MAX_INTENT_STEPS,
                processed_steps == 0 ==> self.untouched(old(self)) && queue@ == old(queue)@,
                processed_steps > 0 ==> old(queue)@.len() > 0,
                processed_steps > 0 && free_head ==> self.spec_oms()@.orders.contains_key(first_id)
                    && self.spec_oms()@.next_id > first_id,
                goal is Some ==> goal == Self::drained(
                    self.model_with(queue@),
                    judge,
                    ts_ns,
                    symbol,
                    (MAX_INTENT_STEPS - processed_steps) as nat,
                ),
            decreases MAX_INTENT_STEPS - processed_steps,
        {
            let ghost cur = self.model_with(queue@);
            let ghost left = (MAX_INTENT_STEPS - processed_steps) as nat;
            let intent = match queue.pop_front() {
                Some(intent) => intent,
                None => {
                    return ;
                },
            };
            assert(queue@ =~= cur.queue.skip(1));
            processed_steps = processed_steps + 1;
            let intent_ctx = self.build_context(ts_ns, symbol);
            let ghost raised = intent;
            let ghost chain = self.risk;
            let decision = self.risk.evaluate(&intent_ctx, &intent);
            let ghost told = goal is Some;
            let ghost ruling = judge(cur.risk, intent_ctx, raised);
            let ghost rest = EngineModel {
                queue: cur.queue.skip(1),
                risk: self.spec_risk().spec_memories(),
                ..cur
            };
            proof {
                assert(intent_ctx == Self::context_at(cur, ts_ns, symbol));
                assert(raised == cur.queue[0]);
                if told {
                    assert(Self::drained(cur, judge, ts_ns, symbol, left) is Some);
                    assert(Self::drain_step(cur, judge, ts_ns, symbol) is Some);
                    assert(chain.judge() == judge);
                    assert(ruling == chain.ruling(intent_ctx, raised));
                    assert(ruling is Some);
                    assert(rest.risk == ruling->Some_0.memories);
                }
            }
            let intent = match fold_action(decision) {
                Ok(intent) => intent,
                Err(_) => {
                    assert(told ==> Self::drain_step(cur, judge, ts_ns, symbol) == Some(rest));
                    continue ;
                },
            };
            assert(told ==> Self::drain_step(cur, judge, ts_ns, symbol) == Self::routed(
                rest,
                intent,
                ts_ns,
            ));
            proof {
                self.oms@.lemma_steps_extend(intent, arbitrary());
            }
            let ghost before_intent = self.oms@;
            let request = match self.oms.apply_intent(intent, ts_ns) {
                Some(request) => request,
                None => {
                    assert(told ==> Self::drain_step(cur, judge, ts_ns, symbol) == Some(rest));
                    continue ;
                },
            };
            let ghost registered = self.oms@;
            assert(registered.extends(before_intent));
            assert(free_head ==> registered.orders.contains_key(first_id) && registered.next_id
                > first_id);
            reports.clear();
            self.venue.submit(&self.book, &request, reports);
            let ghost answered = reports@;
            let ghost sent = self.model_with(queue@);
            self.process_reports(reports, queue, intents);
            proof {
                if told {
                    if let Some((given, venue)) = V::submit_step(cur.venue, cur.book, request) {
                        assert(answered =~= given);
                        assert(sent == (EngineModel {
                            oms: cur.oms.after_intent(intent),
                            venue,
                            ..rest
                        }));
                        assert(Self::drain_step(cur, judge, ts_ns, symbol) == Self::after_reports(
                            sent,
                            answered,
                        ));
                    } else {
                        assert(Self::drain_step(cur, judge, ts_ns, symbol) is None);
                    }
                }
            }
        }
    }

    /// Folds the venue's reports in, in the order in which they came: each
    /// goes to the order manager, then to the portfolio if its integers
    /// have room for it, then to the strategy, whose intents go to the end
    /// of the queue. Leaves `reports` empty.
    fn process_reports(
        &mut self,
        reports: &mut Vec<ExecutionReport>,
        queue: &mut VecDeque<Intent>,
        intents: &mut Vec<Intent>,
    )
        requires
            old(self).wf(),
        ensures
            final(self).wf(),
            final(self).spec_book() == old(self).spec_book(),
            final(self).spec_latency() == old(self).spec_latency(),
            final(self).spec_risk() == old(self).spec_risk(),
            final(self).spec_venue() == old(self).spec_venue(),
            final(self).spec_oms()@.extends(old(self).spec_oms()@),
            final(self).spec_oms()@ == oms_after(old(self).spec_oms()@, old(reports)@),
            final(self).spec_portfolio()@ == portfolio_after(
                old(self).spec_portfolio()@,
                old(reports)@,
            ),
            Self::after_reports(old(self).model_with(old(queue)@), old(reports)@) matches Some(m)
                ==> final(self).model_with(final(queue)@) == m,
            old(reports)@.len() == 0 ==> final(self).untouched(old(self)) && final(queue)@ == old(
                queue,
            )@,
            old(intents)@.len() == 0 ==> final(intents)@.len() == 0,
            final(reports)@.len() == 0,
    {
        let ghost start = self.model_with(queue@);
        let mut i: usize = 0;
        assert(reports@.take(0) =~= Seq::<ExecutionReport>::empty());
        while i < reports.len()
            invariant
                self.wf(),
                self.spec_book() == old(self).spec_book(),
                self.spec_latency() == old(self).spec_latency(),
                self.spec_risk() == old(self).spec_risk(),
                self.spec_venue() == old(self).spec_venue(),
                self.spec_oms()@.extends(old(self).spec_oms()@),
                reports@ == old(reports)@,
                start == old(self).model_with(old(queue)@),
                i <= reports.len(),
                i == 0 ==> self.untouched(old(self)) && queue@ == old(queue)@ && intents@ == old(
                    intents,
                )@,
                i > 0 ==> intents@.len() == 0,
                self.spec_oms()@ == oms_after(old(self).spec_oms()@, reports@.take(i as int)),
                self.spec_portfolio()@ == portfolio_after(
                    old(self).spec_portfolio()@,
                    reports@.take(i as int),
                ),
                Self::after_reports(start, reports@.take(i as int)) matches Some(m)
                    ==> self.model_with(queue@) == m,
            decreases reports.len() - i,
        {
            let report = reports[i];
            let ghost cur = self.model_with(queue@);
            proof {
                self.oms@.lemma_steps_extend(arbitrary(), report);
                assert(reports@.take(i + 1).drop_last() =~= reports@.take(i as int));
                assert(reports@.take(i + 1).last() == report);
            }
            self.fold_report(&report);
            let report_ctx = self.build_context(report.ts_ns, report.symbol);
            intents.clear();
            self.strategy.on_execution_report(&report_ctx, &report, intents);
            let ghost asked = intents@;
            enqueue_all(queue, intents);
            proof {
                if let Some(mid) = Self::after_reports(start, reports@.take(i as int)) {
                    if let Some(m) = Self::after_report(mid, report) {
                        let folded = EngineModel {
                            oms: mid.oms.after_report(report),
                            portfolio: mid.portfolio.folded(report),
                            ..mid
                        };
                        let step = S::report_step(
                            mid.strategy,
                            Self::context_at(folded, report.ts_ns, report.symbol),
                            report,
                        )->Some_0;
                        assert(asked =~= step.0);
                        assert(queue@ =~= mid.queue + step.0);
                    }
                }
            }
            i = i + 1;
        }
        assert(reports@.take(i as int) =~= reports@);
        reports.clear();
    }

    /// Folds one report into the order manager and the portfolio. The
    /// portfolio passes over a fill that its integers have no room for.
    pub fn fold_report(&mut self, report: &ExecutionReport)
        requires
            old(self).wf(),
        ensures
            final(self).wf(),
            final(self).spec_book() == old(self).spec_book(),
            final(self).spec_latency() == old(self).spec_latency(),
            final(self).spec_strategy() == old(self).spec_strategy(),
            final(self).spec_venue() == old(self).spec_venue(),
            final(self).spec_risk() == old(self).spec_risk(),
            final(self).spec_oms()@ == old(self).spec_oms()@.after_report(*report),
            final(self).spec_portfolio()@ == old(self).spec_portfolio()@.folded(*report),
    {
        self.oms.on_execution_report(report);
        self.portfolio.on_execution_report(report);
    }

    /// The engine's state as the strategy and the risk chain see it at
    /// `ts_ns`, for `symbol`.
    pub fn build_context(&self, ts_ns: u64, symbol: SymbolId) -> (r: ContextSnapshot)
        requires
            self.wf(),
        ensures
            r == Self::context_at(self.model(), ts_ns, symbol),
            r.wf(),
    {
        let best_bid = self.book.best_bid();
        let best_ask = self.book.best_ask();
        let position_lots = self.portfolio.position_lots(symbol);
        let open_orders = self.oms.open_orders();
        ContextSnapshot::new(ts_ns, symbol, best_bid, best_ask, position_lots, open_orders)
    }

    pub fn latency_stats(&self) -> (r: &LatencyStats)
        ensures
            *r == self.spec_latency(),
    {
        &self.latency
    }

    pub fn position_lots(&self, symbol: SymbolId) -> (r: i64)
        ensures
            r == self.spec_portfolio()@.position(symbol).position_lots,
    {
        self.portfolio.position_lots(symbol)
    }

    pub fn realized_pnl_ticks(&self, symbol: SymbolId) -> (r: i128)
        ensures
            r == self.spec_portfolio()@.position(symbol).realized_pnl_ticks,
    {
        self.portfolio.realized_pnl_ticks(symbol)
    }

    pub fn fees_paid_ticks(&self, symbol: SymbolId) -> (r: i128)
        ensures
            r == self.spec_portfolio()@.position(symbol).fees_paid_ticks,
    {
        self.portfolio.fees_paid_ticks(symbol)
    }

    /// The book.
    pub fn book(&self) -> (r: &OrderBook)
        ensures
            *r == self.spec_book(),
    {
        &self.book
    }

    /// The order manager.
    pub fn oms(&self) -> (r: &Oms)
        ensures
            *r == self.spec_oms(),
    {
        &self.oms
    }

    /// The portfolio.
    pub fn portfolio(&self) -> (r: &Portfolio)
        ensures
            *r == self.spec_portfolio(),
    {
        &self.portfolio
    }

    /// The strategy.
    pub fn strategy(&self) -> (r: &S)
        ensures
            *r == self.spec_strategy(),
    {
        &self.strategy
    }

    /// The venue.
    pub fn venue(&self) -> (r: &V)
        ensures
            *r == self.spec_venue(),
    {
        &self.venue
    }
}

} // verus!
