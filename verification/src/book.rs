//! The aggregate level-2 order book of one symbol: two price-ordered maps
//! from price to resting quantity.

use crate::types::{LevelUpdate, MarketEvent, Price, Qty, Side, SymbolId};
use std::collections::BTreeMap;
use vstd::prelude::*;

verus! {

/// What a book holds: for each side, the quantity resting at each price,
/// in ticks and lots.
pub struct BookView {
    pub bids: Map<int, int>,
    pub asks: Map<int, int>,
}

/// One side's levels after one `(price, qty)` change: a quantity of zero
/// removes the level, any other replaces it.
pub open spec fn with_level(levels: Map<int, int>, price: int, qty: int) -> Map<int, int> {
    if qty == 0 {
        levels.remove(price)
    } else {
        levels.insert(price, qty)
    }
}

/// The levels that a snapshot's list for one side stands for: each entry
/// with a quantity sets its price's level, later entries over earlier ones,
/// and entries of quantity zero are dropped.
pub open spec fn snapshot_levels(entries: Seq<(Price, Qty)>) -> Map<int, int>
    decreases entries.len(),
{
    if entries.len() == 0 {
        Map::empty()
    } else {
        let rest = snapshot_levels(entries.drop_last());
        let (price, qty) = entries.last();
        if qty@ == 0 {
            rest
        } else {
            rest.insert(price@, qty@)
        }
    }
}

/// Whether every level of one side holds a quantity above zero at a price
/// that is not negative.
pub open spec fn levels_wf(levels: Map<int, int>) -> bool {
    forall|p: int| #[trigger] levels.contains_key(p) ==> p >= 0 && levels[p] > 0
}

impl BookView {
    /// The book with no levels.
    pub open spec fn empty() -> BookView {
        BookView { bids: Map::empty(), asks: Map::empty() }
    }

    /// The levels of one side.
    pub open spec fn side(self, side: Side) -> Map<int, int> {
        match side {
            Side::Bid => self.bids,
            Side::Ask => self.asks,
        }
    }

    /// The book after one level update.
    pub open spec fn apply_update(self, update: LevelUpdate) -> BookView {
        match update.side {
            Side::Bid => BookView {
                bids: with_level(self.bids, update.price@, update.qty@),
                asks: self.asks,
            },
            Side::Ask => BookView {
                bids: self.bids,
                asks: with_level(self.asks, update.price@, update.qty@),
            },
        }
    }

    /// The book after a run of level updates, first to last.
    pub open spec fn apply_updates(self, updates: Seq<LevelUpdate>) -> BookView
        decreases updates.len(),
    {
        if updates.len() == 0 {
            self
        } else {
            self.apply_updates(updates.drop_last()).apply_update(updates.last())
        }
    }

    /// The book after an event for its own symbol: a delta changes the
    /// levels it names, a snapshot replaces both sides.
    pub open spec fn apply_event(self, event: MarketEvent) -> BookView {
        match event {
            MarketEvent::L2Delta { updates, .. } => self.apply_updates(updates@),
            MarketEvent::L2Snapshot { bids, asks, .. } => BookView {
                bids: snapshot_levels(bids@),
                asks: snapshot_levels(asks@),
            },
        }
    }

    /// The book after a run of events for its own symbol, first to last.
    pub open spec fn replay(self, events: Seq<MarketEvent>) -> BookView
        decreases events.len(),
    {
        if events.len() == 0 {
            self
        } else {
            self.replay(events.drop_last()).apply_event(events.last())
        }
    }

    /// Every level holds a quantity above zero at a price that is not
    /// negative.
    pub open spec fn wf(self) -> bool {
        levels_wf(self.bids) && levels_wf(self.asks)
    }

    /// The highest bid and its quantity, if there is a bid.
    pub open spec fn best_bid(self) -> Option<(int, int)> {
        if exists|p: int| self.is_best_bid(p) {
            let p = choose|p: int| self.is_best_bid(p);
            Some((p, self.bids[p]))
        } else {
            None
        }
    }

    /// The lowest ask and its quantity, if there is an ask.
    pub open spec fn best_ask(self) -> Option<(int, int)> {
        if exists|p: int| self.is_best_ask(p) {
            let p = choose|p: int| self.is_best_ask(p);
            Some((p, self.asks[p]))
        } else {
            None
        }
    }

    /// Whether `p` is a bid price and no bid is higher.
    pub open spec fn is_best_bid(self, p: int) -> bool {
        self.bids.contains_key(p) && forall|other: int| #[trigger]
            self.bids.contains_key(other) ==> other <= p
    }

    /// Whether `p` is an ask price and no ask is lower.
    pub open spec fn is_best_ask(self, p: int) -> bool {
        self.asks.contains_key(p) && forall|other: int| #[trigger]
            self.asks.contains_key(other) ==> p <= other
    }

    /// The distance from the best bid up to the best ask, where both sides
    /// hold a level and the ask is above the bid.
    pub open spec fn spread(self) -> Option<int> {
        match (self.best_bid(), self.best_ask()) {
            (Some(bid), Some(ask)) => {
                let (bid_price, _) = bid;
                let (ask_price, _) = ask;
                if ask_price > bid_price {
                    Some(ask_price - bid_price)
                } else {
                    None
                }
            },
            _ => None,
        }
    }

    /// Whether every bid is below `mid` and every ask at or above it.
    pub open spec fn split_at(self, mid: int) -> bool {
        &&& forall|p: int| #[trigger] self.bids.contains_key(p) ==> p < mid
        &&& forall|p: int| #[trigger] self.asks.contains_key(p) ==> mid <= p
    }

    /// There is at most one best bid.
    pub proof fn lemma_best_bid_unique(self, p: int)
        requires
            self.is_best_bid(p),
        ensures
            self.best_bid() == Some((p, self.bids[p])),
    {
        let q = choose|q: int| self.is_best_bid(q);
        assert(self.bids.contains_key(q) && self.bids.contains_key(p));
    }

    /// There is at most one best ask.
    pub proof fn lemma_best_ask_unique(self, p: int)
        requires
            self.is_best_ask(p),
        ensures
            self.best_ask() == Some((p, self.asks[p])),
    {
        let q = choose|q: int| self.is_best_ask(q);
        assert(self.asks.contains_key(q) && self.asks.contains_key(p));
    }

    /// A side without levels has no best price.
    pub proof fn lemma_no_bid(self)
        requires
            forall|p: int| !self.bids.contains_key(p),
        ensures
            self.best_bid() is None,
    {
    }

    /// A side without levels has no best price.
    pub proof fn lemma_no_ask(self)
        requires
            forall|p: int| !self.asks.contains_key(p),
        ensures
            self.best_ask() is None,
    {
    }
}

/// Whether every bid price among `updates` is below `mid` and every ask
/// price at or above it.
pub open spec fn updates_split_at(updates: Seq<LevelUpdate>, mid: int) -> bool {
    forall|i: int|
        0 <= i < updates.len() ==> match (#[trigger] updates[i]).side {
            Side::Bid => updates[i].price@ < mid,
            Side::Ask => mid <= updates[i].price@,
        }
}

/// Whether every price in a snapshot's bid list is below `mid` and every
/// price in its ask list at or above it.
pub open spec fn snapshot_split_at(bids: Seq<(Price, Qty)>, asks: Seq<(Price, Qty)>, mid: int) -> bool {
    &&& forall|i: int| 0 <= i < bids.len() ==> (#[trigger] bids[i]).0@ < mid
    &&& forall|i: int| 0 <= i < asks.len() ==> mid <= (#[trigger] asks[i]).0@
}

/// Whether an event keeps bids below `mid` and asks at or above it.
pub open spec fn event_split_at(event: MarketEvent, mid: int) -> bool {
    match event {
        MarketEvent::L2Delta { updates, .. } => updates_split_at(updates@, mid),
        MarketEvent::L2Snapshot { bids, asks, .. } => snapshot_split_at(bids@, asks@, mid),
    }
}

/// The place of the last update among `updates` for `(side, price)`, or -1
/// if there is none.
pub open spec fn last_update_for(updates: Seq<LevelUpdate>, side: Side, price: int) -> int
    decreases updates.len(),
{
    if updates.len() == 0 {
        -1
    } else if updates.last().side == side && updates.last().price@ == price {
        updates.len() - 1
    } else {
        last_update_for(updates.drop_last(), side, price)
    }
}

/// A level is in the book after a run of updates exactly as its last
/// update left it: present with that update's quantity if the quantity is
/// above zero, absent if it is zero, and as it was before if no update
/// names it. So a book fed with deltas holds the same levels as any other
/// last-write-wins map fed with them.
pub proof fn lemma_levels_follow_last_update(
    start: BookView,
    updates: Seq<LevelUpdate>,
    side: Side,
    price: int,
)
    ensures
        ({
            let end = start.apply_updates(updates).side(side);
            let at = last_update_for(updates, side, price);
            &&& -1 <= at < updates.len()
            &&& at == -1 ==> end.contains_key(price) == start.side(side).contains_key(price) && (
            end.contains_key(price) ==> end[price] == start.side(side)[price])
            &&& at >= 0 ==> updates[at].side == side && updates[at].price@ == price
                && end.contains_key(price) == (updates[at].qty@ != 0) && (end.contains_key(price)
                ==> end[price] == updates[at].qty@)
        }),
    decreases updates.len(),
{
    if updates.len() > 0 {
        lemma_levels_follow_last_update(start, updates.drop_last(), side, price);
    }
}

/// Every level that a snapshot's list stands for has the price of one of
/// the list's entries.
pub proof fn lemma_snapshot_levels_come_from_entries(entries: Seq<(Price, Qty)>)
    ensures
        forall|p: int| #[trigger]
            snapshot_levels(entries).contains_key(p) ==> exists|i: int|
                0 <= i < entries.len() && (#[trigger] entries[i]).0@ == p,
    decreases entries.len(),
{
    if entries.len() > 0 {
        lemma_snapshot_levels_come_from_entries(entries.drop_last());
        let rest = snapshot_levels(entries.drop_last());
        assert forall|p: int| #[trigger] snapshot_levels(entries).contains_key(p) implies exists|
            i: int,
        |
            0 <= i < entries.len() && (#[trigger] entries[i]).0@ == p by {
            if rest.contains_key(p) {
                let i = choose|i: int|
                    0 <= i < entries.drop_last().len() && (#[trigger] entries.drop_last()[i]).0@
                        == p;
                assert(entries[i].0@ == p);
            } else {
                assert(entries[entries.len() - 1].0@ == p);
            }
        }
    }
}

/// Updates that keep bids below `mid` and asks at or above it leave a book
/// that was split at `mid` split at `mid`.
pub proof fn lemma_updates_keep_split(start: BookView, updates: Seq<LevelUpdate>, mid: int)
    requires
        start.split_at(mid),
        updates_split_at(updates, mid),
    ensures
        start.apply_updates(updates).split_at(mid),
    decreases updates.len(),
{
    if updates.len() > 0 {
        lemma_updates_keep_split(start, updates.drop_last(), mid);
        let u = updates.last();
        assert(updates[updates.len() - 1] == u);
    }
}

/// On a tape whose events all keep bids below one price and asks at or
/// above it, the book never crosses: after any event, if both sides hold a
/// level, the best bid is below the best ask.
pub proof fn lemma_split_tape_keeps_book_uncrossed(start: BookView, event: MarketEvent, mid: int)
    requires
        start.split_at(mid),
        event_split_at(event, mid),
    ensures
        start.apply_event(event).split_at(mid),
        ({
            let end = start.apply_event(event);
            forall|bid: int, ask: int|
                end.is_best_bid(bid) && end.is_best_ask(ask) ==> bid < ask
        }),
{
    match event {
        MarketEvent::L2Delta { updates, .. } => {
            lemma_updates_keep_split(start, updates@, mid);
        },
        MarketEvent::L2Snapshot { bids, asks, .. } => {
            lemma_snapshot_levels_come_from_entries(bids@);
            lemma_snapshot_levels_come_from_entries(asks@);
        },
    }
}

/// The level updates of a run of events, in order: those of its deltas.
pub open spec fn updates_of(events: Seq<MarketEvent>) -> Seq<LevelUpdate>
    decreases events.len(),
{
    if events.len() == 0 {
        Seq::empty()
    } else {
        updates_of(events.drop_last()) + (match events.last() {
            MarketEvent::L2Delta { updates, .. } => updates@,
            MarketEvent::L2Snapshot { .. } => Seq::empty(),
        })
    }
}

/// Applying one run of updates and then another is applying the two as
/// one.
pub proof fn lemma_updates_in_two_runs(start: BookView, first: Seq<LevelUpdate>, then: Seq<LevelUpdate>)
    ensures
        start.apply_updates(first + then) == start.apply_updates(first).apply_updates(then),
    decreases then.len(),
{
    if then.len() == 0 {
        assert(first + then =~= first);
    } else {
        lemma_updates_in_two_runs(start, first, then.drop_last());
        assert((first + then).drop_last() =~= first + then.drop_last());
        assert((first + then).last() == then.last());
    }
}

/// A book fed with deltas, one event after the other, holds what it would
/// hold had it been fed all their updates in one run. With
/// [`lemma_levels_follow_last_update`], each level of a book that started
/// empty is there exactly if the last update that names it carries a
/// quantity, as in any other last-write-wins map of the same updates.
pub proof fn lemma_deltas_replay_as_one_run(start: BookView, events: Seq<MarketEvent>)
    requires
        forall|i: int| 0 <= i < events.len() ==> (#[trigger] events[i]) is L2Delta,
    ensures
        start.replay(events) == start.apply_updates(updates_of(events)),
    decreases events.len(),
{
    if events.len() > 0 {
        let before = events.drop_last();
        assert forall|i: int| 0 <= i < before.len() implies (#[trigger] before[i]) is L2Delta by {
            assert(before[i] == events[i]);
        }
        lemma_deltas_replay_as_one_run(start, before);
        assert(events[events.len() - 1] is L2Delta);
        match events.last() {
            MarketEvent::L2Delta { updates, .. } => {
                lemma_updates_in_two_runs(start, updates_of(before), updates@);
            },
            MarketEvent::L2Snapshot { .. } => {},
        }
    }
}

/// The top of one side of the book, in ticks and lots.
pub open spec fn top(best: Option<(Price, Qty)>) -> Option<(int, int)> {
    match best {
        Some((price, qty)) => Some((price@, qty@)),
        None => None,
    }
}

/// The levels of one side as the ordered map holds them, over integers.
pub open spec fn levels_of(m: Map<i64, i64>) -> Map<int, int> {
    Map::new(
        |p: int| i64::MIN <= p <= i64::MAX && m.contains_key(p as i64),
        |p: int| m[p as i64] as int,
    )
}

/// Calls `BTreeMap::first_key_value`. Trusted: the result is the entry with
/// the least key, and `None` exactly when the map is empty.
#[verifier::external_body]
fn first_level(levels: &BTreeMap<i64, i64>) -> (r: Option<(i64, i64)>)
    ensures
        match r {
            Some((k, v)) => levels@.contains_key(k) && levels@[k] == v && forall|j: i64| #[trigger]
                levels@.contains_key(j) ==> k <= j,
            None => forall|j: i64| !levels@.contains_key(j),
        },
{
    match levels.first_key_value() {
        Some((k, v)) => Some((*k, *v)),
        None => None,
    }
}

/// Calls `BTreeMap::last_key_value`. Trusted: the result is the entry with
/// the greatest key, and `None` exactly when the map is empty.
#[verifier::external_body]
fn last_level(levels: &BTreeMap<i64, i64>) -> (r: Option<(i64, i64)>)
    ensures
        match r {
            Some((k, v)) => levels@.contains_key(k) && levels@[k] == v && forall|j: i64| #[trigger]
                levels@.contains_key(j) ==> j <= k,
            None => forall|j: i64| !levels@.contains_key(j),
        },
{
    match levels.last_key_value() {
        Some((k, v)) => Some((*k, *v)),
        None => None,
    }
}

/// Sets or removes one level of one side.
fn set_level(levels: &mut BTreeMap<i64, i64>, price: Price, qty: Qty)
    requires
        levels_wf(levels_of(old(levels)@)),
    ensures
        levels_of(final(levels)@) == with_level(levels_of(old(levels)@), price@, qty@),
        levels_wf(levels_of(final(levels)@)),
{
    let p = price.ticks();
    let q = qty.lots();
    if q == 0 {
        levels.remove(&p);
    } else {
        levels.insert(p, q);
    }
    assert(levels_of(levels@) =~= with_level(levels_of(old(levels)@), price@, qty@));
}

/// Replaces one side by what a snapshot's list stands for.
fn set_side(levels: &mut BTreeMap<i64, i64>, entries: &Vec<(Price, Qty)>)
    ensures
        levels_of(final(levels)@) == snapshot_levels(entries@),
        levels_wf(levels_of(final(levels)@)),
{
    levels.clear();
    assert(levels_of(levels@) =~= snapshot_levels(entries@.take(0)));
    let mut i: usize = 0;
    while i < entries.len()
        invariant
            i <= entries.len(),
            levels_of(levels@) == snapshot_levels(entries@.take(i as int)),
            levels_wf(levels_of(levels@)),
        decreases entries.len() - i,
    {
        let (price, qty) = entries[i];
        let p = price.ticks();
        let q = qty.lots();
        proof {
            assert(entries@.take(i + 1).drop_last() =~= entries@.take(i as int));
            assert(entries@.take(i + 1).last() == entries@[i as int]);
        }
        if q != 0 {
            levels.insert(p, q);
            assert(levels_of(levels@) =~= snapshot_levels(entries@.take(i as int)).insert(
                price@,
                qty@,
            ));
        }
        i = i + 1;
    }
    assert(entries@.take(i as int) =~= entries@);
}

/// The order book of one symbol.
#[derive(Debug, Clone)]
pub struct OrderBook {
    symbol: SymbolId,
    bids: BTreeMap<i64, i64>,
    asks: BTreeMap<i64, i64>,
}

impl View for OrderBook {
    type V = BookView;

    closed spec fn view(&self) -> BookView {
        BookView { bids: levels_of(self.bids@), asks: levels_of(self.asks@) }
    }
}

impl OrderBook {
    /// The symbol whose events this book takes.
    pub closed spec fn spec_symbol(&self) -> SymbolId {
        self.symbol
    }

    /// Every level holds a quantity above zero.
    pub open spec fn wf(&self) -> bool {
        self@.wf()
    }

    pub fn new(symbol: SymbolId) -> (r: OrderBook)
        ensures
            r.spec_symbol() == symbol,
            r@ == BookView::empty(),
            r.wf(),
    {
        let r = OrderBook { symbol, bids: BTreeMap::new(), asks: BTreeMap::new() };
        assert(r@.bids =~= Map::<int, int>::empty());
        assert(r@.asks =~= Map::<int, int>::empty());
        r
    }

    #[verifier::when_used_as_spec(spec_symbol)]
    pub fn symbol(&self) -> (r: SymbolId)
        ensures
            r == self.spec_symbol(),
    {
        self.symbol
    }

    /// Applies an event to the book. An event for another symbol is left
    /// alone: the result is `false` and nothing changes. Otherwise a delta
    /// sets or removes the levels it names, in order, a snapshot replaces
    /// both sides, and the result is `true`.
    pub fn apply(&mut self, event: &MarketEvent) -> (applied: bool)
        requires
            old(self).wf(),
        ensures
            final(self).wf(),
            final(self).spec_symbol() == old(self).spec_symbol(),
            applied == (event.spec_symbol() == old(self).spec_symbol()),
            applied ==> final(self)@ == old(self)@.apply_event(*event),
            !applied ==> final(self)@ == old(self)@,
    {
        match event {
            MarketEvent::L2Delta { symbol, updates, .. } => {
                if *symbol != self.symbol {
                    return false;
                }
                let mut i: usize = 0;
                assert(self@ == old(self)@.apply_updates(updates@.take(0)));
                while i < updates.len()
                    invariant
                        i <= updates.len(),
                        self.symbol == old(self).symbol,
                        self@.wf(),
                        self@ == old(self)@.apply_updates(updates@.take(i as int)),
                    decreases updates.len() - i,
                {
                    let update = updates[i];
                    let ghost before = self@;
                    proof {
                        assert(updates@.take(i + 1).drop_last() =~= updates@.take(i as int));
                        assert(updates@.take(i + 1).last() == update);
                    }
                    match update.side {
                        Side::Bid => set_level(&mut self.bids, update.price, update.qty),
                        Side::Ask => set_level(&mut self.asks, update.price, update.qty),
                    }
                    assert(self@ == before.apply_update(update));
                    i = i + 1;
                }
                assert(updates@.take(i as int) =~= updates@);
                true
            },
            MarketEvent::L2Snapshot { symbol, bids, asks, .. } => {
                if *symbol != self.symbol {
                    return false;
                }
                set_side(&mut self.bids, bids);
                set_side(&mut self.asks, asks);
                true
            },
        }
    }

    /// The highest bid and its quantity, if there is a bid.
    pub fn best_bid(&self) -> (r: Option<(Price, Qty)>)
        requires
            self.wf(),
        ensures
            match r {
                Some((p, q)) => self@.best_bid() == Some((p@, q@)) && self@.is_best_bid(p@),
                None => self@.best_bid() is None && forall|p: int| !self@.bids.contains_key(p),
            },
    {
        match last_level(&self.bids) {
            Some((k, v)) => {
                proof {
                    assert(self@.bids.contains_key(k as int));
                    assert forall|other: int| #[trigger]
                        self@.bids.contains_key(other) implies other <= k by {
                        assert(self.bids@.contains_key(other as i64));
                    }
                    self@.lemma_best_bid_unique(k as int);
                }
                Some((Price::from_valid(k), Qty::from_valid(v)))
            },
            None => {
                proof {
                    assert forall|p: int| !self@.bids.contains_key(p) by {
                        assert(!self.bids@.contains_key(p as i64));
                    }
                    self@.lemma_no_bid();
                }
                None
            },
        }
    }

    /// The lowest ask and its quantity, if there is an ask.
    pub fn best_ask(&self) -> (r: Option<(Price, Qty)>)
        requires
            self.wf(),
        ensures
            match r {
                Some((p, q)) => self@.best_ask() == Some((p@, q@)) && self@.is_best_ask(p@),
                None => self@.best_ask() is None && forall|p: int| !self@.asks.contains_key(p),
            },
    {
        match first_level(&self.asks) {
            Some((k, v)) => {
                proof {
                    assert(self@.asks.contains_key(k as int));
                    assert forall|other: int| #[trigger]
                        self@.asks.contains_key(other) implies k <= other by {
                        assert(self.asks@.contains_key(other as i64));
                    }
                    self@.lemma_best_ask_unique(k as int);
                }
                Some((Price::from_valid(k), Qty::from_valid(v)))
            },
            None => {
                proof {
                    assert forall|p: int| !self@.asks.contains_key(p) by {
                        assert(!self.asks@.contains_key(p as i64));
                    }
                    self@.lemma_no_ask();
                }
                None
            },
        }
    }

    /// The distance from the best bid up to the best ask: present when both
    /// sides hold a level and the ask is above the bid.
    pub fn spread(&self) -> (r: Option<Price>)
        requires
            self.wf(),
        ensures
            match r {
                Some(d) => self@.spread() == Some(d@),
                None => self@.spread() is None,
            },
    {
        let ask = match self.best_ask() {
            Some((ask, _)) => ask,
            None => {
                return None;
            },
        };
        let bid = match self.best_bid() {
            Some((bid, _)) => bid,
            None => {
                return None;
            },
        };
        let ask_ticks = ask.ticks();
        let bid_ticks = bid.ticks();
        if ask_ticks > bid_ticks {
            Some(Price::from_valid(ask_ticks - bid_ticks))
        } else {
            None
        }
    }
}

} // verus!
