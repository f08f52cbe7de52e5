//! Domain primitives: sides, integer prices and quantities, interned
//! symbols, level updates and market events.

use crate::text::{ascii_case_equal, eq_ignore_case, trim_text, trimmed};
use vstd::prelude::*;

verus! {

/// Why a domain value could not be built.
#[derive(Debug, PartialEq, Eq)]
pub enum CoreError {
    InvalidSide(String),
    InvalidSymbol(String),
    InvalidPrice(i64),
    InvalidQty(i64),
}

/// The side of the book a level or an order is on.
#[derive(Debug, Clone, Copy, PartialEq, Eq, Structural, Hash)]
pub enum Side {
    Bid,
    Ask,
}

impl Side {
    /// The side that a trimmed text names, if it names one.
    pub open spec fn named(t: Seq<char>) -> Option<Side> {
        if ascii_case_equal(t, "bid"@) {
            Some(Side::Bid)
        } else if ascii_case_equal(t, "ask"@) {
            Some(Side::Ask)
        } else {
            None
        }
    }

    pub fn as_str(self) -> (r: &'static str)
        ensures
            self == Side::Bid ==> r@ == "bid"@,
            self == Side::Ask ==> r@ == "ask"@,
    {
        match self {
            Side::Bid => "bid",
            Side::Ask => "ask",
        }
    }

    /// Reads a side from text, ignoring surrounding white space and ASCII
    /// case. Any other text is an `InvalidSide` that carries the input.
    pub fn parse(s: &str) -> (r: Result<Side, CoreError>)
        ensures
            match r {
                Ok(side) => Side::named(trimmed(s@)) == Some(side),
                Err(e) => Side::named(trimmed(s@)) is None && (e matches CoreError::InvalidSide(t)
                    && t@ == s@),
            },
    {
        let t = trim_text(s);
        if eq_ignore_case(t, "bid") {
            Ok(Side::Bid)
        } else if eq_ignore_case(t, "ask") {
            Ok(Side::Ask)
        } else {
            Err(CoreError::InvalidSide(s.to_owned()))
        }
    }
}

impl std::str::FromStr for Side {
    type Err = CoreError;

    /// Reads a side from text as [`Side::parse`] does.
    fn from_str(s: &str) -> (r: Result<Side, CoreError>)
        ensures
            match r {
                Ok(side) => Side::named(trimmed(s@)) == Some(side),
                Err(e) => Side::named(trimmed(s@)) is None && (e matches CoreError::InvalidSide(t)
                    && t@ == s@),
            },
    {
        Side::parse(s)
    }
}

/// A small dense number that stands for a symbol's text in one
/// [`SymbolTable`].
#[derive(Debug, Clone, Copy, PartialEq, Eq, Structural, Hash)]
pub struct SymbolId(pub u32);

impl SymbolId {
    pub fn from_u32(value: u32) -> (r: SymbolId)
        ensures
            r.0 == value,
    {
        SymbolId(value)
    }

    pub fn as_u32(self) -> (r: u32)
        ensures
            r == self.0,
    {
        self.0
    }
}

/// A price in ticks. Never negative.
#[derive(Debug, Clone, Copy, PartialEq, Eq, Structural, PartialOrd, Ord, Hash)]
pub struct Price(i64);

impl View for Price {
    type V = int;

    closed spec fn view(&self) -> int {
        self.0 as int
    }
}

impl Price {
    #[verifier::type_invariant]
    spec fn non_negative(self) -> bool {
        self.0 >= 0
    }

    /// Integer ticks keep ordering deterministic and free of rounding.
    pub fn new(ticks: i64) -> (r: Result<Price, CoreError>)
        ensures
            ticks >= 0 ==> (r matches Ok(p) && p@ == ticks),
            ticks < 0 ==> r == Err::<Price, CoreError>(CoreError::InvalidPrice(ticks)),
    {
        if ticks < 0 {
            Err(CoreError::InvalidPrice(ticks))
        } else {
            Ok(Price(ticks))
        }
    }

    /// The price of `ticks` ticks.
    pub closed spec fn from_ticks(ticks: int) -> Price {
        Price(ticks as i64)
    }

    /// The price of `ticks` ticks, where the caller knows that `ticks` is
    /// not negative.
    pub(crate) fn from_valid(ticks: i64) -> (r: Price)
        requires
            ticks >= 0,
        ensures
            r@ == ticks,
            r == Price::from_ticks(ticks as int),
    {
        Price(ticks)
    }

    /// A price built from a number of ticks has that number of ticks.
    pub broadcast proof fn lemma_from_ticks(ticks: int)
        requires
            0 <= ticks <= i64::MAX,
        ensures
            (#[trigger] Price::from_ticks(ticks))@ == ticks,
    {
    }

    /// The price of zero ticks.
    pub fn zero() -> (r: Price)
        ensures
            r@ == 0,
            r == Price::from_ticks(0),
    {
        Price(0)
    }

    pub fn ticks(self) -> (r: i64)
        ensures
            r == self@,
            r >= 0,
    {
        proof {
            use_type_invariant(&self);
        }
        self.0
    }

    /// A price is the price of its number of ticks.
    pub broadcast proof fn lemma_from_ticks_view(p: Price)
        ensures
            #[trigger] Price::from_ticks(p@) == p,
    {
    }
}

/// A quantity in lots. Never negative; zero in a level update removes the
/// level.
#[derive(Debug, Clone, Copy, PartialEq, Eq, Structural, PartialOrd, Ord, Hash)]
pub struct Qty(i64);

impl View for Qty {
    type V = int;

    closed spec fn view(&self) -> int {
        self.0 as int
    }
}

impl Qty {
    #[verifier::type_invariant]
    spec fn non_negative(self) -> bool {
        self.0 >= 0
    }

    /// Integer lots keep size updates free of rounding.
    pub fn new(lots: i64) -> (r: Result<Qty, CoreError>)
        ensures
            lots >= 0 ==> (r matches Ok(q) && q@ == lots),
            lots < 0 ==> r == Err::<Qty, CoreError>(CoreError::InvalidQty(lots)),
    {
        if lots < 0 {
            Err(CoreError::InvalidQty(lots))
        } else {
            Ok(Qty(lots))
        }
    }

    /// The quantity of `lots` lots.
    pub closed spec fn from_lots(lots: int) -> Qty {
        Qty(lots as i64)
    }

    /// The quantity of `lots` lots, where the caller knows that `lots` is
    /// not negative.
    pub(crate) fn from_valid(lots: i64) -> (r: Qty)
        requires
            lots >= 0,
        ensures
            r@ == lots,
            r == Qty::from_lots(lots as int),
    {
        Qty(lots)
    }

    /// A quantity built from a number of lots has that number of lots.
    pub broadcast proof fn lemma_from_lots(lots: int)
        requires
            0 <= lots <= i64::MAX,
        ensures
            (#[trigger] Qty::from_lots(lots))@ == lots,
    {
    }

    /// The quantity of zero lots.
    pub fn zero() -> (r: Qty)
        ensures
            r@ == 0,
            r == Qty::from_lots(0),
    {
        Qty(0)
    }

    pub fn lots(self) -> (r: i64)
        ensures
            r == self@,
            r >= 0,
    {
        proof {
            use_type_invariant(&self);
        }
        self.0
    }

    pub fn is_zero(self) -> (r: bool)
        ensures
            r == (self@ == 0),
    {
        self.0 == 0
    }

    /// A quantity is the quantity of its number of lots.
    pub broadcast proof fn lemma_from_lots_view(q: Qty)
        ensures
            #[trigger] Qty::from_lots(q@) == q,
    {
    }
}

/// One change to one price level.
#[derive(Debug, Clone, Copy, PartialEq, Eq, Structural)]
pub struct LevelUpdate {
    pub side: Side,
    pub price: Price,
    pub qty: Qty,
}

impl LevelUpdate {
    pub fn is_remove(&self) -> (r: bool)
        ensures
            r == (self.qty@ == 0),
    {
        self.qty.is_zero()
    }
}

/// One level-2 market data event for one symbol.
#[derive(Debug, Clone, PartialEq, Eq)]
pub enum MarketEvent {
    L2Delta { ts_ns: u64, symbol: SymbolId, updates: Vec<LevelUpdate> },
    L2Snapshot { ts_ns: u64, symbol: SymbolId, bids: Vec<(Price, Qty)>, asks: Vec<(Price, Qty)> },
}

/// What a market event says, as plain values.
pub enum EventView {
    L2Delta { ts_ns: u64, symbol: SymbolId, updates: Seq<LevelUpdate> },
    L2Snapshot { ts_ns: u64, symbol: SymbolId, bids: Seq<(Price, Qty)>, asks: Seq<(Price, Qty)> },
}

impl View for MarketEvent {
    type V = EventView;

    open spec fn view(&self) -> EventView {
        match self {
            MarketEvent::L2Delta { ts_ns, symbol, updates } => EventView::L2Delta {
                ts_ns: *ts_ns,
                symbol: *symbol,
                updates: updates@,
            },
            MarketEvent::L2Snapshot { ts_ns, symbol, bids, asks } => EventView::L2Snapshot {
                ts_ns: *ts_ns,
                symbol: *symbol,
                bids: bids@,
                asks: asks@,
            },
        }
    }
}

impl MarketEvent {
    /// The event's time stamp.
    pub open spec fn spec_ts_ns(&self) -> u64 {
        match self {
            MarketEvent::L2Delta { ts_ns, .. } => *ts_ns,
            MarketEvent::L2Snapshot { ts_ns, .. } => *ts_ns,
        }
    }

    /// The symbol that the event is about.
    pub open spec fn spec_symbol(&self) -> SymbolId {
        match self {
            MarketEvent::L2Delta { symbol, .. } => *symbol,
            MarketEvent::L2Snapshot { symbol, .. } => *symbol,
        }
    }

    #[verifier::when_used_as_spec(spec_ts_ns)]
    pub fn ts_ns(&self) -> (r: u64)
        ensures
            r == self.spec_ts_ns(),
    {
        match self {
            MarketEvent::L2Delta { ts_ns, .. } => *ts_ns,
            MarketEvent::L2Snapshot { ts_ns, .. } => *ts_ns,
        }
    }

    #[verifier::when_used_as_spec(spec_symbol)]
    pub fn symbol(&self) -> (r: SymbolId)
        ensures
            r == self.spec_symbol(),
    {
        match self {
            MarketEvent::L2Delta { symbol, .. } => *symbol,
            MarketEvent::L2Snapshot { symbol, .. } => *symbol,
        }
    }
}

/// Whether a text can stand in a symbol table: not empty, and with no white
/// space left to trim.
pub open spec fn is_symbol_text(t: Seq<char>) -> bool {
    t.len() > 0 && trimmed(t) == t
}

/// The texts of a table after `text` has been interned in it.
pub open spec fn with_interned(names: Seq<Seq<char>>, text: Seq<char>) -> Seq<Seq<char>> {
    if trimmed(text).len() == 0 || names.contains(trimmed(text)) {
        names
    } else {
        names.push(trimmed(text))
    }
}

/// The texts of a table after each of `texts` has been interned, in order,
/// in an empty one.
pub open spec fn declared(texts: Seq<Seq<char>>) -> Seq<Seq<char>>
    decreases texts.len(),
{
    if texts.len() == 0 {
        Seq::empty()
    } else {
        with_interned(declared(texts.drop_last()), texts.last())
    }
}

/// A two-way mapping between symbol texts and [`SymbolId`]s. Ids are handed
/// out in the order in which new texts arrive: the id of a text is its
/// position in the table.
#[derive(Debug)]
pub struct SymbolTable {
    names: Vec<String>,
}

impl View for SymbolTable {
    type V = Seq<Seq<char>>;

    closed spec fn view(&self) -> Seq<Seq<char>> {
        Seq::new(self.names@.len(), |i: int| self.names@[i]@)
    }
}

impl SymbolTable {
    /// Every text is a symbol text, none stands twice, and every position
    /// fits in an id.
    pub open spec fn wf(&self) -> bool {
        &&& self@.len() <= u32::MAX
        &&& forall|i: int| 0 <= i < self@.len() ==> is_symbol_text(#[trigger] self@[i])
        &&& forall|i: int, j: int| 0 <= i < j < self@.len() ==> self@[i] != self@[j]
    }

    /// The id that `text` has in this table, if it has one.
    pub open spec fn id_of(&self, text: Seq<char>) -> Option<SymbolId> {
        if self@.contains(text) {
            Some(SymbolId(self@.index_of(text) as u32))
        } else {
            None
        }
    }

    pub fn new() -> (r: SymbolTable)
        ensures
            r@ == Seq::<Seq<char>>::empty(),
            r.wf(),
    {
        let r = SymbolTable { names: Vec::new() };
        assert(r@ =~= Seq::<Seq<char>>::empty());
        r
    }

    pub fn len(&self) -> (r: usize)
        ensures
            r == self@.len(),
    {
        self.names.len()
    }

    /// The position of `text` in the table, if it is there.
    fn find(&self, text: &String) -> (r: Option<usize>)
        ensures
            match r {
                Some(i) => i < self@.len() && self@[i as int] == text@,
                None => !self@.contains(text@),
            },
    {
        let mut i: usize = 0;
        while i < self.names.len()
            invariant
                i <= self.names.len(),
                forall|j: int| 0 <= j < i ==> self@[j] != text@,
            decreases self.names.len() - i,
        {
            if self.names[i] == *text {
                return Some(i);
            }
            i = i + 1;
        }
        None
    }

    /// Whether the table can take `text` in: it holds it already, or has
    /// an id left.
    pub open spec fn spec_has_room_for(&self, text: Seq<char>) -> bool {
        self@.len() < u32::MAX || self@.contains(trimmed(text))
    }

    /// Whether the table can take `text` in: it holds it already, or has
    /// an id left.
    pub fn has_room_for(&self, text: &str) -> (r: bool)
        ensures
            r == self.spec_has_room_for(text@),
    {
        if self.names.len() < 0xffff_ffff {
            return true;
        }
        let t = trim_text(text);
        let owned = t.to_owned();
        match self.find(&owned) {
            Some(_) => true,
            None => false,
        }
    }

    /// Interns `text` if the table can take it in, and says so if it
    /// cannot: then nothing is returned and the table stays as it is.
    pub fn try_intern(&mut self, text: &str) -> (r: Option<Result<SymbolId, CoreError>>)
        requires
            old(self).wf(),
        ensures
            final(self).wf(),
            r is Some == old(self).spec_has_room_for(text@),
            r is None ==> final(self)@ == old(self)@,
            r matches Some(done) ==> final(self)@ == with_interned(old(self)@, text@) && (match done {
                Ok(id) => final(self).id_of(trimmed(text@)) == Some(id),
                Err(e) => trimmed(text@).len() == 0 && (e matches CoreError::InvalidSymbol(t)
                    && t@ == text@),
            }),
    {
        if self.has_room_for(text) {
            Some(self.intern(text))
        } else {
            None
        }
    }

    /// Returns the id of `text` without its surrounding white space, giving
    /// it the next id if the table does not hold it yet. Text that is empty
    /// once trimmed is an `InvalidSymbol` that carries the input.
    pub fn intern(&mut self, text: &str) -> (r: Result<SymbolId, CoreError>)
        requires
            old(self).wf(),
            old(self).spec_has_room_for(text@),
        ensures
            final(self).wf(),
            final(self)@ == with_interned(old(self)@, text@),
            match r {
                Ok(id) => final(self).id_of(trimmed(text@)) == Some(id),
                Err(e) => trimmed(text@).len() == 0 && (e matches CoreError::InvalidSymbol(t)
                    && t@ == text@),
            },
    {
        let t = trim_text(text);
        if t.unicode_len() == 0 {
            return Err(CoreError::InvalidSymbol(text.to_owned()));
        }
        let owned = t.to_owned();
        match self.find(&owned) {
            Some(i) => {
                proof {
                    self.lemma_index_of(i as int);
                }
                Ok(SymbolId(i as u32))
            },
            None => {
                let i = self.names.len();
                self.names.push(owned);
                assert(self@ =~= old(self)@.push(t@));
                proof {
                    self.lemma_index_of(i as int);
                }
                Ok(SymbolId(i as u32))
            },
        }
    }

    /// The text that `id` stands for, if the table has handed `id` out.
    pub fn resolve(&self, id: SymbolId) -> (r: Option<&str>)
        ensures
            match r {
                Some(s) => id.0 < self@.len() && s@ == self@[id.0 as int],
                None => id.0 >= self@.len(),
            },
    {
        let i = id.0 as usize;
        if i < self.names.len() {
            Some(self.names[i].as_str())
        } else {
            None
        }
    }

    /// A table in which each of `texts` has been interned, in order: the
    /// first text gets id 0. Fails on the first text that is empty once
    /// trimmed.
    pub fn from_symbols(texts: &Vec<String>) -> (r: Result<SymbolTable, CoreError>)
        requires
            texts.len() <= u32::MAX,
        ensures
            match r {
                Ok(table) => {
                    &&& table.wf()
                    &&& table@ == declared(texts@.map_values(|s: String| s@))
                    &&& forall|i: int| 0 <= i < texts.len() ==> trimmed(#[trigger] texts[i]@).len() > 0
                },
                Err(e) => exists|i: int|
                    0 <= i < texts.len() && trimmed(#[trigger] texts[i]@).len() == 0 && (
                    e matches CoreError::InvalidSymbol(t) && t@ == texts[i]@) && forall|j: int|
                        0 <= j < i ==> trimmed(#[trigger] texts[j]@).len() > 0,
            },
    {
        let mut table = SymbolTable::new();
        let ghost all = texts@.map_values(|s: String| s@);
        let mut i: usize = 0;
        while i < texts.len()
            invariant
                i <= texts.len(),
                texts.len() <= u32::MAX,
                all == texts@.map_values(|s: String| s@),
                table.wf(),
                table@.len() <= i,
                table@ == declared(all.take(i as int)),
                forall|j: int| 0 <= j < i ==> trimmed(#[trigger] texts[j]@).len() > 0,
            decreases texts.len() - i,
        {
            let r = table.intern(texts[i].as_str());
            match r {
                Ok(_) => {},
                Err(e) => {
                    return Err(e);
                },
            }
            proof {
                assert(all.take(i + 1).drop_last() =~= all.take(i as int));
                assert(all.take(i + 1).last() == texts[i as int]@);
            }
            i = i + 1;
        }
        proof {
            assert(all.take(i as int) =~= all);
        }
        Ok(table)
    }

    /// In a well-formed table a text's id is its position.
    pub proof fn lemma_index_of(&self, i: int)
        requires
            self.wf(),
            0 <= i < self@.len(),
        ensures
            self@.contains(self@[i]),
            self.id_of(self@[i]) == Some(SymbolId(i as u32)),
    {
        let t = self@[i];
        assert(self@.contains(t));
        let k = self@.index_of(t);
        assert(0 <= k < self@.len() && self@[k] == t);
        if k < i {
            assert(self@[k] != self@[i]);
        } else if i < k {
            assert(self@[i] != self@[k]);
        }
    }
}

/// A symbol's text together with the id that a table gave it. Two symbols
/// are equal when their ids are.
#[derive(Debug)]
pub struct Symbol {
    id: SymbolId,
    value: String,
}

impl Symbol {
    /// The symbol's id.
    pub closed spec fn spec_id(&self) -> SymbolId {
        self.id
    }

    /// The symbol's text.
    pub closed spec fn text(&self) -> Seq<char> {
        self.value@
    }

    /// Interns `value` in `symbols` and returns the symbol it names. Text
    /// that is empty once trimmed is an `InvalidSymbol` that carries the
    /// input.
    pub fn new(value: &str, symbols: &mut SymbolTable) -> (r: Result<Symbol, CoreError>)
        requires
            old(symbols).wf(),
            old(symbols).spec_has_room_for(value@),
        ensures
            final(symbols).wf(),
            final(symbols)@ == with_interned(old(symbols)@, value@),
            match r {
                Ok(symbol) => symbol.text() == trimmed(value@) && final(symbols).id_of(
                    trimmed(value@),
                ) == Some(symbol.spec_id()),
                Err(e) => trimmed(value@).len() == 0 && (e matches CoreError::InvalidSymbol(t)
                    && t@ == value@),
            },
    {
        let t = trim_text(value);
        match symbols.intern(value) {
            Ok(id) => Ok(Symbol { id, value: t.to_owned() }),
            Err(e) => Err(e),
        }
    }

    /// Makes the symbol that `value` names if the table can take it in,
    /// and says so if it cannot: then nothing is returned and the table
    /// stays as it is.
    pub fn try_new(value: &str, symbols: &mut SymbolTable) -> (r: Option<Result<Symbol, CoreError>>)
        requires
            old(symbols).wf(),
        ensures
            final(symbols).wf(),
            r is Some == old(symbols).spec_has_room_for(value@),
            r is None ==> final(symbols)@ == old(symbols)@,
            r matches Some(done) ==> final(symbols)@ == with_interned(old(symbols)@, value@) && (
            match done {
                Ok(symbol) => symbol.text() == trimmed(value@) && final(symbols).id_of(
                    trimmed(value@),
                ) == Some(symbol.spec_id()),
                Err(e) => trimmed(value@).len() == 0 && (e matches CoreError::InvalidSymbol(t)
                    && t@ == value@),
            }),
    {
        if symbols.has_room_for(value) {
            Some(Symbol::new(value, symbols))
        } else {
            None
        }
    }

    pub fn as_str(&self) -> (r: &str)
        ensures
            r@ == self.text(),
    {
        self.value.as_str()
    }

    #[verifier::when_used_as_spec(spec_id)]
    pub fn id(&self) -> (r: SymbolId)
        ensures
            r == self.spec_id(),
    {
        self.id
    }
}

impl Clone for Symbol {
    fn clone(&self) -> (r: Symbol)
        ensures
            r == *self,
    {
        Symbol { id: self.id, value: self.value.clone() }
    }
}

impl PartialEq for Symbol {
    fn eq(&self, other: &Symbol) -> (r: bool) {
        self.id == other.id
    }
}

impl Eq for Symbol {

}

impl vstd::std_specs::cmp::PartialEqSpecImpl for Symbol {
    open spec fn obeys_eq_spec() -> bool {
        true
    }

    open spec fn eq_spec(&self, other: &Symbol) -> bool {
        self.spec_id() == other.spec_id()
    }
}

} // verus!
