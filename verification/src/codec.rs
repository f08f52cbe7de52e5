//! The event codec: the step between events and their wire form, in which a
//! symbol stands as text, and the framing of binary records with magic,
//! version, length and checksum.

use crate::types::{CoreError, LevelUpdate, MarketEvent, Price, Qty, SymbolId, SymbolTable};
use crate::types::{is_symbol_text, with_interned};
use crate::text::trimmed;
use vstd::prelude::*;
use vstd::slice::slice_subrange;

verus! {

/// The first four bytes of a framed binary record: `LOB2`.
pub const BIN_RECORD_MAGIC: [u8; 4] = [0x4c, 0x4f, 0x42, 0x32];

/// The version of the binary record format.
pub const BIN_RECORD_VERSION: u8 = 1;

/// The length of a binary record's header.
pub const BIN_RECORD_HEADER_LEN: usize = 13;

/// What a binary record's header says of its payload.
#[derive(Debug, Clone, Copy, PartialEq, Eq, Structural)]
pub struct BinRecordHeader {
    pub payload_len: usize,
    pub checksum: u32,
}

/// Why an event could not be encoded or decoded.
#[derive(Debug, PartialEq, Eq)]
pub enum CodecError {
    EmptyLine,
    Core(CoreError),
    UnknownSymbolId(u32),
    BinaryRecordTooShort,
    BinaryMagicMismatch([u8; 4]),
    BinaryUnsupportedVersion(u8),
    BinaryLengthMismatch { expected: usize, actual: usize },
    BinaryChecksumMismatch { expected: u32, actual: u32 },
    BinaryLengthOverflow(usize),
}

/// The CRC-32 checksum of a run of bytes, as `crc32fast::hash` computes it.
pub uninterp spec fn crc32(bytes: Seq<u8>) -> u32;

/// Calls `crc32fast::hash`. Trusted: the result is the CRC-32 checksum of
/// the bytes, a function of the bytes alone.
#[verifier::external_body]
fn checksum_of(bytes: &[u8]) -> (r: u32)
    ensures
        r == crc32(bytes@),
{
    crc32fast::hash(bytes)
}

/// The number that four bytes stand for, least significant byte first.
pub open spec fn le_u32(b0: u8, b1: u8, b2: u8, b3: u8) -> int {
    b0 + 256 * b1 + 65536 * b2 + 16777216 * b3
}

/// The four bytes that stand for a number, least significant byte first.
pub open spec fn le_bytes(x: u32) -> Seq<u8> {
    seq![
        (x % 256) as u8,
        (x / 256 % 256) as u8,
        (x / 65536 % 256) as u8,
        (x / 16777216) as u8,
    ]
}

/// The number that the four bytes from `at` on stand for.
pub open spec fn le_u32_at(bytes: Seq<u8>, at: int) -> int {
    le_u32(bytes[at], bytes[at + 1], bytes[at + 2], bytes[at + 3])
}

/// Reading the bytes of a number gives the number back.
pub proof fn lemma_le_round_trip(x: u32)
    ensures
        le_bytes(x).len() == 4,
        le_u32_at(le_bytes(x), 0) == x,
{
}

/// Reads four bytes as a number, least significant byte first.
fn read_le_u32(bytes: &[u8], at: usize) -> (r: u32)
    requires
        at + 4 <= bytes@.len(),
    ensures
        r == le_u32_at(bytes@, at as int),
{
    bytes[at] as u32 + 256 * (bytes[at + 1] as u32) + 65536 * (bytes[at + 2] as u32) + 16777216 * (
    bytes[at + 3] as u32)
}

/// Appends the four bytes of a number, least significant byte first.
fn push_le_u32(out: &mut Vec<u8>, x: u32)
    ensures
        final(out)@ == old(out)@ + le_bytes(x),
{
    out.push((x % 256) as u8);
    out.push((x / 256 % 256) as u8);
    out.push((x / 65536 % 256) as u8);
    out.push((x / 16777216) as u8);
    assert(out@ =~= old(out)@ + le_bytes(x));
}

/// The header of the record that frames a payload of `len` bytes with the
/// given checksum.
pub open spec fn header_bytes(len: u32, checksum: u32) -> Seq<u8> {
    BIN_RECORD_MAGIC@ + seq![BIN_RECORD_VERSION] + le_bytes(len) + le_bytes(checksum)
}

/// The record that frames a payload: magic, version, the payload's length,
/// its CRC-32, and the payload.
pub open spec fn record_bytes(payload: Seq<u8>) -> Seq<u8> {
    header_bytes(payload.len() as u32, crc32(payload)) + payload
}

/// What reading a header finds: too few bytes, then a wrong magic, then a
/// wrong version, each before the next; else the payload's length and
/// checksum.
pub open spec fn header_of(bytes: Seq<u8>) -> Result<BinRecordHeader, CodecError> {
    if bytes.len() < BIN_RECORD_HEADER_LEN {
        Err(CodecError::BinaryRecordTooShort)
    } else if bytes.subrange(0, 4) != BIN_RECORD_MAGIC@ {
        Err(CodecError::BinaryMagicMismatch([bytes[0], bytes[1], bytes[2], bytes[3]]))
    } else if bytes[4] != BIN_RECORD_VERSION {
        Err(CodecError::BinaryUnsupportedVersion(bytes[4]))
    } else {
        Ok(
            BinRecordHeader {
                payload_len: le_u32_at(bytes, 5) as usize,
                checksum: le_u32_at(bytes, 9) as u32,
            },
        )
    }
}

/// What reading a whole record finds: what reading its header finds; then
/// a payload of another length than the header says; then a payload with
/// another checksum than the header says; else the payload.
pub open spec fn payload_of(record: Seq<u8>) -> Result<Seq<u8>, CodecError> {
    match header_of(record) {
        Err(e) => Err(e),
        Ok(header) => {
            let payload = record.skip(BIN_RECORD_HEADER_LEN as int);
            if payload.len() != header.payload_len {
                Err(
                    CodecError::BinaryLengthMismatch {
                        expected: header.payload_len,
                        actual: payload.len() as usize,
                    },
                )
            } else if crc32(payload) != header.checksum {
                Err(
                    CodecError::BinaryChecksumMismatch {
                        expected: header.checksum,
                        actual: crc32(payload),
                    },
                )
            } else {
                Ok(payload)
            }
        },
    }
}

/// A framed payload reads back as itself.
pub proof fn lemma_record_round_trip(payload: Seq<u8>)
    requires
        payload.len() <= u32::MAX,
    ensures
        payload_of(record_bytes(payload)) == Ok::<Seq<u8>, CodecError>(payload),
{
    let len = payload.len() as u32;
    let sum = crc32(payload);
    let record = record_bytes(payload);
    let magic = BIN_RECORD_MAGIC@;
    assert(magic.len() == 4);
    assert(record.subrange(0, 4) =~= magic);
    assert(record[4] == BIN_RECORD_VERSION);
    lemma_le_round_trip(len);
    lemma_le_round_trip(sum);
    assert(le_u32_at(record, 5) == le_u32_at(le_bytes(len), 0));
    assert(le_u32_at(record, 9) == le_u32_at(le_bytes(sum), 0));
    assert(record.skip(BIN_RECORD_HEADER_LEN as int) =~= payload);
}

/// A record whose payload has been changed in place so that its checksum
/// is another is turned away for its checksum.
pub proof fn lemma_changed_payload_is_rejected(payload: Seq<u8>, changed: Seq<u8>)
    requires
        payload.len() <= u32::MAX,
        changed.len() == payload.len(),
        crc32(changed) != crc32(payload),
    ensures
        payload_of(header_bytes(payload.len() as u32, crc32(payload)) + changed) == Err::<
            Seq<u8>,
            CodecError,
        >(CodecError::BinaryChecksumMismatch { expected: crc32(payload), actual: crc32(changed) }),
{
    let len = payload.len() as u32;
    let sum = crc32(payload);
    let record = header_bytes(len, sum) + changed;
    let magic = BIN_RECORD_MAGIC@;
    assert(magic.len() == 4);
    assert(record.subrange(0, 4) =~= magic);
    assert(record[4] == BIN_RECORD_VERSION);
    lemma_le_round_trip(len);
    lemma_le_round_trip(sum);
    assert(le_u32_at(record, 5) == le_u32_at(le_bytes(len), 0));
    assert(le_u32_at(record, 9) == le_u32_at(le_bytes(sum), 0));
    assert(record.skip(BIN_RECORD_HEADER_LEN as int) =~= changed);
}

/// Frames a payload as a binary record. A payload whose length does not
/// fit in 32 bits is a `BinaryLengthOverflow`.
pub fn encode_event_bin_record(payload: &[u8]) -> (r: Result<Vec<u8>, CodecError>)
    ensures
        match r {
            Ok(record) => payload@.len() <= u32::MAX && record@ == record_bytes(payload@),
            Err(e) => payload@.len() > u32::MAX && e == CodecError::BinaryLengthOverflow(
                payload@.len() as usize,
            ),
        },
{
    if payload.len() > 0xffff_ffff {
        return Err(CodecError::BinaryLengthOverflow(payload.len()));
    }
    let len = payload.len() as u32;
    let checksum = checksum_of(payload);
    let mut out: Vec<u8> = Vec::new();
    out.push(BIN_RECORD_MAGIC[0]);
    out.push(BIN_RECORD_MAGIC[1]);
    out.push(BIN_RECORD_MAGIC[2]);
    out.push(BIN_RECORD_MAGIC[3]);
    out.push(BIN_RECORD_VERSION);
    assert(out@ =~= BIN_RECORD_MAGIC@ + seq![BIN_RECORD_VERSION]);
    push_le_u32(&mut out, len);
    push_le_u32(&mut out, checksum);
    let mut i: usize = 0;
    while i < payload.len()
        invariant
            i <= payload@.len(),
            out@ == header_bytes(len, checksum) + payload@.take(i as int),
        decreases payload@.len() - i,
    {
        out.push(payload[i]);
        assert(payload@.take(i + 1) =~= payload@.take(i as int).push(payload@[i as int]));
        assert(out@ =~= header_bytes(len, checksum) + payload@.take(i + 1));
        i = i + 1;
    }
    assert(payload@.take(i as int) =~= payload@);
    Ok(out)
}

/// Reads a binary record's header from its first 13 bytes: checks that
/// there are as many, then the magic, then the version.
pub fn decode_event_bin_header(header: &[u8]) -> (r: Result<BinRecordHeader, CodecError>)
    ensures
        r == header_of(header@),
{
    if header.len() < BIN_RECORD_HEADER_LEN {
        return Err(CodecError::BinaryRecordTooShort);
    }
    let magic = [header[0], header[1], header[2], header[3]];
    if magic[0] != BIN_RECORD_MAGIC[0] || magic[1] != BIN_RECORD_MAGIC[1] || magic[2]
        != BIN_RECORD_MAGIC[2] || magic[3] != BIN_RECORD_MAGIC[3] {
        assert(header@.subrange(0, 4) != BIN_RECORD_MAGIC@) by {
            if header@.subrange(0, 4) == BIN_RECORD_MAGIC@ {
                assert(header@.subrange(0, 4)[0] == BIN_RECORD_MAGIC@[0]);
                assert(header@.subrange(0, 4)[1] == BIN_RECORD_MAGIC@[1]);
                assert(header@.subrange(0, 4)[2] == BIN_RECORD_MAGIC@[2]);
                assert(header@.subrange(0, 4)[3] == BIN_RECORD_MAGIC@[3]);
            }
        }
        return Err(CodecError::BinaryMagicMismatch(magic));
    }
    assert(header@.subrange(0, 4) =~= BIN_RECORD_MAGIC@);
    let version = header[4];
    if version != BIN_RECORD_VERSION {
        return Err(CodecError::BinaryUnsupportedVersion(version));
    }
    let payload_len = read_le_u32(header, 5) as usize;
    let checksum = read_le_u32(header, 9);
    Ok(BinRecordHeader { payload_len, checksum })
}

/// Checks a whole binary record and returns its payload: the header's
/// checks first, then the payload's length, then its checksum.
pub fn decode_event_bin_record(record: &[u8]) -> (r: Result<&[u8], CodecError>)
    ensures
        match r {
            Ok(payload) => payload_of(record@) == Ok::<Seq<u8>, CodecError>(payload@),
            Err(e) => payload_of(record@) == Err::<Seq<u8>, CodecError>(e),
        },
{
    let header = match decode_event_bin_header(record) {
        Ok(header) => header,
        Err(e) => {
            return Err(e);
        },
    };
    let actual = record.len() - BIN_RECORD_HEADER_LEN;
    if actual != header.payload_len {
        return Err(CodecError::BinaryLengthMismatch { expected: header.payload_len, actual });
    }
    let payload = slice_subrange(record, BIN_RECORD_HEADER_LEN, record.len());
    assert(payload@ =~= record@.skip(BIN_RECORD_HEADER_LEN as int));
    let actual_checksum = checksum_of(payload);
    if actual_checksum != header.checksum {
        return Err(
            CodecError::BinaryChecksumMismatch {
                expected: header.checksum,
                actual: actual_checksum,
            },
        );
    }
    Ok(payload)
}

/// What is left of a line once one line feed and then one carriage return
/// have been taken from its end, if they stand there.
pub open spec fn line_content(line: Seq<char>) -> Seq<char> {
    let cut = if line.len() > 0 && line.last() == '\n' {
        line.drop_last()
    } else {
        line
    };
    if cut.len() > 0 && cut.last() == '\r' {
        cut.drop_last()
    } else {
        cut
    }
}

/// Calls `str::strip_suffix` with a character. Trusted: the result is the
/// text without its last character if that character is `suffix`, and none
/// otherwise.
#[verifier::external_body]
fn strip_last(text: &str, suffix: char) -> (r: Option<&str>)
    ensures
        match r {
            Some(rest) => text@.len() > 0 && text@.last() == suffix && rest@ == text@.drop_last(),
            None => text@.len() == 0 || text@.last() != suffix,
        },
{
    text.strip_suffix(suffix)
}

/// Takes the line ending from a line of input and returns what is to be
/// decoded. A line with nothing else on it is an `EmptyLine`.
pub fn strip_line_ending(line: &str) -> (r: Result<&str, CodecError>)
    ensures
        match r {
            Ok(content) => content@ == line_content(line@) && content@.len() > 0,
            Err(e) => e == CodecError::EmptyLine && line_content(line@).len() == 0,
        },
{
    let line = match strip_last(line, '\n') {
        Some(rest) => rest,
        None => line,
    };
    let line = match strip_last(line, '\r') {
        Some(rest) => rest,
        None => line,
    };
    if line.unicode_len() == 0 {
        return Err(CodecError::EmptyLine);
    }
    Ok(line)
}

/// An event as it goes over the wire: the symbol stands as its text.
#[derive(Debug, PartialEq, Eq)]
pub enum WireEvent {
    L2Delta { ts_ns: u64, symbol: String, updates: Vec<LevelUpdate> },
    L2Snapshot { ts_ns: u64, symbol: String, bids: Vec<(Price, Qty)>, asks: Vec<(Price, Qty)> },
}

/// What a wire event says, as plain values.
pub enum WireView {
    L2Delta { ts_ns: u64, symbol: Seq<char>, updates: Seq<LevelUpdate> },
    L2Snapshot { ts_ns: u64, symbol: Seq<char>, bids: Seq<(Price, Qty)>, asks: Seq<(Price, Qty)> },
}

impl View for WireEvent {
    type V = WireView;

    open spec fn view(&self) -> WireView {
        match self {
            WireEvent::L2Delta { ts_ns, symbol, updates } => WireView::L2Delta {
                ts_ns: *ts_ns,
                symbol: symbol@,
                updates: updates@,
            },
            WireEvent::L2Snapshot { ts_ns, symbol, bids, asks } => WireView::L2Snapshot {
                ts_ns: *ts_ns,
                symbol: symbol@,
                bids: bids@,
                asks: asks@,
            },
        }
    }
}

impl WireView {
    /// The symbol's text.
    pub open spec fn symbol(self) -> Seq<char> {
        match self {
            WireView::L2Delta { symbol, .. } => symbol,
            WireView::L2Snapshot { symbol, .. } => symbol,
        }
    }

    /// The wire form of an event whose symbol reads `symbol`.
    pub open spec fn of(event: crate::types::EventView, symbol: Seq<char>) -> WireView {
        match event {
            crate::types::EventView::L2Delta { ts_ns, updates, .. } => WireView::L2Delta {
                ts_ns,
                symbol,
                updates,
            },
            crate::types::EventView::L2Snapshot { ts_ns, bids, asks, .. } => WireView::L2Snapshot {
                ts_ns,
                symbol,
                bids,
                asks,
            },
        }
    }

    /// The event that this wire form stands for once its symbol has the
    /// id `symbol`.
    pub open spec fn event(self, symbol: SymbolId) -> crate::types::EventView {
        match self {
            WireView::L2Delta { ts_ns, updates, .. } => crate::types::EventView::L2Delta {
                ts_ns,
                symbol,
                updates,
            },
            WireView::L2Snapshot { ts_ns, bids, asks, .. } => crate::types::EventView::L2Snapshot {
                ts_ns,
                symbol,
                bids,
                asks,
            },
        }
    }
}

/// A copy of a list of level updates.
fn copy_updates(updates: &Vec<LevelUpdate>) -> (r: Vec<LevelUpdate>)
    ensures
        r@ == updates@,
{
    let mut out: Vec<LevelUpdate> = Vec::new();
    let mut i: usize = 0;
    while i < updates.len()
        invariant
            i <= updates.len(),
            out@ == updates@.take(i as int),
        decreases updates.len() - i,
    {
        out.push(updates[i]);
        assert(updates@.take(i + 1) =~= updates@.take(i as int).push(updates@[i as int]));
        i = i + 1;
    }
    assert(updates@.take(i as int) =~= updates@);
    out
}

/// A copy of a snapshot's list of levels.
fn copy_levels(levels: &Vec<(Price, Qty)>) -> (r: Vec<(Price, Qty)>)
    ensures
        r@ == levels@,
{
    let mut out: Vec<(Price, Qty)> = Vec::new();
    let mut i: usize = 0;
    while i < levels.len()
        invariant
            i <= levels.len(),
            out@ == levels@.take(i as int),
        decreases levels.len() - i,
    {
        out.push(levels[i]);
        assert(levels@.take(i + 1) =~= levels@.take(i as int).push(levels@[i as int]));
        i = i + 1;
    }
    assert(levels@.take(i as int) =~= levels@);
    out
}

impl WireEvent {
    /// The wire form of an event: its symbol's id gives way to the text
    /// that the table holds for it. An id that the table never handed out
    /// is an `UnknownSymbolId`.
    pub fn from_core(event: &MarketEvent, symbols: &SymbolTable) -> (r: Result<
        WireEvent,
        CodecError,
    >)
        ensures
            match r {
                Ok(wire) => event.spec_symbol().0 < symbols@.len() && wire@ == WireView::of(
                    event@,
                    symbols@[event.spec_symbol().0 as int],
                ),
                Err(e) => event.spec_symbol().0 >= symbols@.len() && e
                    == CodecError::UnknownSymbolId(event.spec_symbol().0),
            },
    {
        match event {
            MarketEvent::L2Delta { ts_ns, symbol, updates } => {
                let text = match symbols.resolve(*symbol) {
                    Some(text) => text.to_owned(),
                    None => {
                        return Err(CodecError::UnknownSymbolId(symbol.as_u32()));
                    },
                };
                Ok(WireEvent::L2Delta { ts_ns: *ts_ns, symbol: text, updates: copy_updates(updates) })
            },
            MarketEvent::L2Snapshot { ts_ns, symbol, bids, asks } => {
                let text = match symbols.resolve(*symbol) {
                    Some(text) => text.to_owned(),
                    None => {
                        return Err(CodecError::UnknownSymbolId(symbol.as_u32()));
                    },
                };
                Ok(
                    WireEvent::L2Snapshot {
                        ts_ns: *ts_ns,
                        symbol: text,
                        bids: copy_levels(bids),
                        asks: copy_levels(asks),
                    },
                )
            },
        }
    }

    /// The event that a wire form stands for: its symbol's text is
    /// interned, which may extend the table. A symbol that is empty once
    /// trimmed is a `Core(InvalidSymbol)` that carries it.
    pub fn into_core(self, symbols: &mut SymbolTable) -> (r: Result<MarketEvent, CodecError>)
        requires
            old(symbols).wf(),
            old(symbols).spec_has_room_for(self@.symbol()),
        ensures
            final(symbols).wf(),
            final(symbols)@ == with_interned(old(symbols)@, self@.symbol()),
            match r {
                Ok(event) => final(symbols).id_of(trimmed(self@.symbol())) == Some(
                    event.spec_symbol(),
                ) && event@ == self@.event(event.spec_symbol()),
                Err(e) => trimmed(self@.symbol()).len() == 0 && (e matches CodecError::Core(
                    CoreError::InvalidSymbol(t),
                ) && t@ == self@.symbol()),
            },
    {
        match self {
            WireEvent::L2Delta { ts_ns, symbol, updates } => {
                match symbols.intern(symbol.as_str()) {
                    Ok(id) => Ok(MarketEvent::L2Delta { ts_ns, symbol: id, updates }),
                    Err(e) => Err(CodecError::Core(e)),
                }
            },
            WireEvent::L2Snapshot { ts_ns, symbol, bids, asks } => {
                match symbols.intern(symbol.as_str()) {
                    Ok(id) => Ok(MarketEvent::L2Snapshot { ts_ns, symbol: id, bids, asks }),
                    Err(e) => Err(CodecError::Core(e)),
                }
            },
        }
    }

    /// Turns a wire form into the event it stands for if the table can
    /// take its symbol in, and says so if it cannot: then nothing is
    /// returned and the table stays as it is.
    pub fn try_into_core(self, symbols: &mut SymbolTable) -> (r: Option<
        Result<MarketEvent, CodecError>,
    >)
        requires
            old(symbols).wf(),
        ensures
            final(symbols).wf(),
            r is Some == old(symbols).spec_has_room_for(self@.symbol()),
            r is None ==> final(symbols)@ == old(symbols)@,
            r matches Some(done) ==> final(symbols)@ == with_interned(
                old(symbols)@,
                self@.symbol(),
            ) && (match done {
                Ok(event) => final(symbols).id_of(trimmed(self@.symbol())) == Some(
                    event.spec_symbol(),
                ) && event@ == self@.event(event.spec_symbol()),
                Err(e) => trimmed(self@.symbol()).len() == 0 && (e matches CodecError::Core(
                    CoreError::InvalidSymbol(t),
                ) && t@ == self@.symbol()),
            }),
    {
        let room = match &self {
            WireEvent::L2Delta { symbol, .. } => symbols.has_room_for(symbol.as_str()),
            WireEvent::L2Snapshot { symbol, .. } => symbols.has_room_for(symbol.as_str()),
        };
        if room {
            Some(self.into_core(symbols))
        } else {
            None
        }
    }
}

/// An event that goes to its wire form and back comes back as it was, and
/// the table is as it was: in a well-formed table the text of a symbol
/// leads back to the symbol's id.
pub proof fn lemma_wire_round_trip(event: crate::types::EventView, names: Seq<Seq<char>>, id: SymbolId)
    requires
        id.0 < names.len() <= u32::MAX,
        forall|i: int| 0 <= i < names.len() ==> is_symbol_text(#[trigger] names[i]),
        forall|i: int, j: int| 0 <= i < j < names.len() ==> names[i] != names[j],
        event matches crate::types::EventView::L2Delta { symbol, .. } ==> symbol == id,
        event matches crate::types::EventView::L2Snapshot { symbol, .. } ==> symbol == id,
    ensures
        ({
            let wire = WireView::of(event, names[id.0 as int]);
            &&& trimmed(wire.symbol()) == names[id.0 as int]
            &&& with_interned(names, wire.symbol()) == names
            &&& names.index_of(trimmed(wire.symbol())) == id.0
            &&& wire.event(id) == event
        }),
{
    let text = names[id.0 as int];
    assert(is_symbol_text(text));
    assert(names.contains(text));
    let k = names.index_of(text);
    assert(0 <= k < names.len() && names[k] == text);
    if k < id.0 {
        assert(names[k] != names[id.0 as int]);
    } else if id.0 < k {
        assert(names[id.0 as int] != names[k]);
    }
}

} // verus!
