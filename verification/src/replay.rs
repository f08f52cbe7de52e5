//! Finding the records of a recorded tape: where the next record of a
//! binary log lies, framed or in the older bare form, and what an early end
//! of the input means.

use crate::codec::{
    decode_event_bin_header, decode_event_bin_record, header_of, le_u32_at, payload_of,
    CodecError, BIN_RECORD_HEADER_LEN, BIN_RECORD_MAGIC,
};
use vstd::prelude::*;
use vstd::slice::slice_subrange;

verus! {

/// The form of a recorded tape.
#[derive(Debug, Clone, Copy, PartialEq, Eq, Structural)]
pub enum ReplayFormat {
    Jsonl,
    Bin,
}

/// The part of a binary record that a reader is reading.
#[derive(Debug, Clone, Copy, PartialEq, Eq, Structural)]
pub enum ReadStage {
    /// The first four bytes: the magic, or the length of a bare payload.
    Prefix,
    /// The rest of a framed record's header.
    Header,
    /// The payload of a framed record.
    Payload,
    /// The payload of a bare record.
    LegacyPayload,
}

/// The input ended in the middle of a record.
#[derive(Debug, Clone, Copy, PartialEq, Eq, Structural)]
pub enum IoFailure {
    TruncatedPrefix,
    TruncatedHeader,
    TruncatedPayload,
    TruncatedLegacyPayload,
}

impl IoFailure {
    /// The failure of an input that ends in the given part of a record.
    pub open spec fn spec_at(stage: ReadStage) -> IoFailure {
        match stage {
            ReadStage::Prefix => IoFailure::TruncatedPrefix,
            ReadStage::Header => IoFailure::TruncatedHeader,
            ReadStage::Payload => IoFailure::TruncatedPayload,
            ReadStage::LegacyPayload => IoFailure::TruncatedLegacyPayload,
        }
    }

    #[verifier::when_used_as_spec(spec_at)]
    pub fn at(stage: ReadStage) -> (r: IoFailure)
        ensures
            r == IoFailure::spec_at(stage),
    {
        match stage {
            ReadStage::Prefix => IoFailure::TruncatedPrefix,
            ReadStage::Header => IoFailure::TruncatedHeader,
            ReadStage::Payload => IoFailure::TruncatedPayload,
            ReadStage::LegacyPayload => IoFailure::TruncatedLegacyPayload,
        }
    }

    /// The failure in words.
    pub fn message(self) -> (r: &'static str)
        ensures
            self == IoFailure::TruncatedPrefix ==> r@ == "truncated binary record prefix"@,
            self == IoFailure::TruncatedHeader ==> r@ == "truncated binary record header"@,
            self == IoFailure::TruncatedPayload ==> r@ == "truncated binary payload"@,
            self == IoFailure::TruncatedLegacyPayload ==> r@ == "truncated legacy binary payload"@,
    {
        match self {
            IoFailure::TruncatedPrefix => "truncated binary record prefix",
            IoFailure::TruncatedHeader => "truncated binary record header",
            IoFailure::TruncatedPayload => "truncated binary payload",
            IoFailure::TruncatedLegacyPayload => "truncated legacy binary payload",
        }
    }
}

/// Why replay stopped.
#[derive(Debug, PartialEq, Eq)]
pub enum ReplayError {
    Io(IoFailure),
    Decode(CodecError),
}

/// What the input's end means to a reader that has read `bytes_read`
/// bytes of the given part of a record: before the first byte of a record it
/// is the end of the tape; anywhere else the record is cut short.
pub fn on_end_of_input(stage: ReadStage, bytes_read: usize) -> (r: Result<(), ReplayError>)
    ensures
        stage == ReadStage::Prefix && bytes_read == 0 ==> r is Ok,
        !(stage == ReadStage::Prefix && bytes_read == 0) ==> r == Err::<(), ReplayError>(
            ReplayError::Io(IoFailure::spec_at(stage)),
        ),
{
    match stage {
        ReadStage::Prefix => if bytes_read == 0 {
            Ok(())
        } else {
            Err(ReplayError::Io(IoFailure::TruncatedPrefix))
        },
        _ => Err(ReplayError::Io(IoFailure::at(stage))),
    }
}

/// What follows a record's first four bytes.
#[derive(Debug, Clone, Copy, PartialEq, Eq, Structural)]
pub enum PrefixPlan {
    /// The magic: the rest of a header follows.
    Framed,
    /// Anything else is the length of a bare payload, which follows.
    Legacy { payload_len: usize },
}

/// What follows the four bytes at `at`.
pub open spec fn prefix_plan(bytes: Seq<u8>, at: int) -> PrefixPlan {
    if bytes.subrange(at, at + 4) == BIN_RECORD_MAGIC@ {
        PrefixPlan::Framed
    } else {
        PrefixPlan::Legacy { payload_len: le_u32_at(bytes, at) as usize }
    }
}

/// Reads what follows from a record's first four bytes, which stand at
/// `at`.
pub fn plan_after_prefix(bytes: &[u8], at: usize) -> (r: PrefixPlan)
    requires
        at + 4 <= bytes@.len(),
    ensures
        r == prefix_plan(bytes@, at as int),
{
    if bytes[at] == BIN_RECORD_MAGIC[0] && bytes[at + 1] == BIN_RECORD_MAGIC[1] && bytes[at + 2]
        == BIN_RECORD_MAGIC[2] && bytes[at + 3] == BIN_RECORD_MAGIC[3] {
        assert(bytes@.subrange(at as int, at + 4) =~= BIN_RECORD_MAGIC@);
        PrefixPlan::Framed
    } else {
        assert(bytes@.subrange(at as int, at + 4) != BIN_RECORD_MAGIC@) by {
            let prefix = bytes@.subrange(at as int, at + 4);
            if prefix == BIN_RECORD_MAGIC@ {
                assert(prefix[0] == BIN_RECORD_MAGIC@[0]);
                assert(prefix[1] == BIN_RECORD_MAGIC@[1]);
                assert(prefix[2] == BIN_RECORD_MAGIC@[2]);
                assert(prefix[3] == BIN_RECORD_MAGIC@[3]);
            }
        }
        let len = bytes[at] as u32 + 256 * (bytes[at + 1] as u32) + 65536 * (bytes[at + 2] as u32)
            + 16777216 * (bytes[at + 3] as u32);
        PrefixPlan::Legacy { payload_len: len as usize }
    }
}

/// Where a record's payload lies in the input, and where the next record
/// starts.
#[derive(Debug, Clone, Copy, PartialEq, Eq, Structural)]
pub struct RecordSpan {
    pub payload_start: usize,
    pub payload_end: usize,
    pub next_pos: usize,
}

/// What stands at `pos` in a binary log: nothing at its end; a record cut
/// short; a framed record that does not pass its checks; or a record's
/// payload. A record that starts with the magic is framed; any other starts
/// with the length of its payload.
pub open spec fn record_at(data: Seq<u8>, pos: int) -> Result<Option<RecordSpan>, ReplayError> {
    let rest = data.len() - pos;
    if rest == 0 {
        Ok(None)
    } else if rest < 4 {
        Err(ReplayError::Io(IoFailure::TruncatedPrefix))
    } else {
        match prefix_plan(data, pos) {
            PrefixPlan::Framed => if rest < BIN_RECORD_HEADER_LEN {
                Err(ReplayError::Io(IoFailure::TruncatedHeader))
            } else {
                match header_of(data.subrange(pos, pos + BIN_RECORD_HEADER_LEN)) {
                    Err(e) => Err(ReplayError::Decode(e)),
                    Ok(header) => if rest - BIN_RECORD_HEADER_LEN < header.payload_len {
                        Err(ReplayError::Io(IoFailure::TruncatedPayload))
                    } else {
                        let end = pos + BIN_RECORD_HEADER_LEN + header.payload_len;
                        match payload_of(data.subrange(pos, end)) {
                            Err(e) => Err(ReplayError::Decode(e)),
                            Ok(_) => Ok(
                                Some(
                                    RecordSpan {
                                        payload_start: (pos + BIN_RECORD_HEADER_LEN) as usize,
                                        payload_end: end as usize,
                                        next_pos: end as usize,
                                    },
                                ),
                            ),
                        }
                    },
                }
            },
            PrefixPlan::Legacy { payload_len } => if rest - 4 < payload_len {
                Err(ReplayError::Io(IoFailure::TruncatedLegacyPayload))
            } else {
                Ok(
                    Some(
                        RecordSpan {
                            payload_start: (pos + 4) as usize,
                            payload_end: (pos + 4 + payload_len) as usize,
                            next_pos: (pos + 4 + payload_len) as usize,
                        },
                    ),
                )
            },
        }
    }
}

/// Finds the record that starts at `pos` in a binary log held in memory.
pub fn next_record(data: &[u8], pos: usize) -> (r: Result<Option<RecordSpan>, ReplayError>)
    requires
        pos <= data@.len(),
    ensures
        r == record_at(data@, pos as int),
        r matches Ok(Some(span)) ==> pos < span.payload_start <= span.payload_end == span.next_pos
            <= data@.len(),
{
    let rest = data.len() - pos;
    if rest == 0 {
        return Ok(None);
    }
    if rest < 4 {
        return Err(ReplayError::Io(IoFailure::TruncatedPrefix));
    }
    match plan_after_prefix(data, pos) {
        PrefixPlan::Framed => {
            if rest < BIN_RECORD_HEADER_LEN {
                return Err(ReplayError::Io(IoFailure::TruncatedHeader));
            }
            let header_slice = slice_subrange(data, pos, pos + BIN_RECORD_HEADER_LEN);
            let header = match decode_event_bin_header(header_slice) {
                Ok(header) => header,
                Err(e) => {
                    return Err(ReplayError::Decode(e));
                },
            };
            if rest - BIN_RECORD_HEADER_LEN < header.payload_len {
                return Err(ReplayError::Io(IoFailure::TruncatedPayload));
            }
            let end = pos + BIN_RECORD_HEADER_LEN + header.payload_len;
            let record = slice_subrange(data, pos, end);
            match decode_event_bin_record(record) {
                Ok(_) => Ok(
                    Some(
                        RecordSpan {
                            payload_start: pos + BIN_RECORD_HEADER_LEN,
                            payload_end: end,
                            next_pos: end,
                        },
                    ),
                ),
                Err(e) => Err(ReplayError::Decode(e)),
            }
        },
        PrefixPlan::Legacy { payload_len } => {
            if rest - 4 < payload_len {
                return Err(ReplayError::Io(IoFailure::TruncatedLegacyPayload));
            }
            let end = pos + 4 + payload_len;
            Ok(Some(RecordSpan { payload_start: pos + 4, payload_end: end, next_pos: end }))
        },
    }
}

/// What a reader of a stream does next with the record it is reading.
#[derive(Debug, Clone, Copy, PartialEq, Eq, Structural)]
pub enum FrameStep {
    /// Read on until `total_len` bytes of the record are held; they belong
    /// to the given part of it.
    Need { stage: ReadStage, total_len: usize },
    /// The record is whole and has passed its checks: its payload lies at
    /// `start..end` of the bytes held.
    Payload { start: usize, end: usize },
}

/// The next step for a reader that holds `held` as the first bytes of a
/// record. It reads the prefix, then, of a framed record, the rest of the
/// header and the payload that the header announces, and of a bare record
/// the payload that the prefix announces. A header that does not pass its
/// checks, a record longer than memory can address, and a whole framed
/// record that does not pass its checks end the reading.
pub open spec fn frame_step_of(held: Seq<u8>) -> Result<FrameStep, ReplayError> {
    if held.len() < 4 {
        Ok(FrameStep::Need { stage: ReadStage::Prefix, total_len: 4 })
    } else {
        match prefix_plan(held, 0) {
            PrefixPlan::Framed => if held.len() < BIN_RECORD_HEADER_LEN {
                Ok(FrameStep::Need { stage: ReadStage::Header, total_len: BIN_RECORD_HEADER_LEN })
            } else {
                match header_of(held.subrange(0, BIN_RECORD_HEADER_LEN as int)) {
                    Err(e) => Err(ReplayError::Decode(e)),
                    Ok(header) => if BIN_RECORD_HEADER_LEN + header.payload_len > usize::MAX {
                        Err(
                            ReplayError::Decode(
                                CodecError::BinaryLengthOverflow(header.payload_len),
                            ),
                        )
                    } else if held.len() < BIN_RECORD_HEADER_LEN + header.payload_len {
                        Ok(
                            FrameStep::Need {
                                stage: ReadStage::Payload,
                                total_len: (BIN_RECORD_HEADER_LEN + header.payload_len) as usize,
                            },
                        )
                    } else {
                        match payload_of(held) {
                            Err(e) => Err(ReplayError::Decode(e)),
                            Ok(_) => Ok(
                                FrameStep::Payload {
                                    start: BIN_RECORD_HEADER_LEN,
                                    end: held.len() as usize,
                                },
                            ),
                        }
                    },
                }
            },
            PrefixPlan::Legacy { payload_len } => if 4 + payload_len > usize::MAX {
                Err(ReplayError::Decode(CodecError::BinaryLengthOverflow(payload_len)))
            } else if held.len() < 4 + payload_len {
                Ok(
                    FrameStep::Need {
                        stage: ReadStage::LegacyPayload,
                        total_len: (4 + payload_len) as usize,
                    },
                )
            } else {
                Ok(FrameStep::Payload { start: 4, end: (4 + payload_len) as usize })
            },
        }
    }
}

/// Decides the next step for a reader of a stream that holds `held` as
/// the first bytes of a record.
pub fn frame_step(held: &[u8]) -> (r: Result<FrameStep, ReplayError>)
    ensures
        r == frame_step_of(held@),
        r matches Ok(FrameStep::Need { total_len, .. }) ==> held@.len() < total_len,
        r matches Ok(FrameStep::Payload { start, end }) ==> start <= end <= held@.len(),
{
    if held.len() < 4 {
        return Ok(FrameStep::Need { stage: ReadStage::Prefix, total_len: 4 });
    }
    match plan_after_prefix(held, 0) {
        PrefixPlan::Framed => {
            if held.len() < BIN_RECORD_HEADER_LEN {
                return Ok(
                    FrameStep::Need { stage: ReadStage::Header, total_len: BIN_RECORD_HEADER_LEN },
                );
            }
            let header = match decode_event_bin_header(
                slice_subrange(held, 0, BIN_RECORD_HEADER_LEN),
            ) {
                Ok(header) => header,
                Err(e) => {
                    return Err(ReplayError::Decode(e));
                },
            };
            let total_len = match BIN_RECORD_HEADER_LEN.checked_add(header.payload_len) {
                Some(total_len) => total_len,
                None => {
                    return Err(
                        ReplayError::Decode(CodecError::BinaryLengthOverflow(header.payload_len)),
                    );
                },
            };
            if held.len() < total_len {
                return Ok(FrameStep::Need { stage: ReadStage::Payload, total_len });
            }
            match decode_event_bin_record(held) {
                Ok(_) => Ok(FrameStep::Payload { start: BIN_RECORD_HEADER_LEN, end: held.len() }),
                Err(e) => Err(ReplayError::Decode(e)),
            }
        },
        PrefixPlan::Legacy { payload_len } => {
            let total_len = match payload_len.checked_add(4) {
                Some(total_len) => total_len,
                None => {
                    return Err(ReplayError::Decode(CodecError::BinaryLengthOverflow(payload_len)));
                },
            };
            if held.len() < total_len {
                return Ok(FrameStep::Need { stage: ReadStage::LegacyPayload, total_len });
            }
            Ok(FrameStep::Payload { start: 4, end: total_len })
        },
    }
}

/// A reader of a stream that holds exactly one record finds the payload
/// that a reader of the same bytes in memory finds.
pub proof fn lemma_stream_and_memory_agree(held: Seq<u8>, start: usize, end: usize)
    requires
        frame_step_of(held) == Ok::<FrameStep, ReplayError>(FrameStep::Payload { start, end }),
        end == held.len(),
    ensures
        record_at(held, 0) == Ok::<Option<RecordSpan>, ReplayError>(
            Some(RecordSpan { payload_start: start, payload_end: end, next_pos: end }),
        ),
{
    match prefix_plan(held, 0) {
        PrefixPlan::Framed => {
            let header = header_of(held.subrange(0, BIN_RECORD_HEADER_LEN as int))->Ok_0;
            let head = held.subrange(0, BIN_RECORD_HEADER_LEN as int);
            assert(head.subrange(0, 4) =~= held.subrange(0, 4));
            assert(head[4] == held[4]);
            assert(le_u32_at(head, 5) == le_u32_at(held, 5));
            assert(le_u32_at(head, 9) == le_u32_at(held, 9));
            assert(header_of(head) == header_of(held));
            assert(held.skip(BIN_RECORD_HEADER_LEN as int).len() == header.payload_len);
            assert(held.subrange(0, held.len() as int) =~= held);
        },
        PrefixPlan::Legacy { payload_len } => {},
    }
}

/// A framed record written at the end of a log is found there, whole, and
/// nothing follows it.
pub proof fn lemma_written_record_is_found(log: Seq<u8>, payload: Seq<u8>)
    requires
        payload.len() <= u32::MAX,
        log.len() + BIN_RECORD_HEADER_LEN + payload.len() <= usize::MAX,
    ensures
        ({
            let data = log + crate::codec::record_bytes(payload);
            let start = log.len() + BIN_RECORD_HEADER_LEN;
            &&& record_at(data, log.len() as int) == Ok::<Option<RecordSpan>, ReplayError>(
                Some(
                    RecordSpan {
                        payload_start: start as usize,
                        payload_end: (start + payload.len()) as usize,
                        next_pos: (start + payload.len()) as usize,
                    },
                ),
            )
            &&& data.subrange(start as int, start + payload.len()) == payload
            &&& record_at(data, start + payload.len()) == Ok::<Option<RecordSpan>, ReplayError>(
                None,
            )
        }),
{
    let record = crate::codec::record_bytes(payload);
    let data = log + record;
    let pos = log.len() as int;
    crate::codec::lemma_record_round_trip(payload);
    assert(record.len() == BIN_RECORD_HEADER_LEN + payload.len());
    assert(data.subrange(pos, pos + record.len()) =~= record);
    assert(data.subrange(pos, pos + 4) =~= record.subrange(0, 4));
    assert(record.subrange(0, 4) =~= BIN_RECORD_MAGIC@);
    assert(data.subrange(pos, pos + BIN_RECORD_HEADER_LEN) =~= record.subrange(
        0,
        BIN_RECORD_HEADER_LEN as int,
    ));
    let head = record.subrange(0, BIN_RECORD_HEADER_LEN as int);
    assert(head.subrange(0, 4) =~= record.subrange(0, 4));
    assert(head[4] == record[4]);
    assert(le_u32_at(head, 5) == le_u32_at(record, 5));
    assert(le_u32_at(head, 9) == le_u32_at(record, 9));
    assert(header_of(head) == header_of(record));
    assert(data.subrange(pos + BIN_RECORD_HEADER_LEN, pos + record.len()) =~= payload);
}

} // verus!
