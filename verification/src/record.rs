use crate::checksum::masked_crc;
use crate::checksum::spec_masked_crc;
use crate::event::EventView;
use crate::wire::dec_event;
use crate::wire::enc_event;
use crate::wire::lemma_dec_event;
use crate::wire::wf_event;
use vstd::bytes::lemma_auto_spec_u32_to_from_le_bytes;
use vstd::bytes::lemma_auto_spec_u64_to_from_le_bytes;
use vstd::bytes::spec_u32_from_le_bytes;
use vstd::bytes::spec_u32_to_le_bytes;
use vstd::bytes::spec_u64_from_le_bytes;
use vstd::bytes::spec_u64_to_le_bytes;
use vstd::bytes::u32_to_le_bytes;
use vstd::bytes::u64_to_le_bytes;
use vstd::prelude::*;

verus! {

// ---------------------------------------------------------------------------
// The record framing: length, masked CRC of the length bytes, payload,
// masked CRC of the payload. A log is a plain concatenation of such records.
// ---------------------------------------------------------------------------

/// The framed wire form of one record around `payload`.
pub open spec fn frame(payload: Seq<u8>) -> Seq<u8> {
    spec_u64_to_le_bytes(payload.len() as u64) + spec_u32_to_le_bytes(
        spec_masked_crc(spec_u64_to_le_bytes(payload.len() as u64)),
    ) + payload + spec_u32_to_le_bytes(spec_masked_crc(payload))
}

/// Appends one framed record around `payload` to `out`.
pub fn append_record(out: &mut Vec<u8>, payload: &[u8])
    ensures
        final(out)@ == old(out)@ + frame(payload@),
{
    let mut len_bytes = u64_to_le_bytes(payload.len() as u64);
    let len_crc = masked_crc(len_bytes.as_slice());
    out.append(&mut len_bytes);
    let mut crc_bytes = u32_to_le_bytes(len_crc);
    out.append(&mut crc_bytes);
    out.extend_from_slice(payload);
    let payload_crc = masked_crc(payload);
    let mut crc_bytes2 = u32_to_le_bytes(payload_crc);
    out.append(&mut crc_bytes2);
    assert(out@ =~= old(out)@ + frame(payload@));
}

// ---------------------------------------------------------------------------
// What one pull of the reader finds at the front of the remaining bytes.
// ---------------------------------------------------------------------------

/// The outcome of reading one record from the front of a byte sequence.
pub enum ReadOutcome {
    /// The sequence is empty: the one clean end of a log.
    End,
    /// The sequence ends inside the record: a truncation, reported as an
    /// input failure, never as a clean end.
    Truncated,
    /// The stored length checksum disagrees with the computed one.
    BadLenCrc { file_crc: u32, computed_crc: u32 },
    /// The payload bytes do not parse as an event.
    Undecodable,
    /// The stored payload checksum disagrees with the computed one.
    BadPayloadCrc { file_crc: u32, computed_crc: u32 },
    /// A whole record: the decoded event and how many bytes it occupied.
    Next { event: EventView, consumed: int },
}

/// Reads one record from the front of `s`, strictly in wire order: the
/// length field, its checksum, the payload, the payload checksum. Checks are
/// made in exactly the order the reader makes them.
pub open spec fn read_outcome(s: Seq<u8>) -> ReadOutcome {
    if s.len() == 0 {
        ReadOutcome::End
    } else if s.len() < 12 {
        ReadOutcome::Truncated
    } else {
        let lb = s.subrange(0, 8);
        let file1 = spec_u32_from_le_bytes(s.subrange(8, 12));
        let comp1 = spec_masked_crc(lb);
        if file1 != comp1 {
            ReadOutcome::BadLenCrc { file_crc: file1, computed_crc: comp1 }
        } else {
            let n = spec_u64_from_le_bytes(lb) as int;
            if s.len() - 12 < n {
                ReadOutcome::Truncated
            } else {
                let payload = s.subrange(12, 12 + n);
                match dec_event(payload) {
                    None => ReadOutcome::Undecodable,
                    Some(ev) => if s.len() < 16 + n {
                        ReadOutcome::Truncated
                    } else {
                        let file2 = spec_u32_from_le_bytes(s.subrange(12 + n, 16 + n));
                        let comp2 = spec_masked_crc(payload);
                        if file2 != comp2 {
                            ReadOutcome::BadPayloadCrc { file_crc: file2, computed_crc: comp2 }
                        } else {
                            ReadOutcome::Next { event: ev, consumed: 16 + n }
                        }
                    },
                }
            }
        }
    }
}

/// All events of a log, in order; `None` as soon as any record fails.
pub open spec fn read_events(s: Seq<u8>) -> Option<Seq<EventView>>
    decreases s.len(),
{
    match read_outcome(s) {
        ReadOutcome::End => Some(Seq::empty()),
        ReadOutcome::Next { event, consumed } => if 0 < consumed <= s.len() {
            match read_events(s.skip(consumed)) {
                None => None,
                Some(t) => Some(seq![event] + t),
            }
        } else {
            None
        },
        _ => None,
    }
}

/// The concatenation of one framed record per event, in order: what a writer
/// emits for `events`.
pub open spec fn stream_of(events: Seq<EventView>) -> Seq<u8>
    decreases events.len(),
{
    if events.len() == 0 {
        seq![]
    } else {
        frame(enc_event(events[0])) + stream_of(events.skip(1))
    }
}

/// Reading the front of a well-framed record finds exactly its payload: the
/// length and both checksums agree by construction, so the outcome is decided
/// by the payload bytes alone.
pub proof fn lemma_read_record(payload: Seq<u8>, rest: Seq<u8>)
    requires
        payload.len() <= u64::MAX,
    ensures
        ({
            let s = frame(payload) + rest;
            match dec_event(payload) {
                Some(ev) => read_outcome(s) == (ReadOutcome::Next {
                    event: ev,
                    consumed: 16 + payload.len() as int,
                }),
                None => read_outcome(s) == ReadOutcome::Undecodable,
            }
        }),
{
    lemma_auto_spec_u64_to_from_le_bytes();
    lemma_auto_spec_u32_to_from_le_bytes();
    let s = frame(payload) + rest;
    let n = payload.len() as int;
    let lb = spec_u64_to_le_bytes(payload.len() as u64);
    assert(s.len() == 16 + n + rest.len());
    assert(s.subrange(0, 8) =~= lb);
    assert(s.subrange(8, 12) =~= spec_u32_to_le_bytes(spec_masked_crc(lb)));
    assert(s.subrange(12, 12 + n) =~= payload);
    assert(s.subrange(12 + n, 16 + n) =~= spec_u32_to_le_bytes(spec_masked_crc(payload)));
}

/// Round trip for a whole log: writing any sequence of well-formed events and
/// reading the log back yields exactly those events, in order.
#[verifier::rlimit(100)]
#[verifier::spinoff_prover]
pub proof fn lemma_stream_round_trip(events: Seq<EventView>)
    requires
        forall|i: int| 0 <= i < events.len() ==> wf_event(#[trigger] events[i]),
    ensures
        read_events(stream_of(events)) == Some(events),
    decreases events.len(),
{
    if events.len() == 0 {
        assert(stream_of(events) =~= Seq::<u8>::empty());
        assert(events =~= Seq::<EventView>::empty());
    } else {
        lemma_auto_spec_u64_to_from_le_bytes();
        lemma_auto_spec_u32_to_from_le_bytes();
        let e0 = events[0];
        let payload = enc_event(e0);
        let rest = stream_of(events.skip(1));
        let s = stream_of(events);
        assert(s == frame(payload) + rest);
        lemma_dec_event(e0);
        lemma_read_record(payload, rest);
        assert(s.skip(16 + payload.len() as int) =~= rest);
        lemma_stream_round_trip(events.skip(1));
        assert(seq![e0] + events.skip(1) =~= events);
    }
}

/// An empty log reads back as the empty sequence of events, with no error.
pub proof fn lemma_empty_stream()
    ensures
        read_events(Seq::<u8>::empty()) == Some(Seq::<EventView>::empty()),
{
}

/// Corrupting the stored length checksum of a record, in any way at all, is
/// reported as a length-checksum mismatch carrying the stored and computed
/// values, and as nothing else.
pub proof fn lemma_len_crc_corruption(payload: Seq<u8>, rest: Seq<u8>, bad: Seq<u8>)
    requires
        payload.len() <= u64::MAX,
        bad.len() == 4,
        bad != spec_u32_to_le_bytes(
            spec_masked_crc(spec_u64_to_le_bytes(payload.len() as u64)),
        ),
    ensures
        ({
            let lb = spec_u64_to_le_bytes(payload.len() as u64);
            let s = lb + bad + payload + spec_u32_to_le_bytes(spec_masked_crc(payload)) + rest;
            read_outcome(s) == (ReadOutcome::BadLenCrc {
                file_crc: spec_u32_from_le_bytes(bad),
                computed_crc: spec_masked_crc(lb),
            })
        }),
{
    lemma_auto_spec_u64_to_from_le_bytes();
    lemma_auto_spec_u32_to_from_le_bytes();
    let lb = spec_u64_to_le_bytes(payload.len() as u64);
    let s = lb + bad + payload + spec_u32_to_le_bytes(spec_masked_crc(payload)) + rest;
    assert(s.subrange(0, 8) =~= lb);
    assert(s.subrange(8, 12) =~= bad);
    assert(spec_u32_from_le_bytes(bad) != spec_masked_crc(lb)) by {
        if spec_u32_from_le_bytes(bad) == spec_masked_crc(lb) {
            assert(spec_u32_to_le_bytes(spec_u32_from_le_bytes(bad)) =~= bad);
        }
    }
}

/// Corrupting the stored payload checksum of a record whose payload decodes
/// is reported as a payload-checksum mismatch carrying the stored and
/// computed values, and as nothing else.
pub proof fn lemma_payload_crc_corruption(payload: Seq<u8>, rest: Seq<u8>, bad: Seq<u8>)
    requires
        payload.len() <= u64::MAX,
        bad.len() == 4,
        bad != spec_u32_to_le_bytes(spec_masked_crc(payload)),
        dec_event(payload) is Some,
    ensures
        ({
            let lb = spec_u64_to_le_bytes(payload.len() as u64);
            let s = lb + spec_u32_to_le_bytes(spec_masked_crc(lb)) + payload + bad + rest;
            read_outcome(s) == (ReadOutcome::BadPayloadCrc {
                file_crc: spec_u32_from_le_bytes(bad),
                computed_crc: spec_masked_crc(payload),
            })
        }),
{
    lemma_auto_spec_u64_to_from_le_bytes();
    lemma_auto_spec_u32_to_from_le_bytes();
    let n = payload.len() as int;
    let lb = spec_u64_to_le_bytes(payload.len() as u64);
    let s = lb + spec_u32_to_le_bytes(spec_masked_crc(lb)) + payload + bad + rest;
    assert(s.subrange(0, 8) =~= lb);
    assert(s.subrange(8, 12) =~= spec_u32_to_le_bytes(spec_masked_crc(lb)));
    assert(s.subrange(12, 12 + n) =~= payload);
    assert(s.subrange(12 + n, 16 + n) =~= bad);
    assert(spec_u32_from_le_bytes(bad) != spec_masked_crc(payload)) by {
        if spec_u32_from_le_bytes(bad) == spec_masked_crc(payload) {
            assert(spec_u32_to_le_bytes(spec_u32_from_le_bytes(bad)) =~= bad);
        }
    }
}

/// A truncated record is always an input failure, never a clean end and
/// never a silent success: cutting a well-formed record anywhere strictly
/// inside it reads back as a truncation.
pub proof fn lemma_truncated_record(e: EventView, cut: int)
    requires
        wf_event(e),
        0 < cut < frame(enc_event(e)).len(),
    ensures
        read_outcome(frame(enc_event(e)).take(cut)) == ReadOutcome::Truncated,
{
    lemma_auto_spec_u64_to_from_le_bytes();
    lemma_auto_spec_u32_to_from_le_bytes();
    let payload = enc_event(e);
    let n = payload.len() as int;
    let data = frame(payload);
    let s = data.take(cut);
    assert(data.len() == 16 + n);
    assert(s.len() == cut);
    if cut < 12 {
    } else {
        let lb = spec_u64_to_le_bytes(payload.len() as u64);
        assert(s.subrange(0, 8) =~= lb);
        assert(s.subrange(8, 12) =~= spec_u32_to_le_bytes(spec_masked_crc(lb)));
        if cut < 12 + n {
        } else {
            assert(s.subrange(12, 12 + n) =~= payload);
            lemma_dec_event(e);
            assert(s.len() < 16 + n);
        }
    }
}

} // verus!
