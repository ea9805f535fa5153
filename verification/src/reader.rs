use crate::checksum::masked_crc;
use crate::decode::decode_event;
use crate::error::Error;
use crate::event::Event;
use crate::record::read_outcome;
use crate::record::ReadOutcome;
use vstd::bytes::u32_from_le_bytes;
use vstd::bytes::u64_from_le_bytes;
use vstd::prelude::*;
use vstd::slice::slice_subrange;
use vstd::slice::slice_to_vec;

verus! {

/// Pulls records one at a time, in order, from an in-memory log. The caller
/// reads its input stream into the byte buffer and hands it over; the reader
/// owns it to exhaustion or first terminal error, with no restart and no
/// seeking backward. After a pull yields an error, the reader's position is
/// wherever the failing read left it: callers must treat the sequence as
/// exhausted after the first error.
pub struct SummaryReader {
    data: Vec<u8>,
    pos: usize,
}

impl SummaryReader {
    /// The whole log this reader walks.
    pub closed spec fn bytes(self) -> Seq<u8> {
        self.data@
    }

    /// How many bytes have been consumed.
    pub closed spec fn position(self) -> int {
        self.pos as int
    }

    pub open spec fn wf(self) -> bool {
        self.position() <= self.bytes().len()
    }

    /// The bytes not yet consumed: what the next pull reads.
    pub open spec fn remaining(self) -> Seq<u8> {
        self.bytes().skip(self.position())
    }

    /// Wraps a byte buffer holding a whole log.
    pub fn new(data: Vec<u8>) -> (r: Self)
        ensures
            r.wf(),
            r.bytes() == data@,
            r.position() == 0,
    {
        SummaryReader { data, pos: 0 }
    }

    /// Pulls the next record. Yields `None` exactly at a clean end of the
    /// log (no byte left); otherwise one decoded event, or the error that
    /// classifies precisely what is wrong with the record at the front of
    /// the remaining bytes.
    #[verifier::rlimit(100)]
    #[verifier::spinoff_prover]
    pub fn next(&mut self) -> (r: Option<Result<Event, Error>>)
        requires
            old(self).wf(),
        ensures
            final(self).wf(),
            final(self).bytes() == old(self).bytes(),
            match read_outcome(old(self).remaining()) {
                ReadOutcome::End => r is None && final(self).position() == old(self).position(),
                ReadOutcome::Truncated => r == Some(Result::<Event, Error>::Err(Error::Io)),
                ReadOutcome::BadLenCrc { file_crc, computed_crc } => r == Some(
                    Result::<Event, Error>::Err(Error::LenCrcMismatch { file_crc, computed_crc }),
                ),
                ReadOutcome::Undecodable => r == Some(
                    Result::<Event, Error>::Err(Error::Decode),
                ),
                ReadOutcome::BadPayloadCrc { file_crc, computed_crc } => r == Some(
                    Result::<Event, Error>::Err(Error::CrcMismatch { file_crc, computed_crc }),
                ),
                ReadOutcome::Next { event, consumed } => (match r {
                    Some(Result::<Event, Error>::Ok(e)) => e@ == event,
                    _ => false,
                }) && final(self).position() == old(self).position() + consumed,
            },
    {
        let ghost s = self.data@.skip(self.pos as int);
        let len = self.data.len();
        if self.pos == len {
            return None;
        }
        if len - self.pos < 12 {
            return Some(Err(Error::Io));
        }
        let lb = slice_subrange(self.data.as_slice(), self.pos, self.pos + 8);
        proof {
            assert(lb@ =~= s.subrange(0, 8));
        }
        let computed_crc = masked_crc(lb);
        let cb = slice_subrange(self.data.as_slice(), self.pos + 8, self.pos + 12);
        proof {
            assert(cb@ =~= s.subrange(8, 12));
        }
        let file_crc = u32_from_le_bytes(cb);
        if file_crc != computed_crc {
            return Some(Err(Error::LenCrcMismatch { file_crc, computed_crc }));
        }
        let lb2 = slice_subrange(self.data.as_slice(), self.pos, self.pos + 8);
        proof {
            assert(lb2@ =~= s.subrange(0, 8));
        }
        let n64 = u64_from_le_bytes(lb2);
        if n64 > (len - (self.pos + 12)) as u64 {
            return Some(Err(Error::Io));
        }
        let n = n64 as usize;
        let payload = slice_to_vec(
            slice_subrange(self.data.as_slice(), self.pos + 12, self.pos + 12 + n),
        );
        proof {
            assert(payload@ =~= s.subrange(12, 12 + n as int));
        }
        let event = match decode_event(payload.as_slice()) {
            Option::None => {
                return Some(Err(Error::Decode));
            },
            Option::Some(e) => e,
        };
        if len - (self.pos + 12 + n) < 4 {
            return Some(Err(Error::Io));
        }
        let cb2 = slice_subrange(self.data.as_slice(), self.pos + 12 + n, self.pos + 16 + n);
        proof {
            assert(cb2@ =~= s.subrange(12 + n as int, 16 + n as int));
        }
        let file_crc = u32_from_le_bytes(cb2);
        let computed_crc = masked_crc(payload.as_slice());
        if file_crc != computed_crc {
            return Some(Err(Error::CrcMismatch { file_crc, computed_crc }));
        }
        self.pos = self.pos + 16 + n;
        Some(Ok(event))
    }
}

} // verus!
