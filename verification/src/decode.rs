use crate::codec::dec_bytes_field;
use crate::codec::dec_fixed32_field;
use crate::codec::dec_fixed64_field;
use crate::codec::dec_le64_seq;
use crate::codec::dec_len_prefixed;
use crate::codec::dec_packed64_field;
use crate::codec::dec_string_field;
use crate::codec::dec_varint;
use crate::codec::dec_varint_field;
use crate::codec::i64_from_bits;
use crate::event::Audio;
use crate::event::Event;
use crate::event::Histogram;
use crate::event::Image;
use crate::event::LogMessage;
use crate::event::SessionLog;
use crate::event::SourceMetadata;
use crate::event::Summary;
use crate::event::SummaryPayload;
use crate::event::SummaryValue;
use crate::event::TaggedRunMetadata;
use crate::event::Tensor;
use crate::event::What;
use crate::wire::dec_audio;
use crate::wire::dec_event;
use crate::wire::dec_histogram;
use crate::wire::dec_i32_bits;
use crate::wire::dec_image;
use crate::wire::dec_log_message;
use crate::wire::dec_opt_source_metadata;
use crate::wire::dec_session_log;
use crate::wire::dec_summary;
use crate::wire::dec_summary_payload;
use crate::wire::dec_summary_value;
use crate::wire::dec_tensor;
use crate::wire::dec_tagged_run_metadata;
use crate::wire::dec_what;
use vstd::bytes::spec_u64_from_le_bytes;
use vstd::bytes::u32_from_le_bytes;
use vstd::bytes::u64_from_le_bytes;
use vstd::prelude::*;
use vstd::slice::slice_subrange;
use vstd::slice::slice_to_vec;
use vstd::utf8::decode_utf8;
use vstd::utf8::encode_utf8;
use vstd::utf8::valid_utf8;

verus! {

proof fn lemma_skip_skip<A>(s: Seq<A>, a: int, b: int)
    requires
        0 <= a,
        0 <= b,
        a + b <= s.len(),
    ensures
        s.skip(a).skip(b) == s.skip(a + b),
{
    assert(s.skip(a).skip(b) =~= s.skip(a + b));
}

/// The signed value whose 64-bit two's-complement bits are `n`, computed
/// without widening casts.
pub fn i64_of_bits(n: u64) -> (r: i64)
    ensures
        r == i64_from_bits(n),
{
    if n <= i64::MAX as u64 {
        n as i64
    } else {
        let y: u64 = u64::MAX - n;
        -(y as i64) - 1
    }
}

fn i32_of_bits(n: u64) -> (r: Option<i32>)
    ensures
        r == dec_i32_bits(n),
{
    let v = i64_of_bits(n);
    if i32::MIN as i64 <= v && v <= i32::MAX as i64 {
        Some(v as i32)
    } else {
        None
    }
}

/// Relies on String::from_utf8: returns the string whose UTF-8 encoding is
/// exactly the given bytes, and fails exactly on bytes that are not valid
/// UTF-8.
#[verifier::external_body]
fn string_from_utf8(v: Vec<u8>) -> (r: Option<String>)
    ensures
        r matches Some(s) ==> s@ == decode_utf8(v@),
        r is Some <==> valid_utf8(v@),
{
    String::from_utf8(v).ok()
}

fn string_of_bytes(v: Vec<u8>) -> (r: Option<String>)
    ensures
        r matches Some(s) ==> encode_utf8(s@) == v@,
        r is Some <==> valid_utf8(v@),
{
    let ghost bytes = v@;
    let r = string_from_utf8(v);
    proof {
        if valid_utf8(bytes) {
            vstd::utf8::decode_utf8_encode_utf8(bytes);
        }
    }
    r
}

fn take_varint(data: &[u8], pos: usize) -> (r: Option<(u64, usize)>)
    requires
        pos <= data@.len(),
    ensures
        match r {
            Some(v) => pos < v.1 <= data@.len() && dec_varint(data@.skip(pos as int)) == Some(
                (v.0, v.1 - pos as int),
            ),
            None => dec_varint(data@.skip(pos as int)) is None,
        },
    decreases data@.len() - pos,
{
    let ghost s = data@.skip(pos as int);
    if pos == data.len() {
        None
    } else {
        let b = data[pos];
        assert(s[0] == b);
        if b < 0x80 {
            Some((b as u64, pos + 1))
        } else {
            proof {
                lemma_skip_skip(data@, pos as int, 1);
            }
            match take_varint(data, pos + 1) {
                None => None,
                Some((v, p2)) => {
                    let cap: u64 = (u64::MAX - 0x7f) / 0x80;
                    if v <= cap {
                        Some((v * 0x80 + (b - 0x80) as u64, p2))
                    } else {
                        None
                    }
                },
            }
        }
    }
}

fn take_varint_field(data: &[u8], pos: usize, tag: u8) -> (r: Option<(u64, usize)>)
    requires
        pos <= data@.len(),
    ensures
        match r {
            Some(v) => pos <= v.1 <= data@.len() && dec_varint_field(
                tag,
                data@.skip(pos as int),
            ) == Some((v.0, v.1 - pos as int)),
            None => dec_varint_field(tag, data@.skip(pos as int)) is None,
        },
{
    let ghost s = data@.skip(pos as int);
    if pos == data.len() || data[pos] != tag {
        Some((0, pos))
    } else {
        assert(s[0] == tag);
        proof {
            lemma_skip_skip(data@, pos as int, 1);
        }
        match take_varint(data, pos + 1) {
            None => None,
            Some((v, p2)) => Some((v, p2)),
        }
    }
}

fn take_fixed64_field(data: &[u8], pos: usize, tag: u8) -> (r: Option<(u64, usize)>)
    requires
        pos <= data@.len(),
    ensures
        match r {
            Some(v) => pos <= v.1 <= data@.len() && dec_fixed64_field(
                tag,
                data@.skip(pos as int),
            ) == Some((v.0, v.1 - pos as int)),
            None => dec_fixed64_field(tag, data@.skip(pos as int)) is None,
        },
{
    let ghost s = data@.skip(pos as int);
    if pos == data.len() || data[pos] != tag {
        Some((0, pos))
    } else if data.len() - pos < 9 {
        None
    } else {
        let le = slice_subrange(data, pos + 1, pos + 9);
        let v = u64_from_le_bytes(le);
        proof {
            assert(s.subrange(1, 9) =~= data@.subrange(pos as int + 1, pos as int + 9));
        }
        Some((v, pos + 9))
    }
}

fn take_fixed32_field(data: &[u8], pos: usize, tag: u8) -> (r: Option<(u32, usize)>)
    requires
        pos <= data@.len(),
    ensures
        match r {
            Some(v) => pos <= v.1 <= data@.len() && dec_fixed32_field(
                tag,
                data@.skip(pos as int),
            ) == Some((v.0, v.1 - pos as int)),
            None => dec_fixed32_field(tag, data@.skip(pos as int)) is None,
        },
{
    let ghost s = data@.skip(pos as int);
    if pos == data.len() || data[pos] != tag {
        Some((0, pos))
    } else if data.len() - pos < 5 {
        None
    } else {
        let le = slice_subrange(data, pos + 1, pos + 5);
        let v = u32_from_le_bytes(le);
        proof {
            assert(s.subrange(1, 5) =~= data@.subrange(pos as int + 1, pos as int + 5));
        }
        Some((v, pos + 5))
    }
}

fn take_len_prefixed(data: &[u8], pos: usize) -> (r: Option<(Vec<u8>, usize)>)
    requires
        pos <= data@.len(),
    ensures
        match r {
            Some(v) => pos <= v.1 <= data@.len() && dec_len_prefixed(data@.skip(pos as int))
                == Some((v.0@, v.1 - pos as int)),
            None => dec_len_prefixed(data@.skip(pos as int)) is None,
        },
{
    let ghost s = data@.skip(pos as int);
    match take_varint(data, pos) {
        None => None,
        Some((n, p2)) => {
            if n > (data.len() - p2) as u64 {
                None
            } else {
                let nn = n as usize;
                let b = slice_to_vec(slice_subrange(data, p2, p2 + nn));
                proof {
                    let c = p2 - pos as int;
                    assert(s.subrange(c, c + n as int) =~= data@.subrange(
                        p2 as int,
                        p2 as int + n as int,
                    ));
                }
                Some((b, p2 + nn))
            }
        },
    }
}

fn take_bytes_field(data: &[u8], pos: usize, tag: u8) -> (r: Option<(Vec<u8>, usize)>)
    requires
        pos <= data@.len(),
    ensures
        match r {
            Some(v) => pos <= v.1 <= data@.len() && dec_bytes_field(tag, data@.skip(pos as int))
                == Some((v.0@, v.1 - pos as int)),
            None => dec_bytes_field(tag, data@.skip(pos as int)) is None,
        },
{
    let ghost s = data@.skip(pos as int);
    if pos == data.len() || data[pos] != tag {
        Some((Vec::new(), pos))
    } else {
        assert(s[0] == tag);
        proof {
            lemma_skip_skip(data@, pos as int, 1);
        }
        match take_len_prefixed(data, pos + 1) {
            None => None,
            Some((b, p2)) => Some((b, p2)),
        }
    }
}

fn take_string_field(data: &[u8], pos: usize, tag: u8) -> (r: Option<(String, usize)>)
    requires
        pos <= data@.len(),
    ensures
        match r {
            Some(v) => pos <= v.1 <= data@.len() && dec_string_field(tag, data@.skip(pos as int))
                == Some((encode_utf8(v.0@), v.1 - pos as int)),
            None => dec_string_field(tag, data@.skip(pos as int)) is None,
        },
{
    match take_bytes_field(data, pos, tag) {
        None => None,
        Some((b, p2)) => match string_of_bytes(b) {
            None => None,
            Some(st) => Some((st, p2)),
        },
    }
}

/// The 64-bit values laid head to tail in `b`, eight bytes each.
spec fn chunks64(b: Seq<u8>) -> Seq<u64> {
    Seq::new((b.len() / 8) as nat, |i: int| spec_u64_from_le_bytes(b.subrange(8 * i, 8 * i + 8)))
}

proof fn lemma_dec_le64_chunks(b: Seq<u8>)
    ensures
        b.len() % 8 == 0 ==> dec_le64_seq(b) == Some(chunks64(b)),
        b.len() % 8 != 0 ==> dec_le64_seq(b) is None,
    decreases b.len(),
{
    if b.len() == 0 {
        assert(chunks64(b) =~= Seq::<u64>::empty());
    } else if b.len() < 8 {
    } else {
        lemma_dec_le64_chunks(b.skip(8));
        if b.len() % 8 == 0 {
            assert(chunks64(b) =~= seq![spec_u64_from_le_bytes(b.subrange(0, 8))] + chunks64(
                b.skip(8),
            )) by {
                assert forall|i: int| 0 <= i < b.len() / 8 implies chunks64(b)[i] == (
                seq![spec_u64_from_le_bytes(b.subrange(0, 8))] + chunks64(b.skip(8)))[i] by {
                    if i > 0 {
                        assert(b.skip(8).subrange(8 * (i - 1), 8 * (i - 1) + 8) =~= b.subrange(
                            8 * i,
                            8 * i + 8,
                        ));
                    }
                }
            }
        }
    }
}

fn take_packed64_field(data: &[u8], pos: usize, tag: u8) -> (r: Option<(Vec<u64>, usize)>)
    requires
        pos <= data@.len(),
    ensures
        match r {
            Some(v) => pos <= v.1 <= data@.len() && dec_packed64_field(
                tag,
                data@.skip(pos as int),
            ) == Some((v.0@, v.1 - pos as int)),
            None => dec_packed64_field(tag, data@.skip(pos as int)) is None,
        },
{
    let ghost s = data@.skip(pos as int);
    if pos == data.len() || data[pos] != tag {
        Some((Vec::new(), pos))
    } else {
        assert(s[0] == tag);
        proof {
            lemma_skip_skip(data@, pos as int, 1);
        }
        match take_len_prefixed(data, pos + 1) {
            None => None,
            Some((b, p2)) => {
                proof {
                    lemma_dec_le64_chunks(b@);
                }
                if b.len() % 8 != 0 {
                    None
                } else {
                    let count = b.len() / 8;
                    proof {
                        vstd::arithmetic::div_mod::lemma_fundamental_div_mod(
                            b@.len() as int,
                            8,
                        );
                    }
                    let mut out: Vec<u64> = Vec::new();
                    let mut i: usize = 0;
                    while i < count
                        invariant
                            i <= count,
                            count == b@.len() / 8,
                            8 * count <= b@.len(),
                            b@.len() <= usize::MAX,
                            out@ == chunks64(b@).subrange(0, i as int),
                        decreases count - i,
                    {
                        let le = slice_subrange(b.as_slice(), 8 * i, 8 * i + 8);
                        let v = u64_from_le_bytes(le);
                        out.push(v);
                        proof {
                            assert(out@ =~= chunks64(b@).subrange(0, i as int + 1));
                        }
                        i = i + 1;
                    }
                    proof {
                        assert(chunks64(b@).subrange(0, count as int) =~= chunks64(b@));
                    }
                    Some((out, p2))
                }
            },
        }
    }
}

fn decode_image(data: &[u8]) -> (r: Option<Image>)
    ensures
        match r {
            Some(m) => dec_image(data@) == Some(m@),
            None => dec_image(data@) is None,
        },
{
    proof {
        assert(data@.skip(0) =~= data@);
    }
    match take_varint_field(data, 0, 0x08) {
        None => None,
        Some((n1, p1)) => match i32_of_bits(n1) {
            None => None,
            Some(height) => match take_varint_field(data, p1, 0x10) {
                None => None,
                Some((n2, p2)) => match i32_of_bits(n2) {
                    None => None,
                    Some(width) => match take_varint_field(data, p2, 0x18) {
                        None => None,
                        Some((n3, p3)) => match i32_of_bits(n3) {
                            None => None,
                            Some(colorspace) => match take_bytes_field(data, p3, 0x22) {
                                None => None,
                                Some((bytes, p4)) => {
                                    if p4 == data.len() {
                                        Some(
                                            Image {
                                                height,
                                                width,
                                                colorspace,
                                                encoded_image_string: bytes,
                                            },
                                        )
                                    } else {
                                        None
                                    }
                                },
                            },
                        },
                    },
                },
            },
        },
    }
}

#[verifier::rlimit(100)]
#[verifier::spinoff_prover]
fn decode_histogram(data: &[u8]) -> (r: Option<Histogram>)
    ensures
        match r {
            Some(m) => dec_histogram(data@) == Some(m@),
            None => dec_histogram(data@) is None,
        },
{
    proof {
        assert(data@.skip(0) =~= data@);
    }
    match take_fixed64_field(data, 0, 0x09) {
        None => None,
        Some((min_bits, p1)) => match take_fixed64_field(data, p1, 0x11) {
            None => None,
            Some((max_bits, p2)) => match take_fixed64_field(data, p2, 0x19) {
                None => None,
                Some((num_bits, p3)) => match take_fixed64_field(data, p3, 0x21) {
                    None => None,
                    Some((sum_bits, p4)) => match take_fixed64_field(data, p4, 0x29) {
                        None => None,
                        Some((sum_squares_bits, p5)) => match take_packed64_field(
                            data,
                            p5,
                            0x32,
                        ) {
                            None => None,
                            Some((bucket_limit_bits, p6)) => match take_packed64_field(
                                data,
                                p6,
                                0x3a,
                            ) {
                                None => None,
                                Some((bucket_bits, p7)) => {
                                    if p7 == data.len() {
                                        Some(
                                            Histogram {
                                                min_bits,
                                                max_bits,
                                                num_bits,
                                                sum_bits,
                                                sum_squares_bits,
                                                bucket_limit_bits,
                                                bucket_bits,
                                            },
                                        )
                                    } else {
                                        None
                                    }
                                },
                            },
                        },
                    },
                },
            },
        },
    }
}

#[verifier::rlimit(100)]
#[verifier::spinoff_prover]
fn decode_audio(data: &[u8]) -> (r: Option<Audio>)
    ensures
        match r {
            Some(m) => dec_audio(data@) == Some(m@),
            None => dec_audio(data@) is None,
        },
{
    proof {
        assert(data@.skip(0) =~= data@);
    }
    match take_fixed32_field(data, 0, 0x0d) {
        None => None,
        Some((sample_rate_bits, p1)) => match take_varint_field(data, p1, 0x10) {
            None => None,
            Some((n2, p2)) => match take_varint_field(data, p2, 0x18) {
                None => None,
                Some((n3, p3)) => match take_bytes_field(data, p3, 0x22) {
                    None => None,
                    Some((bytes, p4)) => match take_string_field(data, p4, 0x2a) {
                        None => None,
                        Some((content_type, p5)) => {
                            if p5 == data.len() {
                                Some(
                                    Audio {
                                        sample_rate_bits,
                                        num_channels: i64_of_bits(n2),
                                        length_frames: i64_of_bits(n3),
                                        encoded_audio_string: bytes,
                                        content_type,
                                    },
                                )
                            } else {
                                None
                            }
                        },
                    },
                },
            },
        },
    }
}

fn decode_tensor(data: &[u8]) -> (r: Option<Tensor>)
    ensures
        match r {
            Some(m) => dec_tensor(data@) == Some(m@),
            None => dec_tensor(data@) is None,
        },
{
    proof {
        assert(data@.skip(0) =~= data@);
    }
    match take_varint_field(data, 0, 0x08) {
        None => None,
        Some((n, p1)) => match i32_of_bits(n) {
            None => None,
            Some(dtype) => {
                if p1 == data.len() {
                    Some(Tensor { dtype })
                } else {
                    None
                }
            },
        },
    }
}

fn decode_log_message(data: &[u8]) -> (r: Option<LogMessage>)
    ensures
        match r {
            Some(m) => dec_log_message(data@) == Some(m@),
            None => dec_log_message(data@) is None,
        },
{
    proof {
        assert(data@.skip(0) =~= data@);
    }
    match take_varint_field(data, 0, 0x08) {
        None => None,
        Some((n, p1)) => match i32_of_bits(n) {
            None => None,
            Some(level) => match take_string_field(data, p1, 0x12) {
                None => None,
                Some((message, p2)) => {
                    if p2 == data.len() {
                        Some(LogMessage { level, message })
                    } else {
                        None
                    }
                },
            },
        },
    }
}

fn decode_session_log(data: &[u8]) -> (r: Option<SessionLog>)
    ensures
        match r {
            Some(m) => dec_session_log(data@) == Some(m@),
            None => dec_session_log(data@) is None,
        },
{
    proof {
        assert(data@.skip(0) =~= data@);
    }
    match take_varint_field(data, 0, 0x08) {
        None => None,
        Some((n, p1)) => match i32_of_bits(n) {
            None => None,
            Some(status) => match take_string_field(data, p1, 0x12) {
                None => None,
                Some((checkpoint_path, p2)) => match take_string_field(data, p2, 0x1a) {
                    None => None,
                    Some((msg, p3)) => {
                        if p3 == data.len() {
                            Some(SessionLog { status, checkpoint_path, msg })
                        } else {
                            None
                        }
                    },
                },
            },
        },
    }
}

fn decode_tagged_run_metadata(data: &[u8]) -> (r: Option<TaggedRunMetadata>)
    ensures
        match r {
            Some(m) => dec_tagged_run_metadata(data@) == Some(m@),
            None => dec_tagged_run_metadata(data@) is None,
        },
{
    proof {
        assert(data@.skip(0) =~= data@);
    }
    match take_string_field(data, 0, 0x0a) {
        None => None,
        Some((tag, p1)) => match take_bytes_field(data, p1, 0x12) {
            None => None,
            Some((run_metadata, p2)) => {
                if p2 == data.len() {
                    Some(TaggedRunMetadata { tag, run_metadata })
                } else {
                    None
                }
            },
        },
    }
}

#[verifier::rlimit(100)]
#[verifier::spinoff_prover]
fn decode_summary_payload(data: &[u8], pos: usize) -> (r: Option<SummaryPayload>)
    requires
        pos <= data@.len(),
    ensures
        match r {
            Some(p) => dec_summary_payload(data@.skip(pos as int)) == Some(p@),
            None => dec_summary_payload(data@.skip(pos as int)) is None,
        },
{
    let ghost s = data@.skip(pos as int);
    if pos == data.len() {
        None
    } else {
        let tag = data[pos];
        assert(s[0] == tag);
        if tag == 0x15 {
            if data.len() - pos == 5 {
                let le = slice_subrange(data, pos + 1, pos + 5);
                let bits = u32_from_le_bytes(le);
                proof {
                    assert(s.subrange(1, 5) =~= data@.subrange(pos as int + 1, pos as int + 5));
                }
                Some(SummaryPayload::SimpleValue(bits))
            } else {
                None
            }
        } else {
            proof {
                lemma_skip_skip(data@, pos as int, 1);
            }
            match take_len_prefixed(data, pos + 1) {
                None => None,
                Some((b, p2)) => {
                    if p2 != data.len() {
                        None
                    } else if tag == 0x1a {
                        Some(SummaryPayload::ObsoleteHistogram(b))
                    } else if tag == 0x22 {
                        match decode_image(b.as_slice()) {
                            None => None,
                            Some(m) => Some(SummaryPayload::Image(m)),
                        }
                    } else if tag == 0x2a {
                        match decode_histogram(b.as_slice()) {
                            None => None,
                            Some(m) => Some(SummaryPayload::Histogram(m)),
                        }
                    } else if tag == 0x32 {
                        match decode_audio(b.as_slice()) {
                            None => None,
                            Some(m) => Some(SummaryPayload::Audio(m)),
                        }
                    } else if tag == 0x42 {
                        match decode_tensor(b.as_slice()) {
                            None => None,
                            Some(m) => Some(SummaryPayload::Tensor(m)),
                        }
                    } else {
                        None
                    }
                },
            }
        }
    }
}

fn decode_summary_value(data: &[u8]) -> (r: Option<SummaryValue>)
    ensures
        match r {
            Some(v) => dec_summary_value(data@) == Some(v@),
            None => dec_summary_value(data@) is None,
        },
{
    proof {
        assert(data@.skip(0) =~= data@);
    }
    match take_string_field(data, 0, 0x3a) {
        None => None,
        Some((node_name, p1)) => match take_string_field(data, p1, 0x0a) {
            None => None,
            Some((tag, p2)) => {
                if p2 == data.len() {
                    Some(SummaryValue { node_name, tag, value: Option::None })
                } else {
                    match decode_summary_payload(data, p2) {
                        None => None,
                        Some(p) => Some(SummaryValue { node_name, tag, value: Option::Some(p) }),
                    }
                }
            },
        },
    }
}

#[verifier::rlimit(100)]
#[verifier::spinoff_prover]
fn decode_summary(data: &[u8]) -> (r: Option<Summary>)
    ensures
        match r {
            Some(su) => dec_summary(data@) == Some(su@),
            None => dec_summary(data@) is None,
        },
{
    let mut values: Vec<SummaryValue> = Vec::new();
    let mut pos: usize = 0;
    proof {
        assert(data@.skip(0) =~= data@);
        assert(values@.map_values(|v: SummaryValue| v@) =~= Seq::<
            crate::event::SummaryValueView,
        >::empty());
    }
    loop
        invariant
            pos <= data@.len(),
            match dec_summary(data@.skip(pos as int)) {
                Some(t) => dec_summary(data@) == Some(
                    values@.map_values(|v: SummaryValue| v@) + t,
                ),
                None => dec_summary(data@) is None,
            },
        decreases data@.len() - pos,
    {
        let ghost s = data@.skip(pos as int);
        let ghost f = |v: SummaryValue| v@;
        if pos == data.len() {
            proof {
                assert(values@.map_values(f) + Seq::<crate::event::SummaryValueView>::empty()
                    =~= values@.map_values(f));
            }
            return Some(Summary { values });
        }
        if data[pos] != 0x0a {
            assert(s[0] != 0x0a);
            return None;
        }
        assert(s[0] == 0x0a);
        proof {
            lemma_skip_skip(data@, pos as int, 1);
        }
        match take_len_prefixed(data, pos + 1) {
            None => {
                return None;
            },
            Some((b, p2)) => {
                match decode_summary_value(b.as_slice()) {
                    None => {
                        return None;
                    },
                    Some(v) => {
                        proof {
                            let c = p2 - pos as int - 1;
                            assert(0 <= c && c + 1 <= s.len());
                            lemma_skip_skip(data@, pos as int, p2 - pos as int);
                            assert(values@.push(v).map_values(f) =~= values@.map_values(f).push(
                                v@,
                            ));
                            assert forall|t: Seq<crate::event::SummaryValueView>|
                                values@.map_values(f) + (seq![v@] + t) =~= values@.map_values(
                                f,
                            ).push(v@) + t by {}
                        }
                        values.push(v);
                        pos = p2;
                    },
                }
            },
        }
    }
}

fn decode_what(data: &[u8], pos: usize) -> (r: Option<What>)
    requires
        pos <= data@.len(),
    ensures
        match r {
            Some(w) => dec_what(data@.skip(pos as int)) == Some(w@),
            None => dec_what(data@.skip(pos as int)) is None,
        },
{
    let ghost s = data@.skip(pos as int);
    if pos == data.len() {
        None
    } else {
        let tag = data[pos];
        assert(s[0] == tag);
        proof {
            lemma_skip_skip(data@, pos as int, 1);
        }
        match take_len_prefixed(data, pos + 1) {
            None => None,
            Some((b, p2)) => {
                if p2 != data.len() {
                    None
                } else if tag == 0x1a {
                    match string_of_bytes(b) {
                        None => None,
                        Some(st) => Some(What::FileVersion(st)),
                    }
                } else if tag == 0x22 {
                    Some(What::GraphDef(b))
                } else if tag == 0x2a {
                    match decode_summary(b.as_slice()) {
                        None => None,
                        Some(su) => Some(What::Summary(su)),
                    }
                } else if tag == 0x32 {
                    match decode_log_message(b.as_slice()) {
                        None => None,
                        Some(m) => Some(What::LogMessage(m)),
                    }
                } else if tag == 0x3a {
                    match decode_session_log(b.as_slice()) {
                        None => None,
                        Some(m) => Some(What::SessionLog(m)),
                    }
                } else if tag == 0x42 {
                    match decode_tagged_run_metadata(b.as_slice()) {
                        None => None,
                        Some(m) => Some(What::TaggedRunMetadata(m)),
                    }
                } else {
                    None
                }
            },
        }
    }
}

fn take_opt_source_metadata(data: &[u8], pos: usize) -> (r: Option<(Option<SourceMetadata>, usize)>)
    requires
        pos <= data@.len(),
    ensures
        match r {
            Some(v) => pos <= v.1 <= data@.len() && dec_opt_source_metadata(
                data@.skip(pos as int),
            ) == Some(
                (
                    match v.0 {
                        Some(sm) => Some(encode_utf8(sm.writer@)),
                        None => None,
                    },
                    v.1 - pos as int,
                ),
            ),
            None => dec_opt_source_metadata(data@.skip(pos as int)) is None,
        },
{
    let ghost s = data@.skip(pos as int);
    if pos == data.len() || data[pos] != 0x52 {
        Some((None, pos))
    } else {
        assert(s[0] == 0x52);
        proof {
            lemma_skip_skip(data@, pos as int, 1);
        }
        match take_len_prefixed(data, pos + 1) {
            None => None,
            Some((b, p2)) => {
                proof {
                    assert(b@.skip(0) =~= b@);
                }
                match take_string_field(b.as_slice(), 0, 0x0a) {
                    None => None,
                    Some((writer, pw)) => {
                        if pw == b.len() {
                            Some((Some(SourceMetadata { writer }), p2))
                        } else {
                            None
                        }
                    },
                }
            },
        }
    }
}

/// Deserializes one event from exactly the bytes of `data`; `None` when the
/// bytes are not a wire-form event.
pub fn decode_event(data: &[u8]) -> (r: Option<Event>)
    ensures
        match r {
            Some(e) => dec_event(data@) == Some(e@),
            None => dec_event(data@) is None,
        },
{
    proof {
        reveal(crate::wire::dec_event);
        assert(data@.skip(0) =~= data@);
    }
    match take_fixed64_field(data, 0, 0x09) {
        None => None,
        Some((wall_time_bits, p1)) => match take_varint_field(data, p1, 0x10) {
            None => None,
            Some((stepbits, p2)) => match take_opt_source_metadata(data, p2) {
                None => None,
                Some((source_metadata, p3)) => {
                    if p3 == data.len() {
                        Some(
                            Event {
                                wall_time_bits,
                                step: i64_of_bits(stepbits),
                                what: Option::None,
                                source_metadata,
                            },
                        )
                    } else {
                        match decode_what(data, p3) {
                            None => None,
                            Some(w) => Some(
                                Event {
                                    wall_time_bits,
                                    step: i64_of_bits(stepbits),
                                    what: Option::Some(w),
                                    source_metadata,
                                },
                            ),
                        }
                    }
                },
            },
        },
    }
}

} // verus!
