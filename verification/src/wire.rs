use crate::codec::dec_bytes_field;
use crate::codec::dec_fixed32_field;
use crate::codec::dec_fixed64_field;
use crate::codec::dec_len_prefixed;
use crate::codec::dec_packed64_field;
use crate::codec::dec_string_field;
use crate::codec::dec_varint_field;
use crate::codec::enc_bytes_field;
use crate::codec::enc_fixed32_field;
use crate::codec::enc_fixed64_field;
use crate::codec::enc_len_prefixed;
use crate::codec::enc_packed64_field;
use crate::codec::enc_varint_field;
use crate::codec::i64_bits;
use crate::codec::i64_from_bits;
use crate::codec::lemma_dec_bytes_field;
use crate::codec::lemma_dec_fixed32_field;
use crate::codec::lemma_dec_fixed64_field;
use crate::codec::lemma_dec_len_prefixed;
use crate::codec::lemma_dec_packed64_field;
use crate::codec::lemma_dec_string_field;
use crate::codec::lemma_dec_varint_field;
use crate::codec::lemma_i64_bits;
use crate::event::AudioView;
use crate::event::EventView;
use crate::event::HistogramView;
use crate::event::ImageView;
use crate::event::LogMessageView;
use crate::event::SessionLogView;
use crate::event::SummaryPayloadView;
use crate::event::SummaryValueView;
use crate::event::TaggedRunMetadataView;
use crate::event::TensorView;
use crate::event::WhatView;
use vstd::bytes::spec_u32_from_le_bytes;
use vstd::bytes::spec_u32_to_le_bytes;
use vstd::prelude::*;
use vstd::utf8::valid_utf8;

verus! {

// ---------------------------------------------------------------------------
// The wire form of each message, over the mathematical views. Field numbers
// and wire types follow the event-file schema; a scalar field is omitted when
// it holds its default, and the member of a oneof is always written.
// ---------------------------------------------------------------------------

/// A signed 32-bit value read back from its widened wire form; values outside
/// the 32-bit range are rejected.
pub open spec fn dec_i32_bits(n: u64) -> Option<i32> {
    let v = i64_from_bits(n);
    if i32::MIN <= v && v <= i32::MAX {
        Some(v as i32)
    } else {
        None
    }
}

pub open spec fn enc_source_metadata(writer: Seq<u8>) -> Seq<u8> {
    enc_bytes_field(0x0a, writer)
}

pub open spec fn dec_source_metadata(s: Seq<u8>) -> Option<Seq<u8>> {
    match dec_string_field(0x0a, s) {
        None => None,
        Some((w, c)) => if c == s.len() {
            Some(w)
        } else {
            None
        },
    }
}

pub open spec fn enc_tensor(m: TensorView) -> Seq<u8> {
    enc_varint_field(0x08, i64_bits(m.dtype as i64))
}

pub open spec fn dec_tensor(s: Seq<u8>) -> Option<TensorView> {
    match dec_varint_field(0x08, s) {
        None => None,
        Some((n, c)) => match dec_i32_bits(n) {
            None => None,
            Some(dtype) => if c == s.len() {
                Some(TensorView { dtype })
            } else {
                None
            },
        },
    }
}

pub open spec fn enc_log_message(m: LogMessageView) -> Seq<u8> {
    enc_varint_field(0x08, i64_bits(m.level as i64)) + enc_bytes_field(0x12, m.message)
}

pub open spec fn dec_log_message(s: Seq<u8>) -> Option<LogMessageView> {
    match dec_varint_field(0x08, s) {
        None => None,
        Some((n, c1)) => match dec_i32_bits(n) {
            None => None,
            Some(level) => match dec_string_field(0x12, s.skip(c1)) {
                None => None,
                Some((message, c2)) => if c1 + c2 == s.len() {
                    Some(LogMessageView { level, message })
                } else {
                    None
                },
            },
        },
    }
}

pub open spec fn enc_session_log(m: SessionLogView) -> Seq<u8> {
    enc_varint_field(0x08, i64_bits(m.status as i64)) + enc_bytes_field(0x12, m.checkpoint_path)
        + enc_bytes_field(0x1a, m.msg)
}

pub open spec fn dec_session_log(s: Seq<u8>) -> Option<SessionLogView> {
    match dec_varint_field(0x08, s) {
        None => None,
        Some((n, c1)) => match dec_i32_bits(n) {
            None => None,
            Some(status) => match dec_string_field(0x12, s.skip(c1)) {
                None => None,
                Some((checkpoint_path, c2)) => match dec_string_field(0x1a, s.skip(c1 + c2)) {
                    None => None,
                    Some((msg, c3)) => if c1 + c2 + c3 == s.len() {
                        Some(SessionLogView { status, checkpoint_path, msg })
                    } else {
                        None
                    },
                },
            },
        },
    }
}

pub open spec fn enc_tagged_run_metadata(m: TaggedRunMetadataView) -> Seq<u8> {
    enc_bytes_field(0x0a, m.tag) + enc_bytes_field(0x12, m.run_metadata)
}

pub open spec fn dec_tagged_run_metadata(s: Seq<u8>) -> Option<TaggedRunMetadataView> {
    match dec_string_field(0x0a, s) {
        None => None,
        Some((tag, c1)) => match dec_bytes_field(0x12, s.skip(c1)) {
            None => None,
            Some((run_metadata, c2)) => if c1 + c2 == s.len() {
                Some(TaggedRunMetadataView { tag, run_metadata })
            } else {
                None
            },
        },
    }
}

pub open spec fn enc_image(m: ImageView) -> Seq<u8> {
    enc_varint_field(0x08, i64_bits(m.height as i64)) + enc_varint_field(
        0x10,
        i64_bits(m.width as i64),
    ) + enc_varint_field(0x18, i64_bits(m.colorspace as i64)) + enc_bytes_field(
        0x22,
        m.encoded_image_string,
    )
}

pub open spec fn dec_image(s: Seq<u8>) -> Option<ImageView> {
    match dec_varint_field(0x08, s) {
        None => None,
        Some((n1, c1)) => match dec_i32_bits(n1) {
            None => None,
            Some(height) => match dec_varint_field(0x10, s.skip(c1)) {
                None => None,
                Some((n2, c2)) => match dec_i32_bits(n2) {
                    None => None,
                    Some(width) => match dec_varint_field(0x18, s.skip(c1 + c2)) {
                        None => None,
                        Some((n3, c3)) => match dec_i32_bits(n3) {
                            None => None,
                            Some(colorspace) => match dec_bytes_field(
                                0x22,
                                s.skip(c1 + c2 + c3),
                            ) {
                                None => None,
                                Some((data, c4)) => if c1 + c2 + c3 + c4 == s.len() {
                                    Some(
                                        ImageView {
                                            height,
                                            width,
                                            colorspace,
                                            encoded_image_string: data,
                                        },
                                    )
                                } else {
                                    None
                                },
                            },
                        },
                    },
                },
            },
        },
    }
}

pub open spec fn enc_audio(m: AudioView) -> Seq<u8> {
    enc_fixed32_field(0x0d, m.sample_rate_bits) + enc_varint_field(
        0x10,
        i64_bits(m.num_channels),
    ) + enc_varint_field(0x18, i64_bits(m.length_frames)) + enc_bytes_field(
        0x22,
        m.encoded_audio_string,
    ) + enc_bytes_field(0x2a, m.content_type)
}

pub open spec fn dec_audio(s: Seq<u8>) -> Option<AudioView> {
    match dec_fixed32_field(0x0d, s) {
        None => None,
        Some((sample_rate_bits, c1)) => match dec_varint_field(0x10, s.skip(c1)) {
            None => None,
            Some((n2, c2)) => match dec_varint_field(0x18, s.skip(c1 + c2)) {
                None => None,
                Some((n3, c3)) => match dec_bytes_field(0x22, s.skip(c1 + c2 + c3)) {
                    None => None,
                    Some((data, c4)) => match dec_string_field(0x2a, s.skip(c1 + c2 + c3 + c4)) {
                        None => None,
                        Some((content_type, c5)) => if c1 + c2 + c3 + c4 + c5 == s.len() {
                            Some(
                                AudioView {
                                    sample_rate_bits,
                                    num_channels: i64_from_bits(n2),
                                    length_frames: i64_from_bits(n3),
                                    encoded_audio_string: data,
                                    content_type,
                                },
                            )
                        } else {
                            None
                        },
                    },
                },
            },
        },
    }
}

pub open spec fn enc_histogram(m: HistogramView) -> Seq<u8> {
    enc_fixed64_field(0x09, m.min_bits) + (enc_fixed64_field(0x11, m.max_bits)
        + (enc_fixed64_field(0x19, m.num_bits) + (enc_fixed64_field(0x21, m.sum_bits)
        + (enc_fixed64_field(0x29, m.sum_squares_bits) + (enc_packed64_field(
        0x32,
        m.bucket_limit_bits,
    ) + enc_packed64_field(0x3a, m.bucket_bits))))))
}

pub open spec fn dec_histogram(s: Seq<u8>) -> Option<HistogramView> {
    match dec_fixed64_field(0x09, s) {
        None => None,
        Some((min_bits, c1)) => match dec_fixed64_field(0x11, s.skip(c1)) {
            None => None,
            Some((max_bits, c2)) => match dec_fixed64_field(0x19, s.skip(c1 + c2)) {
                None => None,
                Some((num_bits, c3)) => match dec_fixed64_field(0x21, s.skip(c1 + c2 + c3)) {
                    None => None,
                    Some((sum_bits, c4)) => match dec_fixed64_field(
                        0x29,
                        s.skip(c1 + c2 + c3 + c4),
                    ) {
                        None => None,
                        Some((sum_squares_bits, c5)) => match dec_packed64_field(
                            0x32,
                            s.skip(c1 + c2 + c3 + c4 + c5),
                        ) {
                            None => None,
                            Some((bucket_limit_bits, c6)) => match dec_packed64_field(
                                0x3a,
                                s.skip(c1 + c2 + c3 + c4 + c5 + c6),
                            ) {
                                None => None,
                                Some((bucket_bits, c7)) => if c1 + c2 + c3 + c4 + c5 + c6 + c7
                                    == s.len() {
                                    Some(
                                        HistogramView {
                                            min_bits,
                                            max_bits,
                                            num_bits,
                                            sum_bits,
                                            sum_squares_bits,
                                            bucket_limit_bits,
                                            bucket_bits,
                                        },
                                    )
                                } else {
                                    None
                                },
                            },
                        },
                    },
                },
            },
        },
    }
}

pub open spec fn enc_summary_payload(p: SummaryPayloadView) -> Seq<u8> {
    match p {
        SummaryPayloadView::SimpleValue(bits) => seq![0x15u8] + spec_u32_to_le_bytes(bits),
        SummaryPayloadView::ObsoleteHistogram(b) => seq![0x1au8] + enc_len_prefixed(b),
        SummaryPayloadView::Image(m) => seq![0x22u8] + enc_len_prefixed(enc_image(m)),
        SummaryPayloadView::Histogram(m) => seq![0x2au8] + enc_len_prefixed(enc_histogram(m)),
        SummaryPayloadView::Audio(m) => seq![0x32u8] + enc_len_prefixed(enc_audio(m)),
        SummaryPayloadView::Tensor(m) => seq![0x42u8] + enc_len_prefixed(enc_tensor(m)),
    }
}

pub open spec fn dec_summary_payload(s: Seq<u8>) -> Option<SummaryPayloadView> {
    if s.len() == 0 {
        None
    } else if s[0] == 0x15 {
        if s.len() == 5 {
            Some(SummaryPayloadView::SimpleValue(spec_u32_from_le_bytes(s.subrange(1, 5))))
        } else {
            None
        }
    } else {
        match dec_len_prefixed(s.skip(1)) {
            None => None,
            Some((b, c)) => if 1 + c != s.len() {
                None
            } else if s[0] == 0x1a {
                Some(SummaryPayloadView::ObsoleteHistogram(b))
            } else if s[0] == 0x22 {
                match dec_image(b) {
                    None => None,
                    Some(m) => Some(SummaryPayloadView::Image(m)),
                }
            } else if s[0] == 0x2a {
                match dec_histogram(b) {
                    None => None,
                    Some(m) => Some(SummaryPayloadView::Histogram(m)),
                }
            } else if s[0] == 0x32 {
                match dec_audio(b) {
                    None => None,
                    Some(m) => Some(SummaryPayloadView::Audio(m)),
                }
            } else if s[0] == 0x42 {
                match dec_tensor(b) {
                    None => None,
                    Some(m) => Some(SummaryPayloadView::Tensor(m)),
                }
            } else {
                None
            },
        }
    }
}

pub open spec fn enc_summary_value(v: SummaryValueView) -> Seq<u8> {
    enc_bytes_field(0x3a, v.node_name) + enc_bytes_field(0x0a, v.tag) + (match v.value {
        Option::None => seq![],
        Option::Some(p) => enc_summary_payload(p),
    })
}

pub open spec fn dec_summary_value(s: Seq<u8>) -> Option<SummaryValueView> {
    match dec_string_field(0x3a, s) {
        None => None,
        Some((node_name, c1)) => match dec_string_field(0x0a, s.skip(c1)) {
            None => None,
            Some((tag, c2)) => {
                let s2 = s.skip(c1 + c2);
                if s2.len() == 0 {
                    Some(SummaryValueView { node_name, tag, value: Option::None })
                } else {
                    match dec_summary_payload(s2) {
                        None => None,
                        Some(p) => Some(
                            SummaryValueView { node_name, tag, value: Option::Some(p) },
                        ),
                    }
                }
            },
        },
    }
}

/// The wire form of a summary: one length-delimited field per value, in
/// order.
pub open spec fn enc_summary(vals: Seq<SummaryValueView>) -> Seq<u8>
    decreases vals.len(),
{
    if vals.len() == 0 {
        seq![]
    } else {
        seq![0x0au8] + enc_len_prefixed(enc_summary_value(vals[0])) + enc_summary(vals.skip(1))
    }
}

pub open spec fn dec_summary(s: Seq<u8>) -> Option<Seq<SummaryValueView>>
    decreases s.len(),
{
    if s.len() == 0 {
        Some(Seq::empty())
    } else if s[0] != 0x0a {
        None
    } else {
        match dec_len_prefixed(s.skip(1)) {
            None => None,
            Some((b, c)) => match dec_summary_value(b) {
                None => None,
                Some(v) => if 0 <= c && c + 1 <= s.len() {
                    match dec_summary(s.skip(c + 1)) {
                        None => None,
                        Some(t) => Some(seq![v] + t),
                    }
                } else {
                    None
                },
            },
        }
    }
}

pub open spec fn enc_what(w: WhatView) -> Seq<u8> {
    match w {
        WhatView::FileVersion(b) => seq![0x1au8] + enc_len_prefixed(b),
        WhatView::GraphDef(b) => seq![0x22u8] + enc_len_prefixed(b),
        WhatView::Summary(vals) => seq![0x2au8] + enc_len_prefixed(enc_summary(vals)),
        WhatView::LogMessage(m) => seq![0x32u8] + enc_len_prefixed(enc_log_message(m)),
        WhatView::SessionLog(m) => seq![0x3au8] + enc_len_prefixed(enc_session_log(m)),
        WhatView::TaggedRunMetadata(m) => seq![0x42u8] + enc_len_prefixed(
            enc_tagged_run_metadata(m),
        ),
    }
}

pub open spec fn dec_what(s: Seq<u8>) -> Option<WhatView> {
    if s.len() == 0 {
        None
    } else {
        match dec_len_prefixed(s.skip(1)) {
            None => None,
            Some((b, c)) => if 1 + c != s.len() {
                None
            } else if s[0] == 0x1a {
                if valid_utf8(b) {
                    Some(WhatView::FileVersion(b))
                } else {
                    None
                }
            } else if s[0] == 0x22 {
                Some(WhatView::GraphDef(b))
            } else if s[0] == 0x2a {
                match dec_summary(b) {
                    None => None,
                    Some(vals) => Some(WhatView::Summary(vals)),
                }
            } else if s[0] == 0x32 {
                match dec_log_message(b) {
                    None => None,
                    Some(m) => Some(WhatView::LogMessage(m)),
                }
            } else if s[0] == 0x3a {
                match dec_session_log(b) {
                    None => None,
                    Some(m) => Some(WhatView::SessionLog(m)),
                }
            } else if s[0] == 0x42 {
                match dec_tagged_run_metadata(b) {
                    None => None,
                    Some(m) => Some(WhatView::TaggedRunMetadata(m)),
                }
            } else {
                None
            },
        }
    }
}

/// The wire form of one event: the timestamp, the step, the producing
/// writer when present, then the payload variant.
pub open spec fn enc_event(e: EventView) -> Seq<u8> {
    enc_fixed64_field(0x09, e.wall_time_bits) + enc_varint_field(0x10, i64_bits(e.step))
        + (match e.source_metadata {
        Option::None => seq![],
        Option::Some(w) => seq![0x52u8] + enc_len_prefixed(enc_source_metadata(w)),
    }) + (match e.what {
        Option::None => seq![],
        Option::Some(w) => enc_what(w),
    })
}

/// Reads an optional producing-writer field from the front of `s`.
pub open spec fn dec_opt_source_metadata(s: Seq<u8>) -> Option<(Option<Seq<u8>>, int)> {
    if s.len() == 0 || s[0] != 0x52 {
        Some((Option::None, 0))
    } else {
        match dec_len_prefixed(s.skip(1)) {
            None => None,
            Some((b, c)) => match dec_source_metadata(b) {
                None => None,
                Some(w) => Some((Option::Some(w), c + 1)),
            },
        }
    }
}

/// Decodes one event from exactly the bytes of `s`; `None` when `s` is not
/// a wire-form event.
#[verifier::opaque]
pub open spec fn dec_event(s: Seq<u8>) -> Option<EventView> {
    match dec_fixed64_field(0x09, s) {
        None => None,
        Some((wall_time_bits, c1)) => match dec_varint_field(0x10, s.skip(c1)) {
            None => None,
            Some((stepbits, c2)) => match dec_opt_source_metadata(s.skip(c1 + c2)) {
                None => None,
                Some((source_metadata, c3)) => {
                    let s3 = s.skip(c1 + c2 + c3);
                    if s3.len() == 0 {
                        Some(
                            EventView {
                                wall_time_bits,
                                step: i64_from_bits(stepbits),
                                what: Option::None,
                                source_metadata,
                            },
                        )
                    } else {
                        match dec_what(s3) {
                            None => None,
                            Some(w) => Some(
                                EventView {
                                    wall_time_bits,
                                    step: i64_from_bits(stepbits),
                                    what: Option::Some(w),
                                    source_metadata,
                                },
                            ),
                        }
                    }
                },
            },
        },
    }
}

// ---------------------------------------------------------------------------
// Well-formedness: string fields are valid UTF-8, and every length that the
// wire writes as a 64-bit value fits in one.
// ---------------------------------------------------------------------------

pub open spec fn wf_str(b: Seq<u8>) -> bool {
    b.len() <= u64::MAX && valid_utf8(b)
}

pub open spec fn wf_bytes(b: Seq<u8>) -> bool {
    b.len() <= u64::MAX
}

pub open spec fn wf_image(m: ImageView) -> bool {
    wf_bytes(m.encoded_image_string)
}

pub open spec fn wf_histogram(m: HistogramView) -> bool {
    8 * m.bucket_limit_bits.len() <= u64::MAX && 8 * m.bucket_bits.len() <= u64::MAX
}

pub open spec fn wf_audio(m: AudioView) -> bool {
    wf_bytes(m.encoded_audio_string) && wf_str(m.content_type)
}

pub open spec fn wf_log_message(m: LogMessageView) -> bool {
    wf_str(m.message)
}

pub open spec fn wf_session_log(m: SessionLogView) -> bool {
    wf_str(m.checkpoint_path) && wf_str(m.msg)
}

pub open spec fn wf_tagged_run_metadata(m: TaggedRunMetadataView) -> bool {
    wf_str(m.tag) && wf_bytes(m.run_metadata)
}

pub open spec fn wf_summary_payload(p: SummaryPayloadView) -> bool {
    &&& match p {
        SummaryPayloadView::SimpleValue(_) => true,
        SummaryPayloadView::ObsoleteHistogram(b) => wf_bytes(b),
        SummaryPayloadView::Image(m) => wf_image(m),
        SummaryPayloadView::Histogram(m) => wf_histogram(m),
        SummaryPayloadView::Audio(m) => wf_audio(m),
        SummaryPayloadView::Tensor(_) => true,
    }
    &&& enc_summary_payload(p).len() <= u64::MAX
}

pub open spec fn wf_summary_value(v: SummaryValueView) -> bool {
    &&& wf_str(v.node_name)
    &&& wf_str(v.tag)
    &&& match v.value {
        Option::None => true,
        Option::Some(p) => wf_summary_payload(p),
    }
    &&& enc_summary_value(v).len() <= u64::MAX
}

pub open spec fn wf_summary(vals: Seq<SummaryValueView>) -> bool {
    &&& forall|i: int| 0 <= i < vals.len() ==> wf_summary_value(#[trigger] vals[i])
    &&& enc_summary(vals).len() <= u64::MAX
}

pub open spec fn wf_what(w: WhatView) -> bool {
    match w {
        WhatView::FileVersion(b) => wf_str(b),
        WhatView::GraphDef(b) => wf_bytes(b),
        WhatView::Summary(vals) => wf_summary(vals),
        WhatView::LogMessage(m) => wf_log_message(m) && enc_log_message(m).len() <= u64::MAX,
        WhatView::SessionLog(m) => wf_session_log(m) && enc_session_log(m).len() <= u64::MAX,
        WhatView::TaggedRunMetadata(m) => wf_tagged_run_metadata(m) && enc_tagged_run_metadata(
            m,
        ).len() <= u64::MAX,
    }
}

pub open spec fn wf_event(e: EventView) -> bool {
    &&& match e.source_metadata {
        Option::None => true,
        Option::Some(w) => wf_str(w) && enc_source_metadata(w).len() <= u64::MAX,
    }
    &&& match e.what {
        Option::None => true,
        Option::Some(w) => wf_what(w),
    }
    &&& enc_event(e).len() <= u64::MAX
}

// ---------------------------------------------------------------------------
// Round trip: decoding inverts encoding, message by message.
// ---------------------------------------------------------------------------

proof fn lemma_skip_concat(a: Seq<u8>, b: Seq<u8>)
    ensures
        (a + b).skip(a.len() as int) == b,
{
    assert((a + b).skip(a.len() as int) =~= b);
}

proof fn lemma_skip_skip(s: Seq<u8>, a: int, b: int)
    requires
        0 <= a,
        0 <= b,
        a + b <= s.len(),
    ensures
        s.skip(a).skip(b) == s.skip(a + b),
{
    assert(s.skip(a).skip(b) =~= s.skip(a + b));
}

proof fn lemma_avoid(a: Seq<u8>, b: Seq<u8>, t: u8)
    requires
        a.len() == 0 || a[0] != t,
        b.len() == 0 || b[0] != t,
    ensures
        (a + b).len() == 0 || (a + b)[0] != t,
{
    if (a + b).len() > 0 && a.len() == 0 {
        assert(a + b =~= b);
    }
}

proof fn lemma_dec_i32_roundtrip(x: i32)
    ensures
        dec_i32_bits(i64_bits(x as i64)) == Some(x),
{
    lemma_i64_bits(x as i64);
}

pub proof fn lemma_dec_source_metadata(w: Seq<u8>)
    requires
        wf_str(w),
    ensures
        dec_source_metadata(enc_source_metadata(w)) == Some(w),
{
    lemma_dec_string_field(0x0a, w, Seq::empty());
    assert(enc_source_metadata(w) + Seq::<u8>::empty() =~= enc_source_metadata(w));
}

pub proof fn lemma_dec_tensor(m: TensorView)
    ensures
        dec_tensor(enc_tensor(m)) == Some(m),
{
    lemma_dec_varint_field(0x08, i64_bits(m.dtype as i64), Seq::empty());
    assert(enc_tensor(m) + Seq::<u8>::empty() =~= enc_tensor(m));
    lemma_dec_i32_roundtrip(m.dtype);
}

pub proof fn lemma_dec_log_message(m: LogMessageView)
    requires
        wf_log_message(m),
    ensures
        dec_log_message(enc_log_message(m)) == Some(m),
{
    let f1 = enc_varint_field(0x08, i64_bits(m.level as i64));
    let f2 = enc_bytes_field(0x12, m.message);
    let s = enc_log_message(m);
    assert(s == f1 + f2);
    assert(f2.len() == 0 || f2[0] == 0x12);
    lemma_dec_varint_field(0x08, i64_bits(m.level as i64), f2);
    lemma_dec_i32_roundtrip(m.level);
    lemma_skip_concat(f1, f2);
    lemma_dec_string_field(0x12, m.message, Seq::empty());
    assert(f2 + Seq::<u8>::empty() =~= f2);
}

pub proof fn lemma_dec_session_log(m: SessionLogView)
    requires
        wf_session_log(m),
    ensures
        dec_session_log(enc_session_log(m)) == Some(m),
{
    let f1 = enc_varint_field(0x08, i64_bits(m.status as i64));
    let f2 = enc_bytes_field(0x12, m.checkpoint_path);
    let f3 = enc_bytes_field(0x1a, m.msg);
    let s = enc_session_log(m);
    let r1 = f2 + f3;
    assert(s =~= f1 + r1);
    assert(f2.len() == 0 || f2[0] == 0x12);
    assert(f3.len() == 0 || f3[0] == 0x1a);
    lemma_avoid(f2, f3, 0x08);
    lemma_dec_varint_field(0x08, i64_bits(m.status as i64), r1);
    lemma_dec_i32_roundtrip(m.status);
    lemma_skip_concat(f1, r1);
    lemma_dec_string_field(0x12, m.checkpoint_path, f3);
    assert(s.skip((f1.len() + f2.len()) as int) =~= f3);
    lemma_dec_string_field(0x1a, m.msg, Seq::empty());
    assert(f3 + Seq::<u8>::empty() =~= f3);
}

pub proof fn lemma_dec_tagged_run_metadata(m: TaggedRunMetadataView)
    requires
        wf_tagged_run_metadata(m),
    ensures
        dec_tagged_run_metadata(enc_tagged_run_metadata(m)) == Some(m),
{
    let f1 = enc_bytes_field(0x0a, m.tag);
    let f2 = enc_bytes_field(0x12, m.run_metadata);
    let s = enc_tagged_run_metadata(m);
    assert(s == f1 + f2);
    assert(f2.len() == 0 || f2[0] == 0x12);
    lemma_dec_string_field(0x0a, m.tag, f2);
    lemma_skip_concat(f1, f2);
    lemma_dec_bytes_field(0x12, m.run_metadata, Seq::empty());
    assert(f2 + Seq::<u8>::empty() =~= f2);
}

#[verifier::rlimit(60)]
pub proof fn lemma_dec_image(m: ImageView)
    requires
        wf_image(m),
    ensures
        dec_image(enc_image(m)) == Some(m),
{
    let f1 = enc_varint_field(0x08, i64_bits(m.height as i64));
    let f2 = enc_varint_field(0x10, i64_bits(m.width as i64));
    let f3 = enc_varint_field(0x18, i64_bits(m.colorspace as i64));
    let f4 = enc_bytes_field(0x22, m.encoded_image_string);
    let s = enc_image(m);
    let r1 = f2 + (f3 + f4);
    let r2 = f3 + f4;
    assert(s =~= f1 + r1);
    assert(f2.len() == 0 || f2[0] == 0x10);
    assert(f3.len() == 0 || f3[0] == 0x18);
    assert(f4.len() == 0 || f4[0] == 0x22);
    lemma_avoid(f3, f4, 0x08);
    lemma_avoid(f2, f3 + f4, 0x08);
    lemma_dec_varint_field(0x08, i64_bits(m.height as i64), r1);
    lemma_dec_i32_roundtrip(m.height);
    assert(s.skip(f1.len() as int) =~= r1);
    lemma_avoid(f3, f4, 0x10);
    lemma_dec_varint_field(0x10, i64_bits(m.width as i64), r2);
    lemma_dec_i32_roundtrip(m.width);
    assert(r1 == f2 + r2);
    assert(s.skip((f1.len() + f2.len()) as int) =~= r2);
    lemma_dec_varint_field(0x18, i64_bits(m.colorspace as i64), f4);
    lemma_dec_i32_roundtrip(m.colorspace);
    assert(r2 == f3 + f4);
    assert(s.skip((f1.len() + f2.len() + f3.len()) as int) =~= f4);
    lemma_dec_bytes_field(0x22, m.encoded_image_string, Seq::empty());
    assert(f4 + Seq::<u8>::empty() =~= f4);
}

#[verifier::rlimit(60)]
pub proof fn lemma_dec_audio(m: AudioView)
    requires
        wf_audio(m),
    ensures
        dec_audio(enc_audio(m)) == Some(m),
{
    let f1 = enc_fixed32_field(0x0d, m.sample_rate_bits);
    let f2 = enc_varint_field(0x10, i64_bits(m.num_channels));
    let f3 = enc_varint_field(0x18, i64_bits(m.length_frames));
    let f4 = enc_bytes_field(0x22, m.encoded_audio_string);
    let f5 = enc_bytes_field(0x2a, m.content_type);
    let s = enc_audio(m);
    let r1 = f2 + (f3 + (f4 + f5));
    let r2 = f3 + (f4 + f5);
    let r3 = f4 + f5;
    assert(s =~= f1 + r1);
    assert(f2.len() == 0 || f2[0] == 0x10);
    assert(f3.len() == 0 || f3[0] == 0x18);
    assert(f4.len() == 0 || f4[0] == 0x22);
    assert(f5.len() == 0 || f5[0] == 0x2a);
    lemma_avoid(f4, f5, 0x0d);
    lemma_avoid(f3, r3, 0x0d);
    lemma_avoid(f2, r2, 0x0d);
    lemma_dec_fixed32_field(0x0d, m.sample_rate_bits, r1);
    assert(s.skip(f1.len() as int) =~= r1);
    lemma_avoid(f4, f5, 0x10);
    lemma_avoid(f3, r3, 0x10);
    lemma_dec_varint_field(0x10, i64_bits(m.num_channels), r2);
    lemma_i64_bits(m.num_channels);
    assert(r1 == f2 + r2);
    assert(s.skip((f1.len() + f2.len()) as int) =~= r2);
    lemma_avoid(f4, f5, 0x18);
    lemma_dec_varint_field(0x18, i64_bits(m.length_frames), r3);
    lemma_i64_bits(m.length_frames);
    assert(r2 == f3 + r3);
    assert(s.skip((f1.len() + f2.len() + f3.len()) as int) =~= r3);
    lemma_dec_bytes_field(0x22, m.encoded_audio_string, f5);
    assert(r3 == f4 + f5);
    assert(s.skip((f1.len() + f2.len() + f3.len() + f4.len()) as int) =~= f5);
    lemma_dec_string_field(0x2a, m.content_type, Seq::empty());
    assert(f5 + Seq::<u8>::empty() =~= f5);
}

#[verifier::rlimit(100)]
#[verifier::spinoff_prover]
pub proof fn lemma_dec_histogram(m: HistogramView)
    requires
        wf_histogram(m),
    ensures
        dec_histogram(enc_histogram(m)) == Some(m),
{
    let f1 = enc_fixed64_field(0x09, m.min_bits);
    let f2 = enc_fixed64_field(0x11, m.max_bits);
    let f3 = enc_fixed64_field(0x19, m.num_bits);
    let f4 = enc_fixed64_field(0x21, m.sum_bits);
    let f5 = enc_fixed64_field(0x29, m.sum_squares_bits);
    let f6 = enc_packed64_field(0x32, m.bucket_limit_bits);
    let f7 = enc_packed64_field(0x3a, m.bucket_bits);
    let s = enc_histogram(m);
    let r6 = f7;
    let r5 = f6 + r6;
    let r4 = f5 + r5;
    let r3 = f4 + r4;
    let r2 = f3 + r3;
    let r1 = f2 + r2;
    let c1 = f1.len() as int;
    let c2 = f2.len() as int;
    let c3 = f3.len() as int;
    let c4 = f4.len() as int;
    let c5 = f5.len() as int;
    let c6 = f6.len() as int;
    let c7 = f7.len() as int;
    assert(s == f1 + r1);
    assert(f2.len() == 0 || f2[0] == 0x11);
    assert(f3.len() == 0 || f3[0] == 0x19);
    assert(f4.len() == 0 || f4[0] == 0x21);
    assert(f5.len() == 0 || f5[0] == 0x29);
    assert(f6.len() == 0 || f6[0] == 0x32);
    assert(f7.len() == 0 || f7[0] == 0x3a);
    lemma_avoid(f6, r6, 0x09);
    lemma_avoid(f5, r5, 0x09);
    lemma_avoid(f4, r4, 0x09);
    lemma_avoid(f3, r3, 0x09);
    lemma_avoid(f2, r2, 0x09);
    lemma_dec_fixed64_field(0x09, m.min_bits, r1);
    lemma_skip_concat(f1, r1);
    lemma_avoid(f6, r6, 0x11);
    lemma_avoid(f5, r5, 0x11);
    lemma_avoid(f4, r4, 0x11);
    lemma_avoid(f3, r3, 0x11);
    lemma_dec_fixed64_field(0x11, m.max_bits, r2);
    lemma_skip_concat(f2, r2);
    lemma_skip_skip(s, c1, c2);
    lemma_avoid(f6, r6, 0x19);
    lemma_avoid(f5, r5, 0x19);
    lemma_avoid(f4, r4, 0x19);
    lemma_dec_fixed64_field(0x19, m.num_bits, r3);
    lemma_skip_concat(f3, r3);
    lemma_skip_skip(s, c1 + c2, c3);
    lemma_avoid(f6, r6, 0x21);
    lemma_avoid(f5, r5, 0x21);
    lemma_dec_fixed64_field(0x21, m.sum_bits, r4);
    lemma_skip_concat(f4, r4);
    lemma_skip_skip(s, c1 + c2 + c3, c4);
    lemma_avoid(f6, r6, 0x29);
    lemma_dec_fixed64_field(0x29, m.sum_squares_bits, r5);
    lemma_skip_concat(f5, r5);
    lemma_skip_skip(s, c1 + c2 + c3 + c4, c5);
    lemma_dec_packed64_field(0x32, m.bucket_limit_bits, r6);
    lemma_skip_concat(f6, r6);
    lemma_skip_skip(s, c1 + c2 + c3 + c4 + c5, c6);
    lemma_dec_packed64_field(0x3a, m.bucket_bits, Seq::empty());
    assert(f7 + Seq::<u8>::empty() =~= f7);
}

pub proof fn lemma_dec_summary_payload(p: SummaryPayloadView)
    requires
        wf_summary_payload(p),
    ensures
        dec_summary_payload(enc_summary_payload(p)) == Some(p),
{
    vstd::bytes::lemma_auto_spec_u32_to_from_le_bytes();
    let s = enc_summary_payload(p);
    match p {
        SummaryPayloadView::SimpleValue(bits) => {
            assert(s.len() == 5);
            assert(s[0] == 0x15);
            assert(s.subrange(1, 5) =~= spec_u32_to_le_bytes(bits));
        },
        SummaryPayloadView::ObsoleteHistogram(b) => {
            assert(s[0] == 0x1a);
            assert(s.skip(1) =~= enc_len_prefixed(b) + Seq::<u8>::empty());
            lemma_dec_len_prefixed(b, Seq::empty());
        },
        SummaryPayloadView::Image(m) => {
            let b = enc_image(m);
            assert(s[0] == 0x22);
            assert(s.skip(1) =~= enc_len_prefixed(b) + Seq::<u8>::empty());
            lemma_dec_len_prefixed(b, Seq::empty());
            lemma_dec_image(m);
        },
        SummaryPayloadView::Histogram(m) => {
            let b = enc_histogram(m);
            assert(s[0] == 0x2a);
            assert(s.skip(1) =~= enc_len_prefixed(b) + Seq::<u8>::empty());
            lemma_dec_len_prefixed(b, Seq::empty());
            lemma_dec_histogram(m);
        },
        SummaryPayloadView::Audio(m) => {
            let b = enc_audio(m);
            assert(s[0] == 0x32);
            assert(s.skip(1) =~= enc_len_prefixed(b) + Seq::<u8>::empty());
            lemma_dec_len_prefixed(b, Seq::empty());
            lemma_dec_audio(m);
        },
        SummaryPayloadView::Tensor(m) => {
            let b = enc_tensor(m);
            assert(s[0] == 0x42);
            assert(s.skip(1) =~= enc_len_prefixed(b) + Seq::<u8>::empty());
            lemma_dec_len_prefixed(b, Seq::empty());
            lemma_dec_tensor(m);
        },
    }
}

proof fn lemma_enc_summary_payload_first(p: SummaryPayloadView)
    ensures
        enc_summary_payload(p).len() > 0,
        enc_summary_payload(p)[0] != 0x3a,
        enc_summary_payload(p)[0] != 0x0a,
{
    match p {
        SummaryPayloadView::SimpleValue(_) => {
            assert(enc_summary_payload(p)[0] == 0x15);
        },
        SummaryPayloadView::ObsoleteHistogram(_) => {
            assert(enc_summary_payload(p)[0] == 0x1a);
        },
        SummaryPayloadView::Image(_) => {
            assert(enc_summary_payload(p)[0] == 0x22);
        },
        SummaryPayloadView::Histogram(_) => {
            assert(enc_summary_payload(p)[0] == 0x2a);
        },
        SummaryPayloadView::Audio(_) => {
            assert(enc_summary_payload(p)[0] == 0x32);
        },
        SummaryPayloadView::Tensor(_) => {
            assert(enc_summary_payload(p)[0] == 0x42);
        },
    }
}

pub proof fn lemma_dec_summary_value(v: SummaryValueView)
    requires
        wf_summary_value(v),
    ensures
        dec_summary_value(enc_summary_value(v)) == Some(v),
{
    let f1 = enc_bytes_field(0x3a, v.node_name);
    let f2 = enc_bytes_field(0x0a, v.tag);
    let f3 = match v.value {
        Option::None => seq![],
        Option::Some(p) => enc_summary_payload(p),
    };
    let s = enc_summary_value(v);
    let r1 = f2 + f3;
    assert(s =~= f1 + r1);
    assert(f2.len() == 0 || f2[0] == 0x0a);
    if v.value is Some {
        lemma_enc_summary_payload_first(v.value->0);
    }
    lemma_avoid(f2, f3, 0x3a);
    lemma_dec_string_field(0x3a, v.node_name, r1);
    assert(s.skip(f1.len() as int) =~= r1);
    lemma_dec_string_field(0x0a, v.tag, f3);
    assert(s.skip((f1.len() + f2.len()) as int) =~= f3);
    match v.value {
        Option::None => {},
        Option::Some(p) => {
            lemma_dec_summary_payload(p);
        },
    }
}

#[verifier::rlimit(100)]
#[verifier::spinoff_prover]
pub proof fn lemma_dec_summary(vals: Seq<SummaryValueView>)
    requires
        wf_summary(vals),
    ensures
        dec_summary(enc_summary(vals)) == Some(vals),
    decreases vals.len(),
{
    if vals.len() == 0 {
        assert(vals =~= Seq::<SummaryValueView>::empty());
    } else {
        let v0 = vals[0];
        let body = enc_summary_value(v0);
        let item = enc_len_prefixed(body);
        let tail = enc_summary(vals.skip(1));
        let s = enc_summary(vals);
        assert(s =~= seq![0x0au8] + (item + tail));
        assert(s[0] == 0x0a);
        assert(s.skip(1) =~= item + tail);
        lemma_dec_len_prefixed(body, tail);
        lemma_dec_summary_value(v0);
        let c = item.len() as int;
        assert(s.skip(c + 1) =~= tail);
        assert(wf_summary(vals.skip(1))) by {
            assert(forall|i: int|
                0 <= i < vals.skip(1).len() ==> #[trigger] vals.skip(1)[i] == vals[i + 1]);
            assert(enc_summary(vals.skip(1)).len() <= enc_summary(vals).len());
        }
        lemma_dec_summary(vals.skip(1));
        assert(seq![v0] + vals.skip(1) =~= vals);
    }
}

proof fn lemma_enc_what_first(w: WhatView)
    ensures
        enc_what(w).len() > 0,
        enc_what(w)[0] != 0x09,
        enc_what(w)[0] != 0x10,
        enc_what(w)[0] != 0x52,
{
    match w {
        WhatView::FileVersion(_) => {
            assert(enc_what(w)[0] == 0x1a);
        },
        WhatView::GraphDef(_) => {
            assert(enc_what(w)[0] == 0x22);
        },
        WhatView::Summary(_) => {
            assert(enc_what(w)[0] == 0x2a);
        },
        WhatView::LogMessage(_) => {
            assert(enc_what(w)[0] == 0x32);
        },
        WhatView::SessionLog(_) => {
            assert(enc_what(w)[0] == 0x3a);
        },
        WhatView::TaggedRunMetadata(_) => {
            assert(enc_what(w)[0] == 0x42);
        },
    }
}

pub proof fn lemma_dec_what(w: WhatView)
    requires
        wf_what(w),
    ensures
        dec_what(enc_what(w)) == Some(w),
{
    let s = enc_what(w);
    lemma_enc_what_first(w);
    match w {
        WhatView::FileVersion(b) => {
            assert(s[0] == 0x1a);
            assert(s.skip(1) =~= enc_len_prefixed(b) + Seq::<u8>::empty());
            lemma_dec_len_prefixed(b, Seq::empty());
        },
        WhatView::GraphDef(b) => {
            assert(s[0] == 0x22);
            assert(s.skip(1) =~= enc_len_prefixed(b) + Seq::<u8>::empty());
            lemma_dec_len_prefixed(b, Seq::empty());
        },
        WhatView::Summary(vals) => {
            let b = enc_summary(vals);
            assert(s[0] == 0x2a);
            assert(s.skip(1) =~= enc_len_prefixed(b) + Seq::<u8>::empty());
            lemma_dec_len_prefixed(b, Seq::empty());
            lemma_dec_summary(vals);
        },
        WhatView::LogMessage(m) => {
            let b = enc_log_message(m);
            assert(s[0] == 0x32);
            assert(s.skip(1) =~= enc_len_prefixed(b) + Seq::<u8>::empty());
            lemma_dec_len_prefixed(b, Seq::empty());
            lemma_dec_log_message(m);
        },
        WhatView::SessionLog(m) => {
            let b = enc_session_log(m);
            assert(s[0] == 0x3a);
            assert(s.skip(1) =~= enc_len_prefixed(b) + Seq::<u8>::empty());
            lemma_dec_len_prefixed(b, Seq::empty());
            lemma_dec_session_log(m);
        },
        WhatView::TaggedRunMetadata(m) => {
            let b = enc_tagged_run_metadata(m);
            assert(s[0] == 0x42);
            assert(s.skip(1) =~= enc_len_prefixed(b) + Seq::<u8>::empty());
            lemma_dec_len_prefixed(b, Seq::empty());
            lemma_dec_tagged_run_metadata(m);
        },
    }
}

/// The round trip for one event: decoding inverts encoding on every
/// well-formed event value.
#[verifier::rlimit(60)]
pub proof fn lemma_dec_event(e: EventView)
    requires
        wf_event(e),
    ensures
        dec_event(enc_event(e)) == Some(e),
{
    reveal(dec_event);
    let f1 = enc_fixed64_field(0x09, e.wall_time_bits);
    let f2 = enc_varint_field(0x10, i64_bits(e.step));
    let f3 = match e.source_metadata {
        Option::None => seq![],
        Option::Some(w) => seq![0x52u8] + enc_len_prefixed(enc_source_metadata(w)),
    };
    let f4 = match e.what {
        Option::None => seq![],
        Option::Some(w) => enc_what(w),
    };
    let s = enc_event(e);
    let r1 = f2 + (f3 + f4);
    let r2 = f3 + f4;
    assert(s =~= f1 + r1);
    assert(f2.len() == 0 || f2[0] == 0x10);
    assert(f3.len() == 0 || f3[0] == 0x52);
    if e.what is Some {
        lemma_enc_what_first(e.what->0);
    }
    lemma_avoid(f3, f4, 0x09);
    lemma_avoid(f2, r2, 0x09);
    lemma_dec_fixed64_field(0x09, e.wall_time_bits, r1);
    assert(s.skip(f1.len() as int) =~= r1);
    lemma_avoid(f3, f4, 0x10);
    lemma_dec_varint_field(0x10, i64_bits(e.step), r2);
    lemma_i64_bits(e.step);
    assert(r1 == f2 + r2);
    assert(s.skip((f1.len() + f2.len()) as int) =~= r2);
    match e.source_metadata {
        Option::None => {
            assert(r2 =~= f4);
            assert(dec_opt_source_metadata(r2) == Some((Option::<Seq<u8>>::None, 0int)));
        },
        Option::Some(w) => {
            let body = enc_source_metadata(w);
            assert(r2[0] == 0x52);
            assert(r2.skip(1) =~= enc_len_prefixed(body) + f4);
            lemma_dec_len_prefixed(body, f4);
            lemma_dec_source_metadata(w);
            assert(dec_opt_source_metadata(r2) == Some((
                Option::Some(w),
                enc_len_prefixed(body).len() as int + 1,
            )));
        },
    }
    assert(s.skip((f1.len() + f2.len() + f3.len()) as int) =~= f4);
    match e.what {
        Option::None => {},
        Option::Some(w) => {
            lemma_dec_what(w);
        },
    }
}

} // verus!
