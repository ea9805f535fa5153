use crate::codec::enc_bytes_field;
use crate::codec::enc_fixed32_field;
use crate::codec::enc_fixed64_field;
use crate::codec::enc_le64_seq;
use crate::codec::enc_len_prefixed;
use crate::codec::enc_packed64_field;
use crate::codec::enc_varint;
use crate::codec::enc_varint_field;
use crate::codec::i64_bits;
use crate::event::Event;
use crate::event::Summary;
use crate::event::SummaryPayload;
use crate::event::SummaryValue;
use crate::event::SummaryValueView;
use crate::event::What;
use crate::wire::enc_audio;
use crate::wire::enc_event;
use crate::wire::enc_histogram;
use crate::wire::enc_image;
use crate::wire::enc_log_message;
use crate::wire::enc_session_log;
use crate::wire::enc_source_metadata;
use crate::wire::enc_summary;
use crate::wire::enc_summary_payload;
use crate::wire::enc_summary_value;
use crate::wire::enc_tagged_run_metadata;
use crate::wire::enc_tensor;
use crate::wire::enc_what;
use vstd::bytes::u32_to_le_bytes;
use vstd::bytes::u64_to_le_bytes;
use vstd::prelude::*;
use vstd::string::StringSliceAdditionalSpecFns;
use vstd::utf8::encode_utf8;

verus! {

/// The 64-bit two's-complement bits of `x`, computed without widening casts.
pub fn i64_to_bits(x: i64) -> (r: u64)
    ensures
        r == i64_bits(x),
{
    if x >= 0 {
        x as u64
    } else {
        let y: u64 = (-(x + 1)) as u64;
        u64::MAX - y
    }
}

fn push_varint(out: &mut Vec<u8>, n: u64)
    ensures
        final(out)@ == old(out)@ + enc_varint(n),
    decreases n,
{
    if n < 0x80 {
        out.push(n as u8);
        assert(out@ =~= old(out)@ + enc_varint(n));
    } else {
        out.push(((n % 0x80) + 0x80) as u8);
        push_varint(out, n / 0x80);
        assert(out@ =~= old(out)@ + enc_varint(n));
    }
}

fn push_varint_field(out: &mut Vec<u8>, tag: u8, n: u64)
    ensures
        final(out)@ == old(out)@ + enc_varint_field(tag, n),
{
    if n != 0 {
        out.push(tag);
        push_varint(out, n);
        assert(out@ =~= old(out)@ + enc_varint_field(tag, n));
    } else {
        assert(out@ =~= old(out)@ + enc_varint_field(tag, n));
    }
}

fn push_fixed64_field(out: &mut Vec<u8>, tag: u8, bits: u64)
    ensures
        final(out)@ == old(out)@ + enc_fixed64_field(tag, bits),
{
    if bits != 0 {
        out.push(tag);
        let mut le = u64_to_le_bytes(bits);
        out.append(&mut le);
        assert(out@ =~= old(out)@ + enc_fixed64_field(tag, bits));
    } else {
        assert(out@ =~= old(out)@ + enc_fixed64_field(tag, bits));
    }
}

fn push_fixed32_field(out: &mut Vec<u8>, tag: u8, bits: u32)
    ensures
        final(out)@ == old(out)@ + enc_fixed32_field(tag, bits),
{
    if bits != 0 {
        out.push(tag);
        let mut le = u32_to_le_bytes(bits);
        out.append(&mut le);
        assert(out@ =~= old(out)@ + enc_fixed32_field(tag, bits));
    } else {
        assert(out@ =~= old(out)@ + enc_fixed32_field(tag, bits));
    }
}

/// Appends `tag`, the length of `b`, then `b` itself: the form every
/// always-present length-delimited value takes.
fn push_len_prefixed(out: &mut Vec<u8>, tag: u8, b: &[u8])
    ensures
        final(out)@ == old(out)@ + seq![tag] + enc_len_prefixed(b@),
{
    out.push(tag);
    push_varint(out, b.len() as u64);
    out.extend_from_slice(b);
    assert(out@ =~= old(out)@ + seq![tag] + enc_len_prefixed(b@));
}

fn push_bytes_field(out: &mut Vec<u8>, tag: u8, b: &[u8])
    ensures
        final(out)@ == old(out)@ + enc_bytes_field(tag, b@),
{
    if b.len() != 0 {
        push_len_prefixed(out, tag, b);
        assert(out@ =~= old(out)@ + enc_bytes_field(tag, b@));
    } else {
        assert(out@ =~= old(out)@ + enc_bytes_field(tag, b@));
    }
}

fn push_string_field(out: &mut Vec<u8>, tag: u8, s: &str)
    ensures
        final(out)@ == old(out)@ + enc_bytes_field(tag, s.spec_bytes()),
{
    push_bytes_field(out, tag, s.as_bytes());
}

proof fn lemma_enc_le64_push(v: Seq<u64>, x: u64)
    ensures
        enc_le64_seq(v.push(x)) == enc_le64_seq(v) + vstd::bytes::spec_u64_to_le_bytes(x),
    decreases v.len(),
{
    if v.len() == 0 {
        assert(v.push(x)[0] == x);
        assert(v.push(x).skip(1) =~= Seq::<u64>::empty());
        assert(enc_le64_seq(Seq::<u64>::empty()) == Seq::<u8>::empty());
        assert(enc_le64_seq(v.push(x)) =~= enc_le64_seq(v) + vstd::bytes::spec_u64_to_le_bytes(x));
    } else {
        assert(v.push(x).skip(1) =~= v.skip(1).push(x));
        lemma_enc_le64_push(v.skip(1), x);
        assert(enc_le64_seq(v.push(x)) =~= enc_le64_seq(v) + vstd::bytes::spec_u64_to_le_bytes(x));
    }
}

fn push_packed64_field(out: &mut Vec<u8>, tag: u8, v: &Vec<u64>)
    ensures
        final(out)@ == old(out)@ + enc_packed64_field(tag, v@),
{
    if v.len() != 0 {
        let mut tmp: Vec<u8> = Vec::new();
        let mut i: usize = 0;
        proof {
            assert(v@.take(0) =~= Seq::<u64>::empty());
        }
        while i < v.len()
            invariant
                i <= v@.len(),
                tmp@ == enc_le64_seq(v@.take(i as int)),
            decreases v@.len() - i,
        {
            let mut le = u64_to_le_bytes(v[i]);
            tmp.append(&mut le);
            proof {
                lemma_enc_le64_push(v@.take(i as int), v@[i as int]);
                assert(v@.take(i as int + 1) =~= v@.take(i as int).push(v@[i as int]));
            }
            i = i + 1;
        }
        proof {
            assert(v@.take(v@.len() as int) =~= v@);
        }
        push_len_prefixed(out, tag, tmp.as_slice());
        assert(out@ =~= old(out)@ + enc_packed64_field(tag, v@));
    } else {
        assert(out@ =~= old(out)@ + enc_packed64_field(tag, v@));
    }
}

fn encode_image(m: &crate::event::Image) -> (r: Vec<u8>)
    ensures
        r@ == enc_image(m@),
{
    let mut body: Vec<u8> = Vec::new();
    push_varint_field(&mut body, 0x08, i64_to_bits(m.height as i64));
    push_varint_field(&mut body, 0x10, i64_to_bits(m.width as i64));
    push_varint_field(&mut body, 0x18, i64_to_bits(m.colorspace as i64));
    push_bytes_field(&mut body, 0x22, m.encoded_image_string.as_slice());
    assert(body@ =~= enc_image(m@));
    body
}

#[verifier::rlimit(100)]
#[verifier::spinoff_prover]
fn encode_histogram(m: &crate::event::Histogram) -> (r: Vec<u8>)
    ensures
        r@ == enc_histogram(m@),
{
    let mut body: Vec<u8> = Vec::new();
    push_fixed64_field(&mut body, 0x09, m.min_bits);
    push_fixed64_field(&mut body, 0x11, m.max_bits);
    push_fixed64_field(&mut body, 0x19, m.num_bits);
    push_fixed64_field(&mut body, 0x21, m.sum_bits);
    push_fixed64_field(&mut body, 0x29, m.sum_squares_bits);
    push_packed64_field(&mut body, 0x32, &m.bucket_limit_bits);
    push_packed64_field(&mut body, 0x3a, &m.bucket_bits);
    assert(body@ =~= enc_histogram(m@));
    body
}

fn encode_audio(m: &crate::event::Audio) -> (r: Vec<u8>)
    ensures
        r@ == enc_audio(m@),
{
    let mut body: Vec<u8> = Vec::new();
    push_fixed32_field(&mut body, 0x0d, m.sample_rate_bits);
    push_varint_field(&mut body, 0x10, i64_to_bits(m.num_channels));
    push_varint_field(&mut body, 0x18, i64_to_bits(m.length_frames));
    push_bytes_field(&mut body, 0x22, m.encoded_audio_string.as_slice());
    push_string_field(&mut body, 0x2a, m.content_type.as_str());
    assert(body@ =~= enc_audio(m@));
    body
}

fn encode_tensor(m: &crate::event::Tensor) -> (r: Vec<u8>)
    ensures
        r@ == enc_tensor(m@),
{
    let mut body: Vec<u8> = Vec::new();
    push_varint_field(&mut body, 0x08, i64_to_bits(m.dtype as i64));
    assert(body@ =~= enc_tensor(m@));
    body
}

fn encode_summary_payload(p: &SummaryPayload) -> (r: Vec<u8>)
    ensures
        r@ == enc_summary_payload(p@),
{
    let mut out: Vec<u8> = Vec::new();
    match p {
        SummaryPayload::SimpleValue(bits) => {
            out.push(0x15);
            let mut le = u32_to_le_bytes(*bits);
            out.append(&mut le);
            assert(out@ =~= enc_summary_payload(p@));
        },
        SummaryPayload::ObsoleteHistogram(b) => {
            push_len_prefixed(&mut out, 0x1a, b.as_slice());
            assert(out@ =~= enc_summary_payload(p@));
        },
        SummaryPayload::Image(m) => {
            let body = encode_image(m);
            push_len_prefixed(&mut out, 0x22, body.as_slice());
            assert(out@ =~= enc_summary_payload(p@));
        },
        SummaryPayload::Histogram(m) => {
            let body = encode_histogram(m);
            push_len_prefixed(&mut out, 0x2a, body.as_slice());
            assert(out@ =~= enc_summary_payload(p@));
        },
        SummaryPayload::Audio(m) => {
            let body = encode_audio(m);
            push_len_prefixed(&mut out, 0x32, body.as_slice());
            assert(out@ =~= enc_summary_payload(p@));
        },
        SummaryPayload::Tensor(m) => {
            let body = encode_tensor(m);
            push_len_prefixed(&mut out, 0x42, body.as_slice());
            assert(out@ =~= enc_summary_payload(p@));
        },
    }
    out
}

fn encode_summary_value(v: &SummaryValue) -> (r: Vec<u8>)
    ensures
        r@ == enc_summary_value(v@),
{
    let mut out: Vec<u8> = Vec::new();
    push_string_field(&mut out, 0x3a, v.node_name.as_str());
    push_string_field(&mut out, 0x0a, v.tag.as_str());
    match &v.value {
        Option::None => {},
        Option::Some(p) => {
            let mut enc = encode_summary_payload(p);
            out.append(&mut enc);
        },
    }
    assert(out@ =~= enc_summary_value(v@));
    out
}

proof fn lemma_enc_summary_push(vs: Seq<SummaryValueView>, v: SummaryValueView)
    ensures
        enc_summary(vs.push(v)) == enc_summary(vs) + (seq![0x0au8] + enc_len_prefixed(
            enc_summary_value(v),
        )),
    decreases vs.len(),
{
    if vs.len() == 0 {
        assert(vs.push(v)[0] == v);
        assert(vs.push(v).skip(1) =~= Seq::<SummaryValueView>::empty());
        assert(enc_summary(Seq::<SummaryValueView>::empty()) == Seq::<u8>::empty());
        assert(enc_summary(vs.push(v)) =~= enc_summary(vs) + (seq![0x0au8] + enc_len_prefixed(
            enc_summary_value(v),
        )));
    } else {
        assert(vs.push(v)[0] == vs[0]);
        assert(vs.push(v).skip(1) =~= vs.skip(1).push(v));
        lemma_enc_summary_push(vs.skip(1), v);
        assert(enc_summary(vs.push(v)) =~= enc_summary(vs) + (seq![0x0au8] + enc_len_prefixed(
            enc_summary_value(v),
        )));
    }
}

fn encode_summary(s: &Summary) -> (r: Vec<u8>)
    ensures
        r@ == enc_summary(s@),
{
    let mut out: Vec<u8> = Vec::new();
    let mut i: usize = 0;
    proof {
        assert(s.values@.take(0).map_values(|v: SummaryValue| v@) =~= Seq::<
            SummaryValueView,
        >::empty());
    }
    while i < s.values.len()
        invariant
            i <= s.values@.len(),
            out@ == enc_summary(s.values@.take(i as int).map_values(|v: SummaryValue| v@)),
        decreases s.values@.len() - i,
    {
        let body = encode_summary_value(&s.values[i]);
        push_len_prefixed(&mut out, 0x0a, body.as_slice());
        proof {
            let f = |v: SummaryValue| v@;
            let pre = s.values@.take(i as int).map_values(f);
            lemma_enc_summary_push(pre, s.values@[i as int]@);
            assert(s.values@.take(i as int + 1).map_values(f) =~= pre.push(s.values@[i as int]@));
        }
        i = i + 1;
    }
    proof {
        assert(s.values@.take(s.values@.len() as int) =~= s.values@);
    }
    out
}

fn encode_log_message(m: &crate::event::LogMessage) -> (r: Vec<u8>)
    ensures
        r@ == enc_log_message(m@),
{
    let mut body: Vec<u8> = Vec::new();
    push_varint_field(&mut body, 0x08, i64_to_bits(m.level as i64));
    push_string_field(&mut body, 0x12, m.message.as_str());
    assert(body@ =~= enc_log_message(m@));
    body
}

fn encode_session_log(m: &crate::event::SessionLog) -> (r: Vec<u8>)
    ensures
        r@ == enc_session_log(m@),
{
    let mut body: Vec<u8> = Vec::new();
    push_varint_field(&mut body, 0x08, i64_to_bits(m.status as i64));
    push_string_field(&mut body, 0x12, m.checkpoint_path.as_str());
    push_string_field(&mut body, 0x1a, m.msg.as_str());
    assert(body@ =~= enc_session_log(m@));
    body
}

fn encode_tagged_run_metadata(m: &crate::event::TaggedRunMetadata) -> (r: Vec<u8>)
    ensures
        r@ == enc_tagged_run_metadata(m@),
{
    let mut body: Vec<u8> = Vec::new();
    push_string_field(&mut body, 0x0a, m.tag.as_str());
    push_bytes_field(&mut body, 0x12, m.run_metadata.as_slice());
    assert(body@ =~= enc_tagged_run_metadata(m@));
    body
}

fn encode_what(out: &mut Vec<u8>, w: &What)
    ensures
        final(out)@ == old(out)@ + enc_what(w@),
{
    match w {
        What::FileVersion(s) => {
            push_len_prefixed(out, 0x1a, s.as_str().as_bytes());
            assert(out@ =~= old(out)@ + enc_what(w@));
        },
        What::GraphDef(b) => {
            push_len_prefixed(out, 0x22, b.as_slice());
            assert(out@ =~= old(out)@ + enc_what(w@));
        },
        What::Summary(s) => {
            let body = encode_summary(s);
            push_len_prefixed(out, 0x2a, body.as_slice());
            assert(out@ =~= old(out)@ + enc_what(w@));
        },
        What::LogMessage(m) => {
            let body = encode_log_message(m);
            push_len_prefixed(out, 0x32, body.as_slice());
            assert(out@ =~= old(out)@ + enc_what(w@));
        },
        What::SessionLog(m) => {
            let body = encode_session_log(m);
            push_len_prefixed(out, 0x3a, body.as_slice());
            assert(out@ =~= old(out)@ + enc_what(w@));
        },
        What::TaggedRunMetadata(m) => {
            let body = encode_tagged_run_metadata(m);
            push_len_prefixed(out, 0x42, body.as_slice());
            assert(out@ =~= old(out)@ + enc_what(w@));
        },
    }
}

/// Serializes one event into its wire form.
pub fn encode_event(e: &Event) -> (r: Vec<u8>)
    ensures
        r@ == enc_event(e@),
{
    let mut out: Vec<u8> = Vec::new();
    push_fixed64_field(&mut out, 0x09, e.wall_time_bits);
    push_varint_field(&mut out, 0x10, i64_to_bits(e.step));
    match &e.source_metadata {
        Option::None => {},
        Option::Some(sm) => {
            let mut body: Vec<u8> = Vec::new();
            push_string_field(&mut body, 0x0a, sm.writer.as_str());
            assert(body@ =~= enc_source_metadata(encode_utf8(sm.writer@)));
            push_len_prefixed(&mut out, 0x52, body.as_slice());
        },
    }
    match &e.what {
        Option::None => {},
        Option::Some(w) => {
            encode_what(&mut out, w);
        },
    }
    assert(out@ =~= enc_event(e@));
    out
}

/// The exact number of bytes the wire form of `e` occupies.
pub fn encoded_len(e: &Event) -> (r: usize)
    ensures
        r == enc_event(e@).len(),
{
    let enc = encode_event(e);
    enc.len()
}

} // verus!
