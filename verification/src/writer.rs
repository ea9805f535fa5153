use crate::encode::encode_event;
use crate::error::Error;
use crate::event::AudioView;
use crate::event::Event;
use crate::event::EventView;
use crate::event::HistogramView;
use crate::event::ImageView;
use crate::event::Summary;
use crate::event::SummaryPayload;
use crate::event::SummaryPayloadView;
use crate::event::SummaryValue;
use crate::event::SummaryValueView;
use crate::event::TensorView;
use crate::event::What;
use crate::event::WhatView;
use crate::record::append_record;
use crate::record::frame;
use crate::wire::enc_event;
use vstd::prelude::*;
use vstd::utf8::encode_utf8;

verus! {

// ---------------------------------------------------------------------------
// The event values the writers synthesize, as views.
// ---------------------------------------------------------------------------

/// The UTF-8 bytes of the format-version marker that opens every log.
pub open spec fn file_version_bytes() -> Seq<u8> {
    encode_utf8("brain.Event:2"@)
}

/// The mandatory leading record: the format-version marker at step zero.
pub open spec fn file_version_event(wall_time_bits: u64) -> EventView {
    EventView {
        wall_time_bits,
        step: 0,
        what: Option::Some(WhatView::FileVersion(file_version_bytes())),
        source_metadata: Option::None,
    }
}

/// An event carrying one payload variant and no source metadata.
pub open spec fn plain_event(wall_time_bits: u64, step: i64, what: WhatView) -> EventView {
    EventView { wall_time_bits, step, what: Option::Some(what), source_metadata: Option::None }
}

/// A summary holding a single value under `tag` with empty node name.
pub open spec fn single_value_what(tag: Seq<u8>, payload: SummaryPayloadView) -> WhatView {
    WhatView::Summary(
        seq![
            SummaryValueView {
                node_name: Seq::empty(),
                tag,
                value: Option::Some(payload),
            },
        ],
    )
}

pub open spec fn scalar_what(tag: Seq<u8>, value_bits: u32) -> WhatView {
    single_value_what(tag, SummaryPayloadView::SimpleValue(value_bits))
}

pub open spec fn audio_what(
    tag: Seq<u8>,
    content_type: Seq<u8>,
    encoded_audio_string: Seq<u8>,
    length_frames: i64,
    num_channels: i64,
    sample_rate_bits: u32,
) -> WhatView {
    single_value_what(
        tag,
        SummaryPayloadView::Audio(
            AudioView {
                sample_rate_bits,
                num_channels,
                length_frames,
                encoded_audio_string,
                content_type,
            },
        ),
    )
}

pub open spec fn histogram_what(
    tag: Seq<u8>,
    min_bits: u64,
    max_bits: u64,
    num_bits: u64,
    sum_bits: u64,
    sum_squares_bits: u64,
    bucket_bits: Seq<u64>,
    bucket_limit_bits: Seq<u64>,
) -> WhatView {
    single_value_what(
        tag,
        SummaryPayloadView::Histogram(
            HistogramView {
                min_bits,
                max_bits,
                num_bits,
                sum_bits,
                sum_squares_bits,
                bucket_limit_bits,
                bucket_bits,
            },
        ),
    )
}

pub open spec fn image_what(
    tag: Seq<u8>,
    width: i32,
    height: i32,
    colorspace: i32,
    encoded_image_string: Seq<u8>,
) -> WhatView {
    single_value_what(
        tag,
        SummaryPayloadView::Image(ImageView { height, width, colorspace, encoded_image_string }),
    )
}

/// The tensor the tensor builder writes: a 32-bit-float element type and
/// nothing else.
pub open spec fn tensor_what(tag: Seq<u8>) -> WhatView {
    single_value_what(tag, SummaryPayloadView::Tensor(TensorView { dtype: 1 }))
}

/// Builds the one-value summary every typed builder writes.
fn single_value_summary(tag: &str, payload: SummaryPayload) -> (r: Summary)
    ensures
        r@ == single_value_what(encode_utf8(tag@), payload@)->Summary_0,
{
    let value = SummaryValue {
        node_name: String::new(),
        tag: tag.to_owned(),
        value: Option::Some(payload),
    };
    let s = Summary { values: vec![value] };
    proof {
        assert(encode_utf8(Seq::<char>::empty()) =~= Seq::<u8>::empty());
        assert(s@ =~= single_value_what(encode_utf8(tag@), payload@)->Summary_0);
    }
    s
}

// ---------------------------------------------------------------------------
// The writer: appends framed records to an in-memory buffer that the caller
// hands to its output stream.
// ---------------------------------------------------------------------------

/// Appends one framed record per event to an owned byte buffer. Construction
/// writes the mandatory leading format-version record as its first act. The
/// caller supplies each record's wall-clock timestamp as IEEE-754 bits and
/// hands the buffer to its output stream; records are immutable once
/// appended, and never rewritten.
pub struct SummaryWriter {
    out: Vec<u8>,
}

impl SummaryWriter {
    /// Every byte this writer has produced, in order.
    pub closed spec fn bytes(self) -> Seq<u8> {
        self.out@
    }

    /// Starts a log: writes the format-version record stamped with the given
    /// wall time.
    pub fn new(wall_time_bits: u64) -> (r: Self)
        ensures
            r.bytes() == frame(enc_event(file_version_event(wall_time_bits))),
    {
        let mut w = SummaryWriter { out: Vec::new() };
        let _ = w.write(0, What::FileVersion("brain.Event:2".to_owned()), wall_time_bits);
        proof {
            assert(Seq::<u8>::empty() + frame(enc_event(file_version_event(wall_time_bits)))
                =~= frame(enc_event(file_version_event(wall_time_bits))));
        }
        w
    }

    /// Appends one record framing the serialized event. Framing an in-memory
    /// buffer cannot fail; the `Result` is the shape callers handle, and it
    /// is always `Ok`.
    pub fn write_event(&mut self, event: &Event) -> (r: Result<(), Error>)
        ensures
            r is Ok,
            final(self).bytes() == old(self).bytes() + frame(enc_event(event@)),
    {
        let payload = encode_event(event);
        append_record(&mut self.out, payload.as_slice());
        Ok(())
    }

    /// Appends one record carrying the payload variant at the given step,
    /// stamped with the given wall time.
    pub fn write(&mut self, step: i64, what: What, wall_time_bits: u64) -> (r: Result<(), Error>)
        ensures
            r is Ok,
            final(self).bytes() == old(self).bytes() + frame(
                enc_event(plain_event(wall_time_bits, step, what@)),
            ),
    {
        let event = Event {
            wall_time_bits,
            step,
            what: Option::Some(what),
            source_metadata: Option::None,
        };
        self.write_event(&event)
    }

    /// Appends one scalar sample under `tag`; the value is the IEEE-754 bits
    /// of a 32-bit float.
    pub fn write_scalar(&mut self, step: i64, tag: &str, value_bits: u32, wall_time_bits: u64) -> (r:
        Result<(), Error>)
        ensures
            r is Ok,
            final(self).bytes() == old(self).bytes() + frame(
                enc_event(plain_event(wall_time_bits, step, scalar_what(encode_utf8(tag@), value_bits))),
            ),
    {
        let summary = single_value_summary(tag, SummaryPayload::SimpleValue(value_bits));
        self.write(step, What::Summary(summary), wall_time_bits)
    }

    /// The bytes produced so far, for the caller to hand to its stream.
    pub fn buffer(&self) -> (r: &Vec<u8>)
        ensures
            r@ == self.bytes(),
    {
        &self.out
    }

    /// Gives up the buffer, ending the writer's life.
    pub fn into_bytes(self) -> (r: Vec<u8>)
        ensures
            r@ == self.bytes(),
    {
        self.out
    }
}

/// A [`SummaryWriter`] that also remembers the file name it was created for,
/// when it was created from a directory rather than an arbitrary sink, and
/// offers the typed convenience builders.
pub struct EventWriter {
    inner: SummaryWriter,
    filename: Option<String>,
}

impl EventWriter {
    /// Every byte this writer has produced, in order.
    pub closed spec fn bytes(self) -> Seq<u8> {
        self.inner.bytes()
    }

    /// The file name this writer was created for, if any.
    pub closed spec fn spec_filename(self) -> Option<Seq<char>> {
        match self.filename {
            Option::Some(f) => Option::Some(f@),
            Option::None => Option::None,
        }
    }

    /// Wraps a caller-supplied sink: `filename` records where the bytes will
    /// go, when the caller created a file for them. Writes the mandatory
    /// leading format-version record.
    pub fn from_writer(filename: Option<String>, wall_time_bits: u64) -> (r: Self)
        ensures
            r.bytes() == frame(enc_event(file_version_event(wall_time_bits))),
            r.spec_filename() == (match filename {
                Option::Some(f) => Option::Some(f@),
                Option::None => Option::None::<Seq<char>>,
            }),
    {
        EventWriter { inner: SummaryWriter::new(wall_time_bits), filename }
    }

    /// Appends one record framing the serialized event.
    pub fn write_event(&mut self, event: &Event) -> (r: Result<(), Error>)
        ensures
            r is Ok,
            final(self).bytes() == old(self).bytes() + frame(enc_event(event@)),
            final(self).spec_filename() == old(self).spec_filename(),
    {
        self.inner.write_event(event)
    }

    /// Appends one record carrying the payload variant at the given step.
    pub fn write(&mut self, step: i64, what: What, wall_time_bits: u64) -> (r: Result<(), Error>)
        ensures
            r is Ok,
            final(self).bytes() == old(self).bytes() + frame(
                enc_event(plain_event(wall_time_bits, step, what@)),
            ),
            final(self).spec_filename() == old(self).spec_filename(),
    {
        self.inner.write(step, what, wall_time_bits)
    }

    /// Appends one scalar sample under `tag`.
    pub fn write_scalar(&mut self, step: i64, tag: &str, value_bits: u32, wall_time_bits: u64) -> (r:
        Result<(), Error>)
        ensures
            r is Ok,
            final(self).bytes() == old(self).bytes() + frame(
                enc_event(plain_event(wall_time_bits, step, scalar_what(encode_utf8(tag@), value_bits))),
            ),
            final(self).spec_filename() == old(self).spec_filename(),
    {
        self.inner.write_scalar(step, tag, value_bits, wall_time_bits)
    }

    /// Appends one encoded audio clip under `tag`; the sample rate is the
    /// IEEE-754 bits of a 32-bit float.
    pub fn write_audio(
        &mut self,
        step: i64,
        tag: &str,
        content_type: &str,
        encoded_audio_string: Vec<u8>,
        length_frames: i64,
        num_channels: i64,
        sample_rate_bits: u32,
        wall_time_bits: u64,
    ) -> (r: Result<(), Error>)
        ensures
            r is Ok,
            final(self).bytes() == old(self).bytes() + frame(
                enc_event(
                    plain_event(
                        wall_time_bits,
                        step,
                        audio_what(
                            encode_utf8(tag@),
                            encode_utf8(content_type@),
                            encoded_audio_string@,
                            length_frames,
                            num_channels,
                            sample_rate_bits,
                        ),
                    ),
                ),
            ),
            final(self).spec_filename() == old(self).spec_filename(),
    {
        let audio = crate::event::Audio {
            sample_rate_bits,
            num_channels,
            length_frames,
            encoded_audio_string,
            content_type: content_type.to_owned(),
        };
        let summary = single_value_summary(tag, SummaryPayload::Audio(audio));
        self.write(step, What::Summary(summary), wall_time_bits)
    }

    /// Appends one histogram under `tag`; every statistic is the IEEE-754
    /// bits of a 64-bit float.
    pub fn write_histo(
        &mut self,
        step: i64,
        tag: &str,
        min_bits: u64,
        max_bits: u64,
        num_bits: u64,
        sum_bits: u64,
        sum_squares_bits: u64,
        bucket_bits: Vec<u64>,
        bucket_limit_bits: Vec<u64>,
        wall_time_bits: u64,
    ) -> (r: Result<(), Error>)
        ensures
            r is Ok,
            final(self).bytes() == old(self).bytes() + frame(
                enc_event(
                    plain_event(
                        wall_time_bits,
                        step,
                        histogram_what(
                            encode_utf8(tag@),
                            min_bits,
                            max_bits,
                            num_bits,
                            sum_bits,
                            sum_squares_bits,
                            bucket_bits@,
                            bucket_limit_bits@,
                        ),
                    ),
                ),
            ),
            final(self).spec_filename() == old(self).spec_filename(),
    {
        let histo = crate::event::Histogram {
            min_bits,
            max_bits,
            num_bits,
            sum_bits,
            sum_squares_bits,
            bucket_limit_bits,
            bucket_bits,
        };
        let summary = single_value_summary(tag, SummaryPayload::Histogram(histo));
        self.write(step, What::Summary(summary), wall_time_bits)
    }

    /// Appends one encoded image under `tag`.
    pub fn write_image(
        &mut self,
        step: i64,
        tag: &str,
        width: i32,
        height: i32,
        colorspace: i32,
        encoded_image_string: Vec<u8>,
        wall_time_bits: u64,
    ) -> (r: Result<(), Error>)
        ensures
            r is Ok,
            final(self).bytes() == old(self).bytes() + frame(
                enc_event(
                    plain_event(
                        wall_time_bits,
                        step,
                        image_what(
                            encode_utf8(tag@),
                            width,
                            height,
                            colorspace,
                            encoded_image_string@,
                        ),
                    ),
                ),
            ),
            final(self).spec_filename() == old(self).spec_filename(),
    {
        let image = crate::event::Image { height, width, colorspace, encoded_image_string };
        let summary = single_value_summary(tag, SummaryPayload::Image(image));
        self.write(step, What::Summary(summary), wall_time_bits)
    }

    /// Appends one tensor under `tag`: a 32-bit-float element type and no
    /// contents.
    pub fn write_tensor(&mut self, step: i64, tag: &str, wall_time_bits: u64) -> (r: Result<
        (),
        Error,
    >)
        ensures
            r is Ok,
            final(self).bytes() == old(self).bytes() + frame(
                enc_event(plain_event(wall_time_bits, step, tensor_what(encode_utf8(tag@)))),
            ),
            final(self).spec_filename() == old(self).spec_filename(),
    {
        let tensor = crate::event::Tensor { dtype: 1 };
        let summary = single_value_summary(tag, SummaryPayload::Tensor(tensor));
        self.write(step, What::Summary(summary), wall_time_bits)
    }

    /// The file name this writer was created for, if any.
    pub fn filename(&self) -> (r: Option<&String>)
        ensures
            match r {
                Option::Some(f) => self.spec_filename() == Option::Some(f@),
                Option::None => self.spec_filename() is None,
            },
    {
        self.filename.as_ref()
    }

    /// The bytes produced so far, for the caller to hand to its stream.
    pub fn buffer(&self) -> (r: &Vec<u8>)
        ensures
            r@ == self.bytes(),
    {
        self.inner.buffer()
    }

    /// Gives up the buffer, ending the writer's life.
    pub fn into_bytes(self) -> (r: Vec<u8>)
        ensures
            r@ == self.bytes(),
    {
        self.inner.into_bytes()
    }
}

} // verus!
