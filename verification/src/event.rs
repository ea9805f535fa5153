use vstd::prelude::*;
use vstd::utf8::encode_utf8;

verus! {

// ---------------------------------------------------------------------------
// The logical value carried by one record. Floating-point fields of the wire
// schema (the wall time, a scalar sample, histogram statistics) are held as
// their IEEE-754 bit patterns, which is also exactly how they appear on the
// wire; callers convert with `to_bits`/`from_bits`.
// ---------------------------------------------------------------------------

/// One event: a wall-clock timestamp, a caller-chosen step number, and at
/// most one payload variant.
pub struct Event {
    /// IEEE-754 bits of the wall time, in seconds since the Unix epoch.
    pub wall_time_bits: u64,
    /// The caller-chosen step number.
    pub step: i64,
    /// The payload variant, or none.
    pub what: Option<What>,
    /// The optional record of which writer produced the event.
    pub source_metadata: Option<SourceMetadata>,
}

/// The payload variants an event can carry.
pub enum What {
    /// The format-version marker; the first record of every log carries one.
    FileVersion(String),
    /// A serialized graph definition, kept opaque.
    GraphDef(Vec<u8>),
    /// A collection of tagged values.
    Summary(Summary),
    /// A log message with a severity level.
    LogMessage(LogMessage),
    /// A session state change.
    SessionLog(SessionLog),
    /// Run metadata under a tag, kept opaque.
    TaggedRunMetadata(TaggedRunMetadata),
}

/// A collection of tagged values attached to one event.
pub struct Summary {
    /// The tagged values, in order.
    pub values: Vec<SummaryValue>,
}

/// One tagged value inside a summary.
pub struct SummaryValue {
    /// The name of the node that produced the value, often empty.
    pub node_name: String,
    /// The tag the value is filed under.
    pub tag: String,
    /// The value itself, or none.
    pub value: Option<SummaryPayload>,
}

/// The kinds of value a summary entry can hold.
pub enum SummaryPayload {
    /// A single sample, as the IEEE-754 bits of a 32-bit float.
    SimpleValue(u32),
    /// A histogram in the obsolete byte form, kept opaque.
    ObsoleteHistogram(Vec<u8>),
    /// An encoded image.
    Image(Image),
    /// A histogram of samples.
    Histogram(Histogram),
    /// An encoded audio clip.
    Audio(Audio),
    /// A tensor; only its element type is carried.
    Tensor(Tensor),
}

/// An encoded image with its dimensions.
pub struct Image {
    pub height: i32,
    pub width: i32,
    pub colorspace: i32,
    pub encoded_image_string: Vec<u8>,
}

/// A histogram of samples; every statistic is the IEEE-754 bit pattern of a
/// 64-bit float.
pub struct Histogram {
    pub min_bits: u64,
    pub max_bits: u64,
    pub num_bits: u64,
    pub sum_bits: u64,
    pub sum_squares_bits: u64,
    pub bucket_limit_bits: Vec<u64>,
    pub bucket_bits: Vec<u64>,
}

/// An encoded audio clip; the sample rate is the IEEE-754 bit pattern of a
/// 32-bit float.
pub struct Audio {
    pub sample_rate_bits: u32,
    pub num_channels: i64,
    pub length_frames: i64,
    pub encoded_audio_string: Vec<u8>,
    pub content_type: String,
}

/// A tensor value; only the element type survives in this model.
pub struct Tensor {
    pub dtype: i32,
}

/// The record of which writer produced an event.
pub struct SourceMetadata {
    pub writer: String,
}

// ---------------------------------------------------------------------------
// Mathematical views. A string field is modelled by its UTF-8 byte sequence,
// which is also its wire form.
// ---------------------------------------------------------------------------

pub struct EventView {
    pub wall_time_bits: u64,
    pub step: i64,
    pub what: Option<WhatView>,
    pub source_metadata: Option<Seq<u8>>,
}

pub enum WhatView {
    FileVersion(Seq<u8>),
    GraphDef(Seq<u8>),
    Summary(Seq<SummaryValueView>),
    LogMessage(LogMessageView),
    SessionLog(SessionLogView),
    TaggedRunMetadata(TaggedRunMetadataView),
}

pub struct SummaryValueView {
    pub node_name: Seq<u8>,
    pub tag: Seq<u8>,
    pub value: Option<SummaryPayloadView>,
}

pub enum SummaryPayloadView {
    SimpleValue(u32),
    ObsoleteHistogram(Seq<u8>),
    Image(ImageView),
    Histogram(HistogramView),
    Audio(AudioView),
    Tensor(TensorView),
}

pub struct ImageView {
    pub height: i32,
    pub width: i32,
    pub colorspace: i32,
    pub encoded_image_string: Seq<u8>,
}

pub struct HistogramView {
    pub min_bits: u64,
    pub max_bits: u64,
    pub num_bits: u64,
    pub sum_bits: u64,
    pub sum_squares_bits: u64,
    pub bucket_limit_bits: Seq<u64>,
    pub bucket_bits: Seq<u64>,
}

pub struct AudioView {
    pub sample_rate_bits: u32,
    pub num_channels: i64,
    pub length_frames: i64,
    pub encoded_audio_string: Seq<u8>,
    pub content_type: Seq<u8>,
}

pub struct TensorView {
    pub dtype: i32,
}

pub struct LogMessageView {
    pub level: i32,
    pub message: Seq<u8>,
}

pub struct SessionLogView {
    pub status: i32,
    pub checkpoint_path: Seq<u8>,
    pub msg: Seq<u8>,
}

pub struct TaggedRunMetadataView {
    pub tag: Seq<u8>,
    pub run_metadata: Seq<u8>,
}

/// A log message with a severity level.
pub struct LogMessage {
    pub level: i32,
    pub message: String,
}

/// A session state change.
pub struct SessionLog {
    pub status: i32,
    pub checkpoint_path: String,
    pub msg: String,
}

/// Run metadata filed under a tag.
pub struct TaggedRunMetadata {
    pub tag: String,
    pub run_metadata: Vec<u8>,
}

impl View for Event {
    type V = EventView;

    open spec fn view(&self) -> EventView {
        EventView {
            wall_time_bits: self.wall_time_bits,
            step: self.step,
            what: match self.what {
                Option::None => Option::None,
                Option::Some(w) => Option::Some(w@),
            },
            source_metadata: match self.source_metadata {
                Option::None => Option::None,
                Option::Some(sm) => Option::Some(encode_utf8(sm.writer@)),
            },
        }
    }
}

impl View for What {
    type V = WhatView;

    open spec fn view(&self) -> WhatView {
        match self {
            What::FileVersion(s) => WhatView::FileVersion(encode_utf8(s@)),
            What::GraphDef(b) => WhatView::GraphDef(b@),
            What::Summary(s) => WhatView::Summary(s@),
            What::LogMessage(m) => WhatView::LogMessage(m@),
            What::SessionLog(m) => WhatView::SessionLog(m@),
            What::TaggedRunMetadata(m) => WhatView::TaggedRunMetadata(m@),
        }
    }
}

impl View for Summary {
    type V = Seq<SummaryValueView>;

    open spec fn view(&self) -> Seq<SummaryValueView> {
        self.values@.map_values(|v: SummaryValue| v@)
    }
}

impl View for SummaryValue {
    type V = SummaryValueView;

    open spec fn view(&self) -> SummaryValueView {
        SummaryValueView {
            node_name: encode_utf8(self.node_name@),
            tag: encode_utf8(self.tag@),
            value: match self.value {
                Option::None => Option::None,
                Option::Some(p) => Option::Some(p@),
            },
        }
    }
}

impl View for SummaryPayload {
    type V = SummaryPayloadView;

    open spec fn view(&self) -> SummaryPayloadView {
        match self {
            SummaryPayload::SimpleValue(bits) => SummaryPayloadView::SimpleValue(*bits),
            SummaryPayload::ObsoleteHistogram(b) => SummaryPayloadView::ObsoleteHistogram(b@),
            SummaryPayload::Image(i) => SummaryPayloadView::Image(i@),
            SummaryPayload::Histogram(h) => SummaryPayloadView::Histogram(h@),
            SummaryPayload::Audio(a) => SummaryPayloadView::Audio(a@),
            SummaryPayload::Tensor(t) => SummaryPayloadView::Tensor(t@),
        }
    }
}

impl View for Image {
    type V = ImageView;

    open spec fn view(&self) -> ImageView {
        ImageView {
            height: self.height,
            width: self.width,
            colorspace: self.colorspace,
            encoded_image_string: self.encoded_image_string@,
        }
    }
}

impl View for Histogram {
    type V = HistogramView;

    open spec fn view(&self) -> HistogramView {
        HistogramView {
            min_bits: self.min_bits,
            max_bits: self.max_bits,
            num_bits: self.num_bits,
            sum_bits: self.sum_bits,
            sum_squares_bits: self.sum_squares_bits,
            bucket_limit_bits: self.bucket_limit_bits@,
            bucket_bits: self.bucket_bits@,
        }
    }
}

impl View for Audio {
    type V = AudioView;

    open spec fn view(&self) -> AudioView {
        AudioView {
            sample_rate_bits: self.sample_rate_bits,
            num_channels: self.num_channels,
            length_frames: self.length_frames,
            encoded_audio_string: self.encoded_audio_string@,
            content_type: encode_utf8(self.content_type@),
        }
    }
}

impl View for Tensor {
    type V = TensorView;

    open spec fn view(&self) -> TensorView {
        TensorView { dtype: self.dtype }
    }
}

impl View for LogMessage {
    type V = LogMessageView;

    open spec fn view(&self) -> LogMessageView {
        LogMessageView { level: self.level, message: encode_utf8(self.message@) }
    }
}

impl View for SessionLog {
    type V = SessionLogView;

    open spec fn view(&self) -> SessionLogView {
        SessionLogView {
            status: self.status,
            checkpoint_path: encode_utf8(self.checkpoint_path@),
            msg: encode_utf8(self.msg@),
        }
    }
}

impl View for TaggedRunMetadata {
    type V = TaggedRunMetadataView;

    open spec fn view(&self) -> TaggedRunMetadataView {
        TaggedRunMetadataView { tag: encode_utf8(self.tag@), run_metadata: self.run_metadata@ }
    }
}

} // verus!
