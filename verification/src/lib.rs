//! An append-only, checksum-protected binary log of time-stamped, typed
//! events, in the record framing used by TensorBoard event files.
//!
//! Each record on the wire is `length (8 bytes, little endian)`,
//! `masked CRC-32C of those 8 bytes (4 bytes)`, `payload (length bytes)`,
//! `masked CRC-32C of the payload (4 bytes)`. The payload is an
//! [`event::Event`] in a protocol-buffer wire encoding. [`SummaryWriter`]
//! and [`EventWriter`] append records to an in-memory byte buffer that the
//! caller hands to its output stream; [`SummaryReader`] pulls records one at
//! a time from a byte buffer that the caller read from its input stream.

mod checksum;
mod codec;

pub mod decode;
pub mod encode;
pub mod error;
pub mod event;
pub mod names;
pub mod reader;
pub mod record;
pub mod wire;
pub mod writer;

pub use checksum::crc32c_of;
pub use checksum::masked_crc;
pub use checksum::spec_mask;
pub use checksum::spec_masked_crc;
pub use error::Error;
pub use names::global_uid;
pub use names::log_file_name;
pub use names::UidCounter;
pub use reader::SummaryReader;
pub use writer::EventWriter;
pub use writer::SummaryWriter;
