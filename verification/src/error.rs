use vstd::prelude::*;

verus! {

/// The failures this library reports. Every failure is returned to the
/// immediate caller; none is swallowed or retried.
#[derive(Debug)]
pub enum Error {
    /// The stream ended inside a record, or an underlying read or write
    /// failed.
    Io,
    /// The system clock reads before the Unix epoch.
    SystemTime,
    /// The stored length checksum disagrees with the one computed from the
    /// length bytes; both values are reported.
    LenCrcMismatch { file_crc: u32, computed_crc: u32 },
    /// The stored payload checksum disagrees with the one computed from the
    /// payload bytes; both values are reported.
    CrcMismatch { file_crc: u32, computed_crc: u32 },
    /// The record's payload bytes did not parse as an event.
    Decode,
    /// A caller-supplied message, for composition with surrounding code.
    Msg(String),
}

impl Error {
    /// Wraps a caller-supplied message.
    pub fn msg(err: String) -> (r: Self)
        ensures
            r == Error::Msg(err),
    {
        Error::Msg(err)
    }
}

} // verus!
