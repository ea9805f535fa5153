use tboard::masked_crc;
use tboard::Error;
use tboard::SummaryReader;
use tboard::SummaryWriter;

// The CRC-32/ISCSI check value for "123456789" is 0xE3069283; after the
// rotate-and-add mask the stored value must be exactly this.
#[test]
fn masked_crc_golden_vector() {
    assert_eq!(masked_crc(b"123456789"), 0xC78AB0E5);
}

#[test]
fn masked_crc_empty_buffer() {
    // CRC-32C of no bytes is zero, so the mask constant shows through.
    assert_eq!(masked_crc(b""), 0xA282EAD8);
}

#[test]
fn masked_crc_zero_length_field() {
    assert_eq!(masked_crc(&[0u8; 8]), 0x07980329);
}

#[test]
fn empty_stream_is_clean_end() {
    let mut reader = SummaryReader::new(Vec::new());
    assert!(reader.next().is_none());
}

#[test]
fn partial_length_field_is_io_error() {
    for cut in 1..12 {
        let mut reader = SummaryReader::new(vec![0u8; cut]);
        match reader.next() {
            Some(Err(Error::Io)) => {}
            other => panic!("expected io error, got {:?}", other.is_none()),
        }
    }
}

#[test]
fn truncated_record_is_io_error_never_silence() {
    let writer = SummaryWriter::new(0x3FF0000000000000);
    let full = writer.into_bytes();
    // Cut the single record anywhere strictly inside it: always an input
    // failure, never a clean end and never a record.
    for cut in 1..full.len() {
        let mut reader = SummaryReader::new(full[..cut].to_vec());
        match reader.next() {
            Some(Err(Error::Io)) => {}
            Some(Err(e)) => panic!("expected io error at cut {cut}, got {e:?}"),
            Some(Ok(_)) => panic!("truncated record decoded at cut {cut}"),
            None => panic!("truncated record read as clean end at cut {cut}"),
        }
    }
}

#[test]
fn single_bit_flips_are_always_caught() {
    let writer = SummaryWriter::new(1.5f64.to_bits());
    let full = writer.into_bytes();
    let n = full.len() - 16;
    for byte in 0..full.len() {
        for bit in 0..8 {
            let mut corrupt = full.clone();
            corrupt[byte] ^= 1 << bit;
            let mut reader = SummaryReader::new(corrupt);
            let got = reader.next();
            match got {
                Some(Err(Error::LenCrcMismatch { .. })) => {
                    // A flip in the length field or its checksum.
                    assert!(byte < 12, "length-crc mismatch from byte {byte}");
                }
                Some(Err(Error::Io)) => {
                    // A flip in the length field can also promise more bytes
                    // than the stream holds; the checksum is checked first,
                    // so this cannot happen.
                    panic!("io error from flipping byte {byte} bit {bit}");
                }
                Some(Err(Error::Decode)) => {
                    assert!((12..12 + n).contains(&byte), "decode error from byte {byte}");
                }
                Some(Err(Error::CrcMismatch { .. })) => {
                    assert!(byte >= 12, "payload-crc mismatch from byte {byte}");
                }
                other => panic!(
                    "flip at byte {byte} bit {bit} was not caught (got ok: {})",
                    matches!(other, Some(Ok(_)))
                ),
            }
        }
    }
}

#[test]
fn error_message_constructor() {
    let e = Error::msg("something went wrong".to_string());
    assert!(matches!(e, Error::Msg(m) if m == "something went wrong"));
}

#[test]
fn reader_reports_both_crc_values() {
    let writer = SummaryWriter::new(0);
    let mut bytes = writer.into_bytes();
    // Corrupt the stored length checksum (bytes 8..12) completely.
    let stored = u32::from_le_bytes([bytes[8], bytes[9], bytes[10], bytes[11]]);
    let flipped = stored ^ 0xFFFF_FFFF;
    bytes[8..12].copy_from_slice(&flipped.to_le_bytes());
    let computed = masked_crc(&bytes[0..8]);
    let mut reader = SummaryReader::new(bytes);
    match reader.next() {
        Some(Err(Error::LenCrcMismatch { file_crc, computed_crc })) => {
            assert_eq!(file_crc, flipped);
            assert_eq!(computed_crc, computed);
        }
        _ => panic!("expected a length-crc mismatch"),
    }
}
