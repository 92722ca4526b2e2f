use demux_core::source::ByteSource;
use demux_core::tags::detect_tags;
use demux_core::types::DemuxerError;

fn le32(v: u32) -> [u8; 4] {
    [(v & 0xff) as u8, ((v >> 8) & 0xff) as u8, ((v >> 16) & 0xff) as u8, ((v >> 24) & 0xff) as u8]
}

#[test]
fn no_tags_short_buffer() {
    let mut src = ByteSource::new(vec![1, 2, 3]);
    assert_eq!(detect_tags(&mut src), (false, 0, None));
}

#[test]
fn lead_envelope_zero_size() {
    // header bytes "ID3", version 3, flags 0, size 0
    let mut data = vec![0x49, 0x44, 0x33, 3, 0, 0, 0, 0, 0, 0];
    data.extend_from_slice(&[7u8; 20]);
    let mut src = ByteSource::new(data);
    assert_eq!(detect_tags(&mut src), (true, 10, None));
}

#[test]
fn lead_envelope_seven_bit_size() {
    // size bytes contribute seven bits each: 0x01 0x02 0x03 0x04
    let mut data = vec![0x49, 0x44, 0x33, 2, 0, 0, 0x01, 0x02, 0x03, 0x04];
    data.extend_from_slice(&[0u8; 40]);
    let expected = ((((1u64 << 7) | 2) << 7 | 3) << 7) | 4;
    let mut src = ByteSource::new(data);
    assert_eq!(detect_tags(&mut src), (true, expected + 10, None));
}

#[test]
fn lead_envelope_corrupt_size_byte_stops_accumulation() {
    // the second size byte has its top bit set: accumulation stops at 0x01
    let mut data = vec![0x49, 0x44, 0x33, 4, 0, 0, 0x01, 0x80, 0x7f, 0x7f];
    data.extend_from_slice(&[0u8; 12]);
    let mut src = ByteSource::new(data);
    assert_eq!(detect_tags(&mut src), (true, 11, None));
}

#[test]
fn lead_envelope_bad_version_is_no_tag() {
    let mut data = vec![0x49, 0x44, 0x33, 5, 0, 0, 0, 0, 0, 0];
    data.extend_from_slice(&[0u8; 12]);
    let mut src = ByteSource::new(data);
    assert_eq!(detect_tags(&mut src), (false, 0, None));
}

#[test]
fn legacy_trailing_tag_sets_end() {
    // 100 payload bytes, then the legacy tag block of 128 bytes
    let mut data = vec![9u8; 100];
    data.extend_from_slice(b"TAG");
    data.extend_from_slice(&[0u8; 125]);
    let mut src = ByteSource::new(data);
    assert_eq!(detect_tags(&mut src), (false, 0, Some(100)));
}

#[test]
fn footer_version_1000_includes_header() {
    // footer at offset 100; size 50 includes the 32-byte header, so the
    // payload ends at footer_offset + 32 - size
    let mut data = vec![0u8; 100];
    data.extend_from_slice(b"APETAGEX");
    data.extend_from_slice(&le32(1000));
    data.extend_from_slice(&le32(50));
    data.extend_from_slice(&le32(0));
    data.extend_from_slice(&le32(0));
    data.extend_from_slice(&[0u8; 8]);
    assert_eq!(data.len(), 132);
    let mut src = ByteSource::new(data);
    assert_eq!(detect_tags(&mut src), (false, 0, Some(100 + 32 - 50)));
}

#[test]
fn footer_other_version_excludes_header() {
    // version 2000 with the flags' top bit set: the payload ends at
    // footer_offset - size
    let mut data = vec![0u8; 100];
    data.extend_from_slice(b"APETAGEX");
    data.extend_from_slice(&le32(2000));
    data.extend_from_slice(&le32(30));
    data.extend_from_slice(&le32(0));
    data.extend_from_slice(&le32(0x8000_0000));
    data.extend_from_slice(&[0u8; 8]);
    let mut src = ByteSource::new(data);
    assert_eq!(detect_tags(&mut src), (false, 0, Some(100 - 30)));
}

#[test]
fn footer_oversized_size_treated_as_absent() {
    let mut data = vec![0u8; 100];
    data.extend_from_slice(b"APETAGEX");
    data.extend_from_slice(&le32(2000));
    data.extend_from_slice(&le32(4_000_000_000));
    data.extend_from_slice(&le32(0));
    data.extend_from_slice(&le32(0x8000_0000));
    data.extend_from_slice(&[0u8; 8]);
    let mut src = ByteSource::new(data);
    assert_eq!(detect_tags(&mut src), (false, 0, None));
}

#[test]
fn footer_behind_legacy_tag_overrides_it() {
    // payload, footer (size 32, version 1000), then the 128-byte legacy tag
    let mut data = vec![0u8; 68];
    data.extend_from_slice(b"APETAGEX");
    data.extend_from_slice(&le32(1000));
    data.extend_from_slice(&le32(32));
    data.extend_from_slice(&le32(0));
    data.extend_from_slice(&le32(0));
    data.extend_from_slice(&[0u8; 8]);
    data.extend_from_slice(b"TAG");
    data.extend_from_slice(&[0u8; 125]);
    assert_eq!(data.len(), 228);
    // legacy tag at 100, footer at 68: total size 32 ends the payload at 68
    let mut src = ByteSource::new(data);
    assert_eq!(detect_tags(&mut src), (false, 0, Some(68)));
}

#[test]
fn oversized_lead_start_is_construction_failure() {
    // the envelope declares a payload start far beyond the end of the data
    let mut data = vec![0x49, 0x44, 0x33, 3, 0, 0, 0x7f, 0x7f, 0x7f, 0x7f];
    data.extend_from_slice(&[0u8; 6]);
    let mut src = ByteSource::new(data.clone());
    let (is_raw, start, end) = detect_tags(&mut src);
    assert!(is_raw);
    assert!(start > data.len() as u64);
    assert!(ByteSource::bounded(data, start, end).is_err());
}

#[test]
fn bounded_view_clips_and_reads_as_end_of_stream() {
    let data = vec![0, 1, 2, 3, 4, 5, 6, 7];
    let mut src = ByteSource::bounded(data, 2, Some(6)).unwrap();
    assert_eq!(src.source_len(), 4);
    assert_eq!(src.read_byte(), Ok(2));
    assert_eq!(src.read_chunk(100), Ok(vec![3, 4, 5]));
    assert_eq!(src.read_byte(), Err(DemuxerError::Eof));
    // an end past the true end of the source clips to it
    let mut long = ByteSource::bounded(vec![1, 2, 3], 1, Some(100)).unwrap();
    assert_eq!(long.read_chunk(100), Ok(vec![2, 3]));
}
