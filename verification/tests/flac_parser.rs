use fmp4_mux::flac::{parse_flac_header, FlacParseError};

/// Marker + STREAMINFO header + 34-byte payload carrying the given rate,
/// channel count and bit depth, with 4096 as both block-size bounds.
fn streaminfo_buffer(rate: u32, channels: u8, bits: u8, last: bool) -> Vec<u8> {
    let mut buf = vec![0x66u8, 0x4c, 0x61, 0x43];
    buf.push(if last { 0x80 } else { 0x00 });
    buf.extend_from_slice(&[0, 0, 34]);
    // min/max block size 4096, frame-size bounds zero
    buf.extend_from_slice(&[0x10, 0x00, 0x10, 0x00, 0, 0, 0, 0, 0, 0]);
    let b10 = (rate >> 12) as u8;
    let b11 = ((rate >> 4) & 0xff) as u8;
    let b12 = (((rate & 0xf) as u8) << 4) | (((channels - 1) & 0x7) << 1) | ((bits - 1) >> 4);
    let b13 = ((bits - 1) & 0xf) << 4;
    buf.extend_from_slice(&[b10, b11, b12, b13]);
    buf.extend_from_slice(&[0u8; 20]);
    buf
}

#[test]
fn parses_synthetic_streaminfo_with_trailing_blocks() {
    let mut buf = streaminfo_buffer(44100, 3, 16, false);
    // one VORBIS_COMMENT-typed block, then a final PICTURE-typed block
    buf.push(0x04);
    buf.extend_from_slice(&[0, 0, 5]);
    buf.extend_from_slice(&[1, 2, 3, 4, 5]);
    buf.push(0x86);
    buf.extend_from_slice(&[0, 0, 3]);
    buf.extend_from_slice(&[9, 8, 7]);

    let (cfg, blocks) = parse_flac_header(&buf).expect("well-formed header");
    assert_eq!(cfg.sample_rate, 44100);
    assert_eq!(cfg.channels, 3);
    assert_eq!(cfg.bits_per_sample, 16);
    assert_eq!(cfg.min_block_size, 4096);
    assert_eq!(cfg.max_block_size, 4096);
    assert_eq!(cfg.min_frame_size, 0);
    assert_eq!(cfg.max_frame_size, 0);

    assert_eq!(blocks.len(), 2);
    assert_eq!(blocks[0].block_type, 4);
    assert_eq!(blocks[0].length, 5);
    assert_eq!(blocks[0].data, vec![1, 2, 3, 4, 5]);
    assert!(!blocks[0].last_metadata_block_flag);
    assert_eq!(blocks[1].block_type, 6);
    assert_eq!(blocks[1].length, 3);
    assert_eq!(blocks[1].data, vec![9, 8, 7]);
    assert!(blocks[1].last_metadata_block_flag);
}

#[test]
fn parses_extreme_channel_and_depth_codes() {
    let buf = streaminfo_buffer(96000, 8, 32, true);
    let (cfg, blocks) = parse_flac_header(&buf).expect("well-formed header");
    assert_eq!(cfg.sample_rate, 96000);
    assert_eq!(cfg.channels, 8);
    assert_eq!(cfg.bits_per_sample, 32);
    assert!(blocks.is_empty());

    let buf = streaminfo_buffer(8000, 1, 1, true);
    let (cfg, _) = parse_flac_header(&buf).expect("well-formed header");
    assert_eq!(cfg.channels, 1);
    assert_eq!(cfg.bits_per_sample, 1);
}

#[test]
fn parses_buffer_without_marker() {
    let with_marker = streaminfo_buffer(48000, 2, 24, true);
    let bare = &with_marker[4..];
    let (cfg, blocks) = parse_flac_header(bare).expect("well-formed header");
    assert_eq!(cfg.sample_rate, 48000);
    assert_eq!(cfg.channels, 2);
    assert_eq!(cfg.bits_per_sample, 24);
    assert!(blocks.is_empty());
}

#[test]
fn first_block_of_wrong_type_is_an_error() {
    let mut buf = streaminfo_buffer(44100, 2, 16, true);
    buf[4] = 0x04; // claim VORBIS_COMMENT first
    assert_eq!(
        parse_flac_header(&buf),
        Err(FlacParseError::FirstBlockNotStreamInfo { offset: 4, block_type: 4 })
    );
}

#[test]
fn short_streaminfo_length_is_an_error() {
    let mut buf = streaminfo_buffer(44100, 2, 16, true);
    buf[7] = 20; // declare 20 bytes instead of 34
    assert_eq!(
        parse_flac_header(&buf),
        Err(FlacParseError::BadStreamInfoLength { offset: 4, length: 20 })
    );
}

#[test]
fn every_streaminfo_truncation_point_is_an_error() {
    let buf = streaminfo_buffer(44100, 2, 16, true);
    for cut in 0..buf.len() {
        let r = parse_flac_header(&buf[..cut]);
        assert!(r.is_err(), "cut at {} parsed as {:?}", cut, r);
    }
    assert!(parse_flac_header(&buf).is_ok());
}

#[test]
fn truncated_trailing_block_reports_its_offset() {
    let mut buf = streaminfo_buffer(44100, 2, 16, false);
    let block_at = buf.len();
    buf.push(0x84);
    buf.extend_from_slice(&[0, 0, 10]);
    buf.extend_from_slice(&[1, 2, 3, 4, 5]); // five of the ten declared bytes
    assert_eq!(
        parse_flac_header(&buf),
        Err(FlacParseError::Truncated { offset: block_at })
    );
}

#[test]
fn chain_may_end_at_a_block_boundary_without_last_flag() {
    let buf = streaminfo_buffer(44100, 2, 16, false);
    let (cfg, blocks) = parse_flac_header(&buf).expect("boundary end");
    assert_eq!(cfg.sample_rate, 44100);
    assert!(blocks.is_empty());
}
