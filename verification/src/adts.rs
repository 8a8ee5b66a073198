//! ADTS (Audio Data Transport Stream) fixed-header parsing for AAC access
//! units: the per-frame header fields that feed the multiplexer's sample
//! table and the initialization segment's sample-description entry.

use vstd::prelude::*;

verus! {

/// Fields of one ADTS frame's fixed header.
#[derive(Clone, Copy, PartialEq, Eq, Debug)]
pub struct AdtsHeader {
    /// Audio object type / profile code (2 bits).
    pub profile: u8,
    /// Sampling-frequency index (4 bits, valid range 0..=12).
    pub freq_index: u8,
    /// Channel configuration (3 bits).
    pub channel_config: u8,
    /// Sampling frequency in Hz, decoded from `freq_index`.
    pub sample_rate: u32,
    /// Header length in bytes: 7, or 9 when a CRC follows the fixed header.
    pub header_length: u16,
    /// Whole frame length in bytes, header included (13 bits).
    pub frame_length: u16,
}

/// The buffer opens with the 12-bit ADTS sync word and a zero layer field.
pub open spec fn adts_sync_ok(s: Seq<u8>) -> bool {
    &&& s.len() >= 7
    &&& s[0] == 0xffu8
    &&& s[1] & 0xf6 == 0xf0u8
}

/// The CRC-absent bit of the header.
pub open spec fn adts_protection_absent(s: Seq<u8>) -> bool {
    s[1] & 0x01 == 0x01u8
}

/// Header length in bytes: 7 without CRC, 9 with CRC.
pub open spec fn adts_header_length(s: Seq<u8>) -> u16 {
    if adts_protection_absent(s) {
        7u16
    } else {
        9u16
    }
}

/// The 13-bit frame length field: bytes 3 (low 2 bits), 4, and 5 (high 3
/// bits).
pub open spec fn adts_frame_length(s: Seq<u8>) -> u16 {
    (((s[3] & 0x03) as u16) << 11) | ((s[4] as u16) << 3) | ((s[5] >> 5) as u16)
}

/// The 2-bit profile field: top bits of byte 2.
pub open spec fn adts_profile(s: Seq<u8>) -> u8 {
    s[2] >> 6
}

/// The 4-bit sampling-frequency index: bits 2..6 of byte 2.
pub open spec fn adts_freq_index(s: Seq<u8>) -> u8 {
    (s[2] >> 2) & 0x0f
}

/// The 3-bit channel configuration: lowest bit of byte 2 and top 2 bits of
/// byte 3.
pub open spec fn adts_channel_config(s: Seq<u8>) -> u8 {
    ((s[2] & 0x01) << 2) | (s[3] >> 6)
}

/// The ADTS sampling-frequency table; 0 for an index out of range.
pub open spec fn adts_sample_rate(index: u8) -> u32 {
    if index == 0 {
        96000u32
    } else if index == 1 {
        88200u32
    } else if index == 2 {
        64000u32
    } else if index == 3 {
        48000u32
    } else if index == 4 {
        44100u32
    } else if index == 5 {
        32000u32
    } else if index == 6 {
        24000u32
    } else if index == 7 {
        22050u32
    } else if index == 8 {
        16000u32
    } else if index == 9 {
        12000u32
    } else if index == 10 {
        11025u32
    } else if index == 11 {
        8000u32
    } else if index == 12 {
        7350u32
    } else {
        0u32
    }
}

/// A complete, well-formed ADTS frame stands at the head of the buffer: sync
/// word, known sampling-frequency index, and a frame length that covers the
/// header and fits in the buffer.
pub open spec fn adts_frame_valid(s: Seq<u8>) -> bool {
    &&& adts_sync_ok(s)
    &&& adts_freq_index(s) <= 12
    &&& s.len() >= adts_header_length(s)
    &&& adts_frame_length(s) >= adts_header_length(s)
    &&& adts_frame_length(s) <= s.len()
}

/// The raw AAC payload of a well-formed ADTS frame: the bytes between the
/// header and the end of the frame.
pub open spec fn adts_payload(s: Seq<u8>) -> Seq<u8> {
    s.subrange(adts_header_length(s) as int, adts_frame_length(s) as int)
}

/// The header record a well-formed ADTS frame decodes to.
pub open spec fn adts_header_model(s: Seq<u8>) -> AdtsHeader {
    AdtsHeader {
        profile: adts_profile(s),
        freq_index: adts_freq_index(s),
        channel_config: adts_channel_config(s),
        sample_rate: adts_sample_rate(adts_freq_index(s)),
        header_length: adts_header_length(s),
        frame_length: adts_frame_length(s),
    }
}

/// Decodes a sampling-frequency index to Hz.
pub fn sample_rate_of_index(index: u8) -> (r: u32)
    ensures
        r == adts_sample_rate(index),
{
    match index {
        0 => 96000,
        1 => 88200,
        2 => 64000,
        3 => 48000,
        4 => 44100,
        5 => 32000,
        6 => 24000,
        7 => 22050,
        8 => 16000,
        9 => 12000,
        10 => 11025,
        11 => 8000,
        12 => 7350,
        _ => 0,
    }
}

/// Parses the fixed header of the ADTS frame at the head of `data`. Returns
/// `None` unless a complete, well-formed frame is present.
pub fn parse_adts_header(data: &[u8]) -> (r: Option<AdtsHeader>)
    ensures
        r is Some <==> adts_frame_valid(data@),
        r matches Some(h) ==> h == adts_header_model(data@) && h.sample_rate >= 7350,
{
    if data.len() < 7 {
        return None;
    }
    let b1 = data[1];
    if !(data[0] == 0xff && (b1 & 0xf6) == 0xf0) {
        return None;
    }
    let b2 = data[2];
    let b3 = data[3];
    let freq_index = (b2 >> 2) & 0x0f;
    if freq_index > 12 {
        return None;
    }
    let header_length: u16 = if (b1 & 0x01) == 0x01 {
        7
    } else {
        9
    };
    if data.len() < header_length as usize {
        return None;
    }
    let frame_length: u16 = (((b3 & 0x03) as u16) << 11) | ((data[4] as u16) << 3) | ((data[5]
        >> 5) as u16);
    if frame_length < header_length || frame_length as usize > data.len() {
        return None;
    }
    let sample_rate = sample_rate_of_index(freq_index);
    assert(sample_rate >= 7350) by {
        assert(adts_freq_index(data@) <= 12);
    };
    Some(
        AdtsHeader {
            profile: b2 >> 6,
            freq_index,
            channel_config: ((b2 & 0x01) << 2) | (b3 >> 6),
            sample_rate,
            header_length,
            frame_length,
        },
    )
}

/// Duration of one AAC frame in milliseconds, rounded to nearest: one frame
/// always holds 1024 samples.
pub open spec fn spec_aac_frame_duration_ms(rate: u32) -> int {
    (1024000 + rate as int / 2) / rate as int
}

/// Computes the duration of one 1024-sample AAC frame in milliseconds at the
/// given sampling rate, rounded to nearest.
pub fn aac_frame_duration_ms(rate: u32) -> (r: u32)
    requires
        rate > 0,
    ensures
        r == spec_aac_frame_duration_ms(rate),
{
    let num: u64 = 1024000u64 + (rate as u64) / 2;
    let q: u64 = num / (rate as u64);
    proof {
        vstd::arithmetic::div_mod::lemma_fundamental_div_mod(num as int, rate as int);
        assert(q <= num);
    }
    q as u32
}

} // verus!
