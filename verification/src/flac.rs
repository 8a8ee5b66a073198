//! Parsing of the header region of a raw FLAC stream: the mandatory
//! STREAMINFO metadata block and the list of trailing metadata blocks,
//! captured verbatim.

use vstd::prelude::*;

verus! {

/// Stream-wide audio parameters decoded from the STREAMINFO metadata block.
#[derive(Clone, Copy, PartialEq, Eq, Debug)]
pub struct FlacStreamConfiguration {
    pub min_block_size: u16,
    pub max_block_size: u16,
    pub min_frame_size: u32,
    pub max_frame_size: u32,
    pub sample_rate: u32,
    pub channels: u8,
    pub bits_per_sample: u8,
}

/// One metadata block other than STREAMINFO, captured verbatim: the raw
/// header fields and the uninterpreted payload.
#[derive(Clone, PartialEq, Eq, Debug)]
pub struct FlacMetadataBlock {
    pub last_metadata_block_flag: bool,
    pub block_type: u8,
    pub length: u32,
    pub data: Vec<u8>,
}

/// Mathematical model of one trailing metadata block.
pub struct BlockModel {
    pub last: bool,
    pub block_type: u8,
    pub data: Seq<u8>,
}

impl View for FlacMetadataBlock {
    type V = BlockModel;

    open spec fn view(&self) -> BlockModel {
        BlockModel {
            last: self.last_metadata_block_flag,
            block_type: self.block_type,
            data: self.data@,
        }
    }
}

/// The per-frame header fields of one native FLAC frame that feed the
/// multiplexer: samples per frame, rate, channel count, bit depth, and the
/// frame's coded frame-or-sample number.
#[derive(Clone, Copy, PartialEq, Eq, Debug)]
pub struct FlacFrame {
    pub block_size: u16,
    pub sample_rate: u32,
    pub channels: u8,
    pub bits_per_sample: u8,
    pub sample_number: u64,
}

/// Bytes a FLAC frame header spends on its coded frame-or-sample number,
/// judged from the number's first byte: 1 for a plain 7-bit value, else the
/// count of leading one bits; 0 stands for a first byte the decoder rejects
/// before it reads any block-size field.
pub open spec fn utf8_coded_len(head: u8) -> int {
    if head & 0x80 == 0 {
        1
    } else if head >> 6 == 2 {
        0
    } else if head >> 5 == 6 {
        2
    } else if head >> 4 == 0xe {
        3
    } else if head >> 3 == 0x1e {
        4
    } else if head >> 2 == 0x3e {
        5
    } else if head >> 1 == 0x7e {
        6
    } else if head == 0xfe {
        7
    } else {
        0
    }
}

/// The one frame-header pattern on which the outside frame-header decoder's
/// 16-bit block-size path can overflow: block-size code 7 (the high nibble
/// of byte 2) followed, after the coded frame-or-sample number, by an
/// all-ones 16-bit field, whose value plus one does not fit 16 bits.
pub open spec fn flac_blocksize_overflows(s: Seq<u8>) -> bool {
    &&& s.len() >= 5
    &&& s[2] >> 4 == 7
    &&& utf8_coded_len(s[4]) != 0
    &&& s.len() >= 4 + utf8_coded_len(s[4]) + 2
    &&& s[4 + utf8_coded_len(s[4])] == 0xffu8
    &&& s[4 + utf8_coded_len(s[4]) + 1] == 0xffu8
}

/// Decides [`flac_blocksize_overflows`] on a buffer, so that the outside
/// frame-header decoder is only ever called off that pattern.
pub fn flac_blocksize_guard(data: &[u8]) -> (r: bool)
    ensures
        r == flac_blocksize_overflows(data@),
{
    if data.len() < 5 {
        return false;
    }
    if data[2] >> 4 != 7 {
        return false;
    }
    let head = data[4];
    let l: usize = if head & 0x80 == 0 {
        1
    } else if head >> 6 == 2 {
        0
    } else if head >> 5 == 6 {
        2
    } else if head >> 4 == 0xe {
        3
    } else if head >> 3 == 0x1e {
        4
    } else if head >> 2 == 0x3e {
        5
    } else if head >> 1 == 0x7e {
        6
    } else if head == 0xfe {
        7
    } else {
        0
    };
    if l == 0 {
        return false;
    }
    if data.len() < 4 + l + 2 {
        return false;
    }
    data[4 + l] == 0xff && data[4 + l + 1] == 0xff
}

/// The 34-byte STREAMINFO metadata block synthesized from one frame's header
/// fields: the frame's block size as both minimum and maximum block size,
/// zero frame-size bounds, the packed rate/channel/depth word carrying the
/// top of the sample number, the low word of the sample number, and a zero
/// MD5 signature.
pub open spec fn spec_streaminfo_bytes(f: FlacFrame) -> Seq<u8> {
    let combined: u32 = ((f.sample_rate & 0xfffff) << 12) | ((((f.channels as u32 - 1) as u32)
        & 0x7) << 9) | ((((f.bits_per_sample as u32 - 1) as u32) & 0x1f) << 4) | (((
    f.sample_number >> 32) & 0xf) as u32);
    let low: u32 = (f.sample_number & 0xffffffff) as u32;
    seq![
        (f.block_size >> 8) as u8,
        (f.block_size & 0xff) as u8,
        (f.block_size >> 8) as u8,
        (f.block_size & 0xff) as u8,
        0u8,
        0u8,
        0u8,
        0u8,
        0u8,
        0u8,
        (combined >> 24) as u8,
        ((combined >> 16) & 0xff) as u8,
        ((combined >> 8) & 0xff) as u8,
        (combined & 0xff) as u8,
        (low >> 24) as u8,
        ((low >> 16) & 0xff) as u8,
        ((low >> 8) & 0xff) as u8,
        (low & 0xff) as u8,
        0u8,
        0u8,
        0u8,
        0u8,
        0u8,
        0u8,
        0u8,
        0u8,
        0u8,
        0u8,
        0u8,
        0u8,
        0u8,
        0u8,
        0u8,
        0u8,
    ]
}

/// A parse failure; each variant carries the offset of the offending block
/// header.
#[derive(Clone, Copy, PartialEq, Eq, Debug)]
pub enum FlacParseError {
    /// The buffer ends inside a block header or inside a declared block
    /// payload.
    Truncated { offset: usize },
    /// The first metadata block is not STREAMINFO.
    FirstBlockNotStreamInfo { offset: usize, block_type: u8 },
    /// The STREAMINFO block declares fewer than its mandatory 34 bytes.
    BadStreamInfoLength { offset: usize, length: u32 },
}

/// Big-endian 16-bit field at byte offset `i`.
pub open spec fn u16_be(s: Seq<u8>, i: int) -> u16 {
    ((s[i] as u16) << 8) | (s[i + 1] as u16)
}

/// Big-endian 24-bit field at byte offset `i`.
pub open spec fn u24_be(s: Seq<u8>, i: int) -> u32 {
    ((s[i] as u32) << 16) | ((s[i + 1] as u32) << 8) | (s[i + 2] as u32)
}

/// The 20-bit sample-rate field of a STREAMINFO payload that starts at `o`.
pub open spec fn streaminfo_sample_rate(s: Seq<u8>, o: int) -> u32 {
    ((s[o + 10] as u32) << 12) | ((s[o + 11] as u32) << 4) | ((s[o + 12] >> 4) as u32)
}

/// The channel count of a STREAMINFO payload: the 3-bit code plus one.
pub open spec fn streaminfo_channels(s: Seq<u8>, o: int) -> u8 {
    (((s[o + 12] >> 1) & 0x07) + 1) as u8
}

/// The bits-per-sample of a STREAMINFO payload: the complete 5-bit code,
/// assembled from both bytes, plus one.
pub open spec fn streaminfo_bits_per_sample(s: Seq<u8>, o: int) -> u8 {
    ((((s[o + 12] & 0x01) << 4) | (s[o + 13] >> 4)) + 1) as u8
}

/// The structured configuration held in the 34-byte STREAMINFO payload that
/// starts at `o`.
pub open spec fn spec_streaminfo_config(s: Seq<u8>, o: int) -> FlacStreamConfiguration {
    FlacStreamConfiguration {
        min_block_size: u16_be(s, o),
        max_block_size: u16_be(s, o + 2),
        min_frame_size: u24_be(s, o + 4),
        max_frame_size: u24_be(s, o + 7),
        sample_rate: streaminfo_sample_rate(s, o),
        channels: streaminfo_channels(s, o),
        bits_per_sample: streaminfo_bits_per_sample(s, o),
    }
}

/// Length of the "fLaC" stream marker at the head of the buffer: 4 when
/// present, else 0.
pub open spec fn spec_marker_len(s: Seq<u8>) -> int {
    if s.len() >= 4 && s[0] == 0x66u8 && s[1] == 0x4cu8 && s[2] == 0x61u8 && s[3] == 0x43u8 {
        4
    } else {
        0
    }
}

/// Walks the chain of metadata blocks that starts at `off`: each block is a
/// 4-byte header (last flag, 7-bit type, 24-bit big-endian length) followed
/// by its payload, and the chain ends after a block whose last flag is set
/// or when the buffer ends exactly at a block boundary. Returns the blocks
/// in order, or the offset of the block header at which the buffer ran out.
pub open spec fn spec_parse_blocks(s: Seq<u8>, off: int) -> Result<Seq<BlockModel>, int>
    decreases s.len() - off,
{
    if off >= s.len() {
        Ok(Seq::empty())
    } else if off + 4 > s.len() {
        Err(off)
    } else {
        let len = u24_be(s, off + 1) as int;
        if off + 4 + len > s.len() {
            Err(off)
        } else {
            let blk = BlockModel {
                last: s[off] & 0x80 == 0x80u8,
                block_type: s[off] & 0x7f,
                data: s.subrange(off + 4, off + 4 + len),
            };
            if s[off] & 0x80 == 0x80u8 {
                Ok(seq![blk])
            } else {
                match spec_parse_blocks(s, off + 4 + len) {
                    Ok(rest) => Ok(seq![blk] + rest),
                    Err(e) => Err(e),
                }
            }
        }
    }
}

/// The complete parse of a FLAC header buffer: optional marker, STREAMINFO
/// block, then the trailing metadata blocks.
pub open spec fn spec_parse_flac(s: Seq<u8>) -> Result<
    (FlacStreamConfiguration, Seq<BlockModel>),
    FlacParseError,
> {
    let m = spec_marker_len(s);
    if m + 4 > s.len() {
        Err(FlacParseError::Truncated { offset: m as usize })
    } else {
        let btype = s[m] & 0x7f;
        let len = u24_be(s, m + 1) as int;
        if btype != 0 {
            Err(FlacParseError::FirstBlockNotStreamInfo { offset: m as usize, block_type: btype })
        } else if len < 34 {
            Err(FlacParseError::BadStreamInfoLength { offset: m as usize, length: u24_be(s, m + 1) })
        } else if m + 4 + len > s.len() {
            Err(FlacParseError::Truncated { offset: m as usize })
        } else if s[m] & 0x80 == 0x80u8 {
            Ok((spec_streaminfo_config(s, m + 4), Seq::empty()))
        } else {
            match spec_parse_blocks(s, m + 4 + len) {
                Ok(blocks) => Ok((spec_streaminfo_config(s, m + 4), blocks)),
                Err(off) => Err(FlacParseError::Truncated { offset: off as usize }),
            }
        }
    }
}

/// The 4-byte encoding of one trailing metadata block's header followed by
/// its payload: last flag and 7-bit type in the first byte, then the 24-bit
/// big-endian payload length.
pub open spec fn encode_block(blk: BlockModel) -> Seq<u8> {
    seq![
        if blk.last {
            blk.block_type | 0x80
        } else {
            blk.block_type
        },
        ((blk.data.len() as u32) >> 16) as u8,
        (((blk.data.len() as u32) >> 8) & 0xff) as u8,
        ((blk.data.len() as u32) & 0xff) as u8,
    ] + blk.data
}

/// The byte encoding of a chain of trailing metadata blocks.
pub open spec fn encode_blocks(bs: Seq<BlockModel>) -> Seq<u8>
    decreases bs.len(),
{
    if bs.len() == 0 {
        Seq::empty()
    } else {
        encode_block(bs.first()) + encode_blocks(bs.drop_first())
    }
}

/// A well-formed chain of trailing metadata blocks: 7-bit types, payloads
/// below the 24-bit length limit, and the last-block flag set exactly on the
/// final block.
pub open spec fn blocks_wf(bs: Seq<BlockModel>) -> bool {
    forall|i: int|
        0 <= i < bs.len() ==> {
            let blk = #[trigger] bs[i];
            &&& blk.block_type < 0x80
            &&& blk.data.len() < 0x1000000
            &&& (blk.last <==> i == bs.len() - 1)
        }
}

/// Walking the block chain of a buffer whose suffix is the encoding of a
/// well-formed chain recovers exactly that chain.
pub proof fn lemma_parse_blocks_encode(s: Seq<u8>, off: int, bs: Seq<BlockModel>)
    requires
        blocks_wf(bs),
        0 <= off <= s.len(),
        s.subrange(off, s.len() as int) == encode_blocks(bs),
    ensures
        spec_parse_blocks(s, off) == Ok::<Seq<BlockModel>, int>(bs),
    decreases bs.len(),
{
    let suffix = s.subrange(off, s.len() as int);
    assert(suffix.len() == s.len() - off);
    if bs.len() == 0 {
        assert(encode_blocks(bs) =~= Seq::<u8>::empty());
        assert(suffix.len() == 0);
        assert(bs =~= Seq::<BlockModel>::empty());
    } else {
        let blk = bs.first();
        let enc = encode_block(blk);
        let rest = bs.drop_first();
        let len = blk.data.len() as int;
        assert(enc.len() == 4 + len);
        assert(suffix == enc + encode_blocks(rest));
        assert(suffix.len() == enc.len() + encode_blocks(rest).len());
        let bt = blk.block_type;
        let h0 = if blk.last {
            bt | 0x80
        } else {
            bt
        };
        let l32 = blk.data.len() as u32;
        assert(enc[0] == h0 && enc[1] == (l32 >> 16) as u8 && enc[2] == ((l32 >> 8)
            & 0xff) as u8 && enc[3] == (l32 & 0xff) as u8);
        assert(s[off] == suffix[0] && s[off + 1] == suffix[1] && s[off + 2] == suffix[2] && s[off
            + 3] == suffix[3]);
        assert(s[off] == h0);
        assert(bt < 0x80 ==> ((bt | 0x80) & 0x80 == 0x80u8 && (bt | 0x80) & 0x7f == bt && bt
            & 0x80 == 0u8 && bt & 0x7f == bt)) by (bit_vector);
        assert((s[off] & 0x80 == 0x80u8) == blk.last);
        assert(s[off + 1] == (l32 >> 16) as u8);
        assert(s[off + 2] == ((l32 >> 8) & 0xff) as u8);
        assert(s[off + 3] == (l32 & 0xff) as u8);
        assert(l32 < 0x1000000 ==> ((((l32 >> 16) as u8) as u32) << 16) | ((((l32 >> 8) & 0xff
        ) as u8 as u32) << 8) | ((l32 & 0xff) as u8 as u32) == l32) by (bit_vector);
        assert(u24_be(s, off + 1) == l32);
        assert(off + 4 + len <= s.len());
        assert(s.subrange(off + 4, off + 4 + len) =~= blk.data) by {
            assert forall|k: int| 0 <= k < len implies s.subrange(off + 4, off + 4 + len)[k]
                == blk.data[k] by {
                assert(s.subrange(off + 4, off + 4 + len)[k] == s[off + 4 + k]);
                assert(s[off + 4 + k] == suffix[4 + k]);
                assert(suffix[4 + k] == enc[4 + k]);
                assert(enc[4 + k] == blk.data[k]);
            }
        }
        if blk.last {
            assert(bs.len() == 1);
            assert(spec_parse_blocks(s, off) == Ok::<Seq<BlockModel>, int>(
                seq![
                    BlockModel {
                        last: s[off] & 0x80 == 0x80u8,
                        block_type: s[off] & 0x7f,
                        data: s.subrange(off + 4, off + 4 + len),
                    },
                ],
            ));
            assert(seq![blk] =~= bs);
        } else {
            assert(bs.len() >= 2);
            assert(blocks_wf(rest)) by {
                assert forall|i: int| 0 <= i < rest.len() implies {
                    let rb = #[trigger] rest[i];
                    &&& rb.block_type < 0x80
                    &&& rb.data.len() < 0x1000000
                    &&& (rb.last <==> i == rest.len() - 1)
                } by {
                    assert(rest[i] == bs[i + 1]);
                }
            }
            assert(s.subrange(off + 4 + len, s.len() as int) =~= encode_blocks(rest)) by {
                assert forall|k: int| 0 <= k < s.len() - (off + 4 + len) implies s.subrange(
                    off + 4 + len,
                    s.len() as int,
                )[k] == encode_blocks(rest)[k] by {
                    assert(s.subrange(off + 4 + len, s.len() as int)[k] == s[off + 4 + len + k]);
                    assert(s[off + 4 + len + k] == suffix[4 + len + k]);
                    assert(suffix[4 + len + k] == encode_blocks(rest)[k]);
                }
            }
            lemma_parse_blocks_encode(s, off + 4 + len, rest);
            assert(spec_parse_blocks(s, off) == Ok::<Seq<BlockModel>, int>(
                seq![
                    BlockModel {
                        last: s[off] & 0x80 == 0x80u8,
                        block_type: s[off] & 0x7f,
                        data: s.subrange(off + 4, off + 4 + len),
                    },
                ] + rest,
            ));
            assert(seq![blk] + rest =~= bs);
        }
    }
}

/// The bytes of a synthetic FLAC header: the stream marker, a STREAMINFO
/// block header declaring 34 bytes (marked last exactly when no trailing
/// blocks follow), a 34-byte STREAMINFO payload packing the given sample
/// rate, channel count and bit depth into bytes 10 through 13 (`head` gives
/// the first 10 bytes, `t13` the low nibble of byte 13, `tail` the last 20
/// bytes), and the encoded trailing blocks.
pub open spec fn synthetic_flac_buffer(
    head: Seq<u8>,
    rate: u32,
    channels: u8,
    bits: u8,
    t13: u8,
    tail: Seq<u8>,
    bs: Seq<BlockModel>,
) -> Seq<u8> {
    let b10 = (rate >> 12) as u8;
    let b11 = ((rate >> 4) & 0xff) as u8;
    let b12 = (((rate & 0xf) as u8) << 4) | ((((channels - 1) as u8) & 0x7) << 1) | (((bits - 1) as u8) >> 4);
    let b13 = ((((bits - 1) as u8) & 0xf) << 4) | (t13 & 0xf);
    seq![0x66u8, 0x4cu8, 0x61u8, 0x43u8]
        + seq![
        if bs.len() == 0 {
            0x80u8
        } else {
            0x00u8
        },
        0u8,
        0u8,
        34u8,
    ] + head + seq![b10, b11, b12, b13] + tail + encode_blocks(bs)
}

/// Parsing a buffer assembled from a synthetic STREAMINFO block with chosen
/// channel count, bit depth and sample rate, followed by any well-formed
/// trailing metadata blocks, recovers exactly those values and those blocks,
/// with the last-block flag only on the final block.
pub proof fn lemma_parse_recovers_synthetic(
    head: Seq<u8>,
    rate: u32,
    channels: u8,
    bits: u8,
    t13: u8,
    tail: Seq<u8>,
    bs: Seq<BlockModel>,
)
    requires
        head.len() == 10,
        tail.len() == 20,
        rate < 0x100000,
        1 <= channels <= 8,
        1 <= bits <= 32,
        blocks_wf(bs),
    ensures
        ({
            let s = synthetic_flac_buffer(head, rate, channels, bits, t13, tail, bs);
            &&& spec_parse_flac(s) matches Ok(p)
            &&& spec_parse_flac(s) matches Ok(p) ==> {
                &&& p.0.sample_rate == rate
                &&& p.0.channels == channels
                &&& p.0.bits_per_sample == bits
                &&& p.1 == bs
            }
        }),
{
    let s = synthetic_flac_buffer(head, rate, channels, bits, t13, tail, bs);
    let b10 = (rate >> 12) as u8;
    let b11 = ((rate >> 4) & 0xff) as u8;
    let b12 = (((rate & 0xf) as u8) << 4) | ((((channels - 1) as u8) & 0x7) << 1) | (((bits - 1) as u8) >> 4);
    let b13 = ((((bits - 1) as u8) & 0xf) << 4) | (t13 & 0xf);
    assert(s.len() == 42 + encode_blocks(bs).len());
    assert(s[0] == 0x66u8 && s[1] == 0x4cu8 && s[2] == 0x61u8 && s[3] == 0x43u8);
    assert(spec_marker_len(s) == 4);
    assert(s[4] == (if bs.len() == 0 {
        0x80u8
    } else {
        0x00u8
    }));
    assert(s[5] == 0u8 && s[6] == 0u8 && s[7] == 34u8);
    assert(0x80u8 & 0x7f == 0u8 && 0x00u8 & 0x7f == 0u8 && 0x80u8 & 0x80 == 0x80u8 && 0x00u8
        & 0x80 == 0u8) by (bit_vector);
    assert(u24_be(s, 5) == ((0u8 as u32) << 16) | ((0u8 as u32) << 8) | (34u8 as u32));
    assert(((0u8 as u32) << 16) | ((0u8 as u32) << 8) | (34u8 as u32) == 34) by (bit_vector);
    assert(s[18] == b10 && s[19] == b11 && s[20] == b12 && s[21] == b13);
    assert(rate < 0x100000 ==> ((((rate >> 12) as u8) as u32) << 12) | (((((rate >> 4) & 0xff
    ) as u8) as u32) << 4) | (((((rate & 0xf) as u8) << 4) | ((((channels - 1) as u8) & 0x7) << 1) | (((
    bits - 1) as u8) >> 4)) >> 4) as u32 == rate) by (bit_vector);
    assert(streaminfo_sample_rate(s, 8) == rate);
    assert((1 <= channels && channels <= 8 && bits >= 1 && bits <= 32) ==> (((((((rate
        & 0xf) as u8) << 4) | ((((channels - 1) as u8) & 0x7) << 1) | (((bits - 1) as u8) >> 4)) >> 1) & 0x07)
        + 1) as u8 == channels) by (bit_vector);
    assert(streaminfo_channels(s, 8) == channels);
    assert((bits >= 1 && bits <= 32) ==> ((((((((rate & 0xf) as u8) << 4) | ((((channels - 1) as u8)
        & 0x7) << 1) | (((bits - 1) as u8) >> 4)) & 0x01) << 4) | ((((((bits - 1) as u8) & 0xf) << 4) | (t13
        & 0xf)) >> 4)) + 1) as u8 == bits) by (bit_vector);
    assert(streaminfo_bits_per_sample(s, 8) == bits);
    if bs.len() == 0 {
        assert(s[4] & 0x80 == 0x80u8);
        assert(spec_parse_flac(s) matches Ok(p) && p.1 =~= bs);
    } else {
        assert(s[4] & 0x80 == 0u8);
        assert(s.subrange(42, s.len() as int) =~= encode_blocks(bs));
        lemma_parse_blocks_encode(s, 42, bs);
        assert(spec_parse_flac(s) matches Ok(p) && p.1 == bs);
    }
}

/// A buffer whose STREAMINFO block header is cut short, or whose STREAMINFO
/// length field claims more bytes than are present, parses to the
/// truncation error at that block's offset — at every truncation point.
pub proof fn lemma_truncated_streaminfo_is_error(s: Seq<u8>)
    requires
        spec_marker_len(s) + 4 > s.len() || {
            let m = spec_marker_len(s);
            &&& s[m] & 0x7f == 0
            &&& u24_be(s, m + 1) >= 34
            &&& m + 4 + u24_be(s, m + 1) > s.len()
        },
    ensures
        spec_parse_flac(s) == Err::<(FlacStreamConfiguration, Seq<BlockModel>), FlacParseError>(
            FlacParseError::Truncated { offset: spec_marker_len(s) as usize },
        ),
{
}

/// Whenever the trailing-block walk fails, it fails at the offset of a
/// block whose 4-byte header or declared payload runs past the buffer's end
/// — the offset that `parse_flac_header` reports in its truncation error,
/// whatever the truncation point.
pub proof fn lemma_blocks_error_is_truncation(s: Seq<u8>, off: int)
    requires
        0 <= off,
    ensures
        spec_parse_blocks(s, off) matches Err(e) ==> {
            &&& off <= e < s.len()
            &&& (e + 4 > s.len() || e + 4 + u24_be(s, e + 1) > s.len())
        },
    decreases s.len() - off,
{
    if off < s.len() && off + 4 <= s.len() {
        let len = u24_be(s, off + 1) as int;
        if off + 4 + len <= s.len() && !(s[off] & 0x80 == 0x80u8) {
            lemma_blocks_error_is_truncation(s, off + 4 + len);
        }
    }
}

/// Reads a big-endian 16-bit field.
fn read_u16_be(data: &[u8], i: usize) -> (r: u16)
    requires
        i + 2 <= data@.len(),
    ensures
        r == u16_be(data@, i as int),
{
    ((data[i] as u16) << 8) | (data[i + 1] as u16)
}

/// Reads a big-endian 24-bit field.
fn read_u24_be(data: &[u8], i: usize) -> (r: u32)
    requires
        i + 3 <= data@.len(),
    ensures
        r == u24_be(data@, i as int),
{
    ((data[i] as u32) << 16) | ((data[i + 1] as u32) << 8) | (data[i + 2] as u32)
}

/// Parses the header region of a FLAC stream: skips the 4-byte marker when
/// present, decodes the mandatory STREAMINFO block, then captures every
/// trailing metadata block verbatim until one carries the last-block flag or
/// the buffer ends at a block boundary. A buffer that ends inside a header
/// or a declared payload, a first block that is not STREAMINFO, and a
/// STREAMINFO length below 34 each yield the corresponding error, never an
/// out-of-bounds access. A declared STREAMINFO length above 34 is tolerated
/// deliberately: the 34-byte payload is decoded and the excess skipped, as
/// the declared length directs.
pub fn parse_flac_header(data: &[u8]) -> (r: Result<
    (FlacStreamConfiguration, Vec<FlacMetadataBlock>),
    FlacParseError,
>)
    ensures
        ({
            let m = spec_parse_flac(data@);
            match r {
                Ok((cfg, blocks)) => {
                    &&& m matches Ok(p)
                    &&& p.0 == cfg
                    &&& blocks@.map_values(|b: FlacMetadataBlock| b@) == p.1
                    &&& forall|i: int|
                        0 <= i < blocks@.len() ==> #[trigger] blocks@[i].length == blocks@[i].data@.len()
                },
                Err(e) => m matches Err(e2) && e2 == e,
            }
        }),
{
    let ghost s = data@;
    let n = data.len();
    let mut offset: usize = 0;
    if n >= 4 && data[0] == 0x66 && data[1] == 0x4c && data[2] == 0x61 && data[3] == 0x43 {
        offset = 4;
    }
    assert(offset as int == spec_marker_len(s));
    if n - offset < 4 {
        return Err(FlacParseError::Truncated { offset });
    }
    let h = data[offset];
    let is_last = (h & 0x80) == 0x80;
    let block_type = h & 0x7f;
    let length: u32 = read_u24_be(data, offset + 1);
    if block_type != 0 {
        return Err(FlacParseError::FirstBlockNotStreamInfo { offset, block_type });
    }
    if length < 34 {
        return Err(FlacParseError::BadStreamInfoLength { offset, length });
    }
    if length as usize > n - offset - 4 {
        return Err(FlacParseError::Truncated { offset });
    }
    let o = offset + 4;
    let b12 = data[o + 12];
    let b13 = data[o + 13];
    assert(((b12 >> 1) & 0x07) + 1 <= 8 && ((b12 & 0x01) << 4 | (b13 >> 4)) + 1 <= 32)
        by (bit_vector);
    let config = FlacStreamConfiguration {
        min_block_size: read_u16_be(data, o),
        max_block_size: read_u16_be(data, o + 2),
        min_frame_size: read_u24_be(data, o + 4),
        max_frame_size: read_u24_be(data, o + 7),
        sample_rate: ((data[o + 10] as u32) << 12) | ((data[o + 11] as u32) << 4) | ((b12
            >> 4) as u32),
        channels: ((b12 >> 1) & 0x07) + 1,
        bits_per_sample: ((b12 & 0x01) << 4 | (b13 >> 4)) + 1,
    };
    assert(config == spec_streaminfo_config(s, o as int));
    let mut blocks: Vec<FlacMetadataBlock> = Vec::new();
    assert(blocks@.map_values(|b: FlacMetadataBlock| b@) =~= Seq::<BlockModel>::empty());
    if is_last {
        return Ok((config, blocks));
    }
    offset = o + length as usize;
    let ghost tail_start = offset as int;
    assert(spec_parse_blocks(s, tail_start) matches Ok(rest) ==> blocks@.map_values(
        |b: FlacMetadataBlock| b@,
    ) + rest =~= rest);
    loop
        invariant
            data@ == s,
            n == s.len(),
            offset <= n,
            tail_start <= offset as int,
            spec_parse_flac(s) matches Ok(p) ==> p.0 == config,
            spec_parse_blocks(s, tail_start) matches Ok(all) ==> (spec_parse_flac(s) matches Ok(
                p,
            ) && p.1 == all),
            spec_parse_blocks(s, tail_start) matches Err(e) ==> spec_parse_flac(s) == Err::<
                (FlacStreamConfiguration, Seq<BlockModel>),
                FlacParseError,
            >(FlacParseError::Truncated { offset: e as usize }),
            spec_parse_blocks(s, offset as int) matches Ok(rest) ==> spec_parse_blocks(
                s,
                tail_start,
            ) == Ok::<Seq<BlockModel>, int>(
                blocks@.map_values(|b: FlacMetadataBlock| b@) + rest,
            ),
            spec_parse_blocks(s, offset as int) matches Err(e) ==> spec_parse_blocks(
                s,
                tail_start,
            ) == Err::<Seq<BlockModel>, int>(e),
            forall|i: int|
                0 <= i < blocks@.len() ==> #[trigger] blocks@[i].length == blocks@[i].data@.len(),
        decreases n - offset,
    {
        if offset >= n {
            assert(spec_parse_blocks(s, offset as int) == Ok::<Seq<BlockModel>, int>(
                Seq::empty(),
            ));
            assert(blocks@.map_values(|b: FlacMetadataBlock| b@) + Seq::<BlockModel>::empty()
                =~= blocks@.map_values(|b: FlacMetadataBlock| b@));
            return Ok((config, blocks));
        }
        if n - offset < 4 {
            return Err(FlacParseError::Truncated { offset });
        }
        let h = data[offset];
        let b_last = (h & 0x80) == 0x80;
        let b_type = h & 0x7f;
        let b_len = read_u24_be(data, offset + 1);
        if b_len as usize > n - offset - 4 {
            return Err(FlacParseError::Truncated { offset });
        }
        let start = offset + 4;
        let end = start + b_len as usize;
        let mut bd: Vec<u8> = Vec::new();
        let mut j: usize = 0;
        while j < b_len as usize
            invariant
                data@ == s,
                start + b_len as usize == end,
                end <= n,
                n == s.len(),
                j <= b_len as usize,
                bd@ == s.subrange(start as int, start as int + j as int),
            decreases b_len as usize - j,
        {
            bd.push(data[start + j]);
            assert(bd@ =~= s.subrange(start as int, start as int + (j + 1) as int));
            j += 1;
        }
        let ghost blk = BlockModel { last: b_last, block_type: b_type, data: s.subrange(
            start as int,
            end as int,
        ) };
        let ghost done_before = blocks@.map_values(|b: FlacMetadataBlock| b@);
        blocks.push(
            FlacMetadataBlock {
                last_metadata_block_flag: b_last,
                block_type: b_type,
                length: b_len,
                data: bd,
            },
        );
        assert(blocks@.map_values(|b: FlacMetadataBlock| b@) =~= done_before.push(blk));
        if b_last {
            assert(spec_parse_blocks(s, offset as int) == Ok::<Seq<BlockModel>, int>(seq![blk]));
            assert(done_before.push(blk) =~= done_before + seq![blk]);
            return Ok((config, blocks));
        }
        assert(spec_parse_blocks(s, offset as int) == (match spec_parse_blocks(s, end as int) {
            Ok(rest) => Ok::<Seq<BlockModel>, int>(seq![blk] + rest),
            Err(e) => Err::<Seq<BlockModel>, int>(e),
        }));
        assert(spec_parse_blocks(s, end as int) matches Ok(rest) ==> done_before + (seq![blk]
            + rest) =~= done_before.push(blk) + rest);
        offset = end;
    }
}

} // verus!
