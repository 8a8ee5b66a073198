//! Trusted layer around the `mse_fmp4` box-model crate and the `access_unit`
//! codec helpers. Each wrapper's body makes one outside call (or one box
//! construction) and converts values; its contract states only what the
//! outside crate's source shows, and Verus believes it without reading the
//! body.

use vstd::prelude::*;

use crate::adts::{adts_frame_valid, adts_payload};
use crate::flac::spec_streaminfo_bytes;
use mse_fmp4::aac::{AacProfile, ChannelConfiguration, SamplingFrequency};
use mse_fmp4::fmp4::Mp4Box;
use mse_fmp4::fmp4::Sample as BoxSample;
use mse_fmp4::io::WriteTo;

verus! {

#[verifier::external_type_specification]
#[verifier::external_body]
pub struct ExMediaSegment(mse_fmp4::fmp4::MediaSegment);

#[verifier::external_type_specification]
#[verifier::external_body]
pub struct ExInitializationSegment(mse_fmp4::fmp4::InitializationSegment);

#[verifier::external_type_specification]
#[verifier::external_body]
pub struct ExSample(BoxSample);

#[verifier::external_type_specification]
#[verifier::external_body]
pub struct ExAvcDecoderConfigurationRecord(mse_fmp4::avc::AvcDecoderConfigurationRecord);

#[verifier::external_type_specification]
#[verifier::external_body]
pub struct ExAacProfile(AacProfile);

#[verifier::external_type_specification]
#[verifier::external_body]
pub struct ExSamplingFrequency(SamplingFrequency);

#[verifier::external_type_specification]
#[verifier::external_body]
pub struct ExChannelConfiguration(ChannelConfiguration);

#[verifier::external_type_specification]
#[verifier::external_body]
pub struct ExMseError(mse_fmp4::Error);

/// The audio codec family that `access_unit::detect_audio` reports for a
/// buffer; a function of the bytes alone.
pub uninterp spec fn audio_kind_of(s: Seq<u8>) -> crate::sample::AudioKind;

/// The frame-header fields that `access_unit::flac::decode_frame_header`
/// decodes from a buffer, or `None` when it reports an error; a function of
/// the bytes alone.
pub uninterp spec fn flac_frame_of(s: Seq<u8>) -> Option<crate::flac::FlacFrame>;

/// How many track-fragment boxes a media segment holds (paired with their
/// run boxes, as [`push_traf`] builds them).
pub uninterp spec fn media_traf_count(seg: mse_fmp4::fmp4::MediaSegment) -> int;

/// How many media-data boxes a media segment holds.
pub uninterp spec fn media_mdat_count(seg: mse_fmp4::fmp4::MediaSegment) -> int;

/// How many sample rows a media segment's track fragments hold in all.
pub uninterp spec fn media_row_count(seg: mse_fmp4::fmp4::MediaSegment) -> int;

/// Whether, in every track fragment of the segment, all sample rows fill the
/// same subset of the four optional fields — the shape the track-run
/// serializer insists on.
pub uninterp spec fn media_rows_ok(seg: mse_fmp4::fmp4::MediaSegment) -> bool;

/// Whether every media-data box payload is small enough that its 32-bit box
/// size cannot overflow (payload plus 8 header bytes fits `u32`).
pub uninterp spec fn media_mdat_bytes_ok(seg: mse_fmp4::fmp4::MediaSegment) -> bool;

/// The plain record a box-model sample row carries: the same four optional
/// fields, field for field (the flag bitfields too, under the library's
/// spelling of `sample_is_depended_on`).
pub uninterp spec fn box_row_model(s: BoxSample) -> crate::sample::Sample;

/// Which of the four optional fields a box-model sample row fills:
/// (duration, size, flags, composition-time offset).
pub open spec fn box_row_shape(s: BoxSample) -> (bool, bool, bool, bool) {
    crate::sample::row_shape(box_row_model(s))
}

/// All rows of a run fill the same subset of the four optional fields.
pub open spec fn boxes_uniform(rows: Seq<BoxSample>) -> bool {
    forall|i: int|
        0 <= i < rows.len() ==> #[trigger] box_row_shape(rows[i]) == box_row_shape(rows[0])
}

/// How many track-box / track-extends pairs an initialization segment holds
/// (as the two push wrappers build them, each track box carrying one
/// sample-description entry).
pub uninterp spec fn init_track_count(seg: mse_fmp4::fmp4::InitializationSegment) -> int;

/// Whether every track box of the initialization segment is one the two
/// push wrappers build under their preconditions, so that each of its boxes
/// serializes without error.
pub uninterp spec fn init_entries_ok(seg: mse_fmp4::fmp4::InitializationSegment) -> bool;

/// The `profile_idc` field of a decoder-configuration record.
pub uninterp spec fn avcc_profile(c: mse_fmp4::avc::AvcDecoderConfigurationRecord) -> u8;

/// The ADTS index of a sampling-frequency value (its discriminant).
pub uninterp spec fn sampling_frequency_index(f: SamplingFrequency) -> u8;

/// The numeric code of a channel-configuration value (its discriminant).
pub uninterp spec fn channel_code(c: ChannelConfiguration) -> u8;

/// Relies on the public `profile_idc` field of the decoder-configuration
/// record.
#[verifier::external_body]
pub(crate) fn avcc_profile_idc(c: &mse_fmp4::avc::AvcDecoderConfigurationRecord) -> (r: u8)
    ensures
        r == avcc_profile(*c),
{
    c.profile_idc
}

/// Relies on `access_unit::detect_audio`: the detected codec family is a
/// function of the buffer's bytes alone; families other than ADTS-framed AAC
/// and native FLAC collapse to `Other`.
#[verifier::external_body]
pub(crate) fn classify_audio(data: &[u8]) -> (r: crate::sample::AudioKind)
    ensures
        r == audio_kind_of(data@),
{
    match access_unit::detect_audio(data) {
        access_unit::AudioType::AAC => crate::sample::AudioKind::Aac,
        access_unit::AudioType::FLAC => crate::sample::AudioKind::Flac,
        _ => crate::sample::AudioKind::Other,
    }
}

/// Relies on `access_unit::flac::decode_frame_header`: the decoded fields
/// are a function of the buffer's bytes alone; a malformed frame header
/// yields an error, mapped to `None`. On the block-size-code-7 pattern with
/// an all-ones 16-bit field the source's plus-one overflows `u16` in a debug
/// build, so the precondition keeps that pattern out; callers decide it
/// first with [`crate::flac::flac_blocksize_guard`].
#[verifier::external_body]
pub(crate) fn decode_flac_frame(data: &[u8]) -> (r: Option<crate::flac::FlacFrame>)
    requires
        !crate::flac::flac_blocksize_overflows(data@),
    ensures
        r == flac_frame_of(data@),
{
    match access_unit::flac::decode_frame_header(data) {
        Ok(fi) => Some(
            crate::flac::FlacFrame {
                block_size: fi.block_size,
                sample_rate: fi.sample_rate,
                channels: fi.channels,
                bits_per_sample: fi.bps,
                sample_number: fi.frame_or_sample_num,
            },
        ),
        Err(_) => None,
    }
}

/// Relies on `access_unit::flac::create_streaminfo`: it emits the 34-byte
/// STREAMINFO block determined by the frame fields, as
/// [`spec_streaminfo_bytes`] states it. The source subtracts one from the
/// channel count and from the bit depth, so both must be at least 1.
#[verifier::external_body]
pub(crate) fn synth_streaminfo(f: &crate::flac::FlacFrame) -> (r: Vec<u8>)
    requires
        f.channels >= 1,
        f.bits_per_sample >= 1,
    ensures
        r@ == spec_streaminfo_bytes(*f),
{
    let mut info = access_unit::flac::FLACFrameInfo::default();
    info.block_size = f.block_size;
    info.sample_rate = f.sample_rate;
    info.channels = f.channels;
    info.bps = f.bits_per_sample;
    info.frame_or_sample_num = f.sample_number;
    access_unit::flac::create_streaminfo(&info)
}

/// Relies on `access_unit::aac::extract_aac_data`: for a buffer whose head is
/// a complete, well-formed ADTS frame it returns the payload between the
/// header and the frame end. Other inputs are excluded by the precondition:
/// on some of them the source slices with a start past the end.
#[verifier::external_body]
pub(crate) fn extract_aac_payload(data: &[u8]) -> (r: Option<Vec<u8>>)
    requires
        adts_frame_valid(data@),
    ensures
        r is Some,
        r matches Some(p) ==> p@ == adts_payload(data@),
{
    let buf = bytes::Bytes::copy_from_slice(data);
    access_unit::aac::extract_aac_data(&buf).map(|b| b.to_vec())
}

/// Relies on `MediaSegment::default` and the public `sequence_number` field:
/// an empty media segment carrying the fragment sequence number, with no
/// track fragments and no media-data boxes yet.
#[verifier::external_body]
pub(crate) fn new_media_segment(seq: u32) -> (r: mse_fmp4::fmp4::MediaSegment)
    ensures
        media_traf_count(r) == 0,
        media_mdat_count(r) == 0,
        media_row_count(r) == 0,
        media_rows_ok(r),
        media_mdat_bytes_ok(r),
{
    let mut segment = mse_fmp4::fmp4::MediaSegment::default();
    segment.moof_box.mfhd_box.sequence_number = seq;
    segment
}

/// Relies on `mse_fmp4::fmp4::Sample` being a plain record of the same four
/// optional fields: carries one sample-table row into the box model
/// unchanged, field for field.
#[verifier::external_body]
pub(crate) fn sample_box(s: &crate::sample::Sample) -> (r: BoxSample)
    ensures
        box_row_model(r) == *s,
{
    BoxSample {
        duration: s.duration,
        size: s.size,
        composition_time_offset: s.composition_time_offset,
        flags: s.flags.map(|f| mse_fmp4::fmp4::SampleFlags {
            is_leading: f.is_leading,
            sample_depends_on: f.sample_depends_on,
            sample_is_depdended_on: f.sample_is_depended_on,
            sample_has_redundancy: f.sample_has_redundancy,
            sample_padding_value: f.sample_padding_value,
            sample_is_non_sync_sample: f.sample_is_non_sync_sample,
            sample_degradation_priority: f.sample_degradation_priority,
        }),
    }
}

/// Relies on `TrackFragmentBox::new` (track id 1 for video, 2 for audio) and
/// its public `trun_box` fields: appends one track fragment holding the given
/// sample run and a placeholder data offset. The track-run serializer
/// accepts the new fragment exactly when its rows all fill the same fields.
#[verifier::external_body]
pub(crate) fn push_traf(
    seg: &mut mse_fmp4::fmp4::MediaSegment,
    is_video: bool,
    samples: Vec<BoxSample>,
)
    ensures
        media_traf_count(*final(seg)) == media_traf_count(*old(seg)) + 1,
        media_mdat_count(*final(seg)) == media_mdat_count(*old(seg)),
        media_row_count(*final(seg)) == media_row_count(*old(seg)) + samples@.len(),
        media_rows_ok(*final(seg)) == (media_rows_ok(*old(seg)) && boxes_uniform(samples@)),
        media_mdat_bytes_ok(*final(seg)) == media_mdat_bytes_ok(*old(seg)),
{
    let mut traf = mse_fmp4::fmp4::TrackFragmentBox::new(is_video);
    traf.trun_box.data_offset = Some(0);
    traf.trun_box.samples = samples;
    seg.moof_box.traf_boxes.push(traf);
}

/// Relies on `Mp4Box::box_size` of the movie fragment box: the byte size the
/// box serializes to. Computing a run's size serializes it against a byte
/// counter, which raises the run serializer's row-uniformity error, so
/// success is promised only of segments whose runs are uniform. Sizes are
/// summed in `u32`; for few fragments with few rows the sums stay far below
/// the limit (each fragment's boxes take at most 100 bytes beside 16 per
/// row), so within those bounds the call succeeds and the size is bounded
/// accordingly.
#[verifier::external_body]
pub(crate) fn moof_box_size(seg: &mse_fmp4::fmp4::MediaSegment) -> (r: Result<
    u32,
    mse_fmp4::Error,
>)
    ensures
        media_rows_ok(*seg) && media_traf_count(*seg) <= 4 && media_row_count(*seg)
            <= 0x1000000 ==> r is Ok,
        r matches Ok(sz) ==> sz as int <= 100 + 100 * media_traf_count(*seg) + 16
            * media_row_count(*seg),
{
    seg.moof_box.box_size()
}

/// Relies on the public `trun_box.data_offset` field: sets the data offset of
/// the track fragment at `idx`, reporting whether one exists there.
#[verifier::external_body]
pub(crate) fn set_traf_data_offset(
    seg: &mut mse_fmp4::fmp4::MediaSegment,
    idx: usize,
    off: i32,
) -> (r: bool)
    ensures
        r == ((idx as int) < media_traf_count(*old(seg))),
        media_traf_count(*final(seg)) == media_traf_count(*old(seg)),
        media_mdat_count(*final(seg)) == media_mdat_count(*old(seg)),
        media_row_count(*final(seg)) == media_row_count(*old(seg)),
        media_rows_ok(*final(seg)) == media_rows_ok(*old(seg)),
        media_mdat_bytes_ok(*final(seg)) == media_mdat_bytes_ok(*old(seg)),
{
    match seg.moof_box.traf_boxes.get_mut(idx) {
        Some(traf) => {
            traf.trun_box.data_offset = Some(off);
            true
        },
        None => false,
    }
}

/// Relies on the public `mdat_boxes` field: appends one media-data box
/// holding the given payload; the box's 32-bit size field fits exactly when
/// the payload plus its 8 header bytes does.
#[verifier::external_body]
pub(crate) fn push_mdat(seg: &mut mse_fmp4::fmp4::MediaSegment, data: Vec<u8>)
    ensures
        media_mdat_count(*final(seg)) == media_mdat_count(*old(seg)) + 1,
        media_traf_count(*final(seg)) == media_traf_count(*old(seg)),
        media_row_count(*final(seg)) == media_row_count(*old(seg)),
        media_rows_ok(*final(seg)) == media_rows_ok(*old(seg)),
        media_mdat_bytes_ok(*final(seg)) == (media_mdat_bytes_ok(*old(seg)) && data@.len() + 8
            <= u32::MAX as int),
{
    seg.mdat_boxes.push(mse_fmp4::fmp4::MediaDataBox { data });
}

/// Relies on `WriteTo::write_to` of `MediaSegment` into a byte vector, which
/// cannot fail on I/O: it errs exactly when the segment has no track
/// fragment, no media-data box, or a run whose rows fill differing fields.
/// The preconditions keep out the segments whose `u32` box-size sums could
/// overflow.
#[verifier::external_body]
pub(crate) fn write_media_segment(seg: &mse_fmp4::fmp4::MediaSegment) -> (r: Result<
    Vec<u8>,
    mse_fmp4::Error,
>)
    requires
        media_mdat_bytes_ok(*seg),
        media_traf_count(*seg) <= 4,
        media_row_count(*seg) <= 0x1000000,
    ensures
        r is Ok <==> (media_rows_ok(*seg) && media_traf_count(*seg) >= 1 && media_mdat_count(
            *seg,
        ) >= 1),
{
    let mut out: Vec<u8> = Vec::new();
    seg.write_to(&mut out)?;
    Ok(out)
}

/// Relies on `InitializationSegment::default` and the public movie-header
/// and movie-extends fields: an empty initialization segment with the given
/// movie timescale and durations, holding no track boxes yet.
#[verifier::external_body]
pub(crate) fn new_init_segment(
    timescale: u32,
    duration: u32,
    fragment_duration: u32,
) -> (r: mse_fmp4::fmp4::InitializationSegment)
    ensures
        init_track_count(r) == 0,
        init_entries_ok(r),
{
    let mut segment = mse_fmp4::fmp4::InitializationSegment::default();
    segment.moov_box.mvhd_box.timescale = timescale;
    segment.moov_box.mvhd_box.duration = duration;
    segment.moov_box.mvex_box.mehd_box = Some(
        mse_fmp4::fmp4::MovieExtendsHeaderBox { fragment_duration },
    );
    segment
}

/// Relies on `TrackBox::new(true)` (track id 1), the public header fields,
/// and `AvcSampleEntry`: appends one video track box embedding the decoder
/// configuration record, and its track-extends entry. The record's
/// serializer refuses the profiles 100, 110, 122 and 144, so those are kept
/// out; every other profile serializes.
#[verifier::external_body]
pub(crate) fn push_avc_track(
    seg: &mut mse_fmp4::fmp4::InitializationSegment,
    track_duration: u32,
    media_timescale: u32,
    media_duration: u32,
    width: u16,
    height: u16,
    avcc: &mse_fmp4::avc::AvcDecoderConfigurationRecord,
)
    requires
        avcc_profile(*avcc) != 100,
        avcc_profile(*avcc) != 110,
        avcc_profile(*avcc) != 122,
        avcc_profile(*avcc) != 144,
    ensures
        init_track_count(*final(seg)) == init_track_count(*old(seg)) + 1,
        init_entries_ok(*final(seg)) == init_entries_ok(*old(seg)),
{
    let mut track = mse_fmp4::fmp4::TrackBox::new(true);
    track.tkhd_box.duration = track_duration;
    track.mdia_box.mdhd_box.timescale = media_timescale;
    track.mdia_box.mdhd_box.duration = media_duration;
    let entry = mse_fmp4::fmp4::AvcSampleEntry {
        width,
        height,
        avcc_box: mse_fmp4::fmp4::AvcConfigurationBox { configuration: avcc.clone() },
    };
    track.mdia_box.minf_box.stbl_box.stsd_box.sample_entries.push(
        mse_fmp4::fmp4::SampleEntry::Avc(entry),
    );
    seg.moov_box.trak_boxes.push(track);
    seg.moov_box.mvex_box.trex_boxes.push(mse_fmp4::fmp4::TrackExtendsBox::new(true));
}

/// Relies on `TrackBox::new(false)` (track id 2), the public header fields,
/// and `AacSampleEntry`: appends one audio track box whose sample-description
/// entry is an MPEG-4 elementary-stream descriptor, and its track-extends
/// entry. The entry's serializer accepts only 1 or 2 channels and a sample
/// rate that fits 16 bits (index 2, 64000 Hz, or higher indices; 96000 and
/// 88200 Hz do not fit), so other configurations are kept out; within them
/// it serializes.
#[verifier::external_body]
pub(crate) fn push_aac_track(
    seg: &mut mse_fmp4::fmp4::InitializationSegment,
    track_duration: u32,
    media_timescale: u32,
    media_duration: u32,
    profile: AacProfile,
    frequency: SamplingFrequency,
    channel_configuration: ChannelConfiguration,
)
    requires
        channel_code(channel_configuration) == 1 || channel_code(channel_configuration) == 2,
        sampling_frequency_index(frequency) >= 2,
    ensures
        init_track_count(*final(seg)) == init_track_count(*old(seg)) + 1,
        init_entries_ok(*final(seg)) == init_entries_ok(*old(seg)),
{
    let mut track = mse_fmp4::fmp4::TrackBox::new(false);
    track.tkhd_box.duration = track_duration;
    track.mdia_box.mdhd_box.timescale = media_timescale;
    track.mdia_box.mdhd_box.duration = media_duration;
    let entry = mse_fmp4::fmp4::AacSampleEntry {
        esds_box: mse_fmp4::fmp4::Mpeg4EsDescriptorBox { profile, frequency, channel_configuration },
    };
    track.mdia_box.minf_box.stbl_box.stsd_box.sample_entries.push(
        mse_fmp4::fmp4::SampleEntry::Aac(entry),
    );
    seg.moov_box.trak_boxes.push(track);
    seg.moov_box.mvex_box.trex_boxes.push(mse_fmp4::fmp4::TrackExtendsBox::new(false));
}

/// Relies on `WriteTo::write_to` of `InitializationSegment` into a byte
/// vector, which cannot fail on I/O: with every track box one the push
/// wrappers built under their preconditions, it errs exactly when the
/// segment holds no track.
#[verifier::external_body]
pub(crate) fn write_init_segment(seg: &mse_fmp4::fmp4::InitializationSegment) -> (r: Result<
    Vec<u8>,
    mse_fmp4::Error,
>)
    requires
        init_entries_ok(*seg),
    ensures
        r is Ok <==> init_track_count(*seg) >= 1,
{
    let mut out: Vec<u8> = Vec::new();
    seg.write_to(&mut out)?;
    Ok(out)
}

/// Relies on the `SamplingFrequency` discriminants: indices 0 through 12 name
/// the defined sampling frequencies; 13 and 14 are reserved, 15 forbidden.
#[verifier::external_body]
pub(crate) fn sampling_frequency_from_index(i: u8) -> (r: Option<SamplingFrequency>)
    ensures
        r is Some <==> i <= 12,
        r matches Some(f) ==> sampling_frequency_index(f) == i,
{
    match i {
        0 => Some(SamplingFrequency::Hz96000), 1 => Some(SamplingFrequency::Hz88200),
        2 => Some(SamplingFrequency::Hz64000), 3 => Some(SamplingFrequency::Hz48000),
        4 => Some(SamplingFrequency::Hz44100), 5 => Some(SamplingFrequency::Hz32000),
        6 => Some(SamplingFrequency::Hz24000), 7 => Some(SamplingFrequency::Hz22050),
        8 => Some(SamplingFrequency::Hz16000), 9 => Some(SamplingFrequency::Hz12000),
        10 => Some(SamplingFrequency::Hz11025), 11 => Some(SamplingFrequency::Hz8000),
        12 => Some(SamplingFrequency::Hz7350), _ => None,
    }
}

/// Relies on the `ChannelConfiguration` discriminants: codes 0 through 7 name
/// the defined channel configurations.
#[verifier::external_body]
pub(crate) fn channel_configuration_from_code(c: u8) -> (r: Option<ChannelConfiguration>)
    ensures
        r is Some <==> c <= 7,
        r matches Some(cc) ==> channel_code(cc) == c,
{
    match c {
        0 => Some(ChannelConfiguration::SentViaInbandPce), 1 => Some(ChannelConfiguration::OneChannel),
        2 => Some(ChannelConfiguration::TwoChannels), 3 => Some(ChannelConfiguration::ThreeChannels),
        4 => Some(ChannelConfiguration::FourChannels), 5 => Some(ChannelConfiguration::FiveChannels),
        6 => Some(ChannelConfiguration::SixChannels), 7 => Some(ChannelConfiguration::EightChannels),
        _ => None,
    }
}

/// Relies on the `AacProfile` discriminants: the 2-bit ADTS profile field
/// names Main, LC, SSR or LTP.
#[verifier::external_body]
pub(crate) fn aac_profile_from_code(p: u8) -> (r: Option<AacProfile>)
    ensures
        r is Some <==> p <= 3,
{
    match p {
        0 => Some(AacProfile::Main), 1 => Some(AacProfile::Lc),
        2 => Some(AacProfile::Ssr), 3 => Some(AacProfile::Ltp),
        _ => None,
    }
}

} // verus!
