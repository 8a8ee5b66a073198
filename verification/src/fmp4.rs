//! The segment builder: timestamp conversions between the 90 kHz video
//! clock, milliseconds and an arbitrary target rate; per-track sample-table
//! assembly; and the multiplexing of one fragment's access units into a
//! media-segment buffer and, on first need, an initialization-segment
//! buffer.

use vstd::prelude::*;

use crate::adts::{
    adts_frame_length, adts_frame_valid, adts_header_length, adts_header_model, adts_payload,
    aac_frame_duration_ms, parse_adts_header, spec_aac_frame_duration_ms, AdtsHeader,
};
use crate::boxes;
use crate::boxes::{audio_kind_of, flac_frame_of};
use crate::flac::{flac_blocksize_guard, flac_blocksize_overflows, spec_streaminfo_bytes, FlacFrame};
use crate::sample::{
    make_video_sample_flags, row_shape, video_sample_flags, AccessUnit, AudioKind, Sample,
};
use mse_fmp4::avc::AvcDecoderConfigurationRecord;
use mse_fmp4::fmp4::Sample as BoxSample;

verus! {

/// Rescaling of a 90 kHz tick count to a target rate, rounding to nearest.
pub open spec fn spec_ticks_to_hz(ticks: u64, target_hz: u32) -> int {
    (ticks as int * target_hz as int + 45000) / 90000
}

/// Rescaling of a 90 kHz tick count to milliseconds, rounding to nearest.
pub open spec fn spec_pts_to_ms(pts: u64) -> int {
    (pts as int * 1000 + 45000) / 90000
}

/// Truncating conversion of a 90 kHz tick count to milliseconds.
pub open spec fn spec_ticks_to_ms(ticks: u64) -> int {
    ticks as int / 90
}

/// Rescales a 90 kHz-domain tick count to an arbitrary target rate, rounding
/// to nearest.
pub fn ticks_to_hz(ticks: u64, target_hz: u32) -> (r: u64)
    requires
        ticks as int * target_hz as int + 45000 <= u64::MAX as int,
    ensures
        r == spec_ticks_to_hz(ticks, target_hz),
{
    (ticks * (target_hz as u64) + 45000) / 90000
}

/// Rescales 90 kHz ticks to milliseconds, rounding to nearest.
pub fn pts_to_ms_timescale(pts: u64) -> (r: u64)
    requires
        pts as int * 1000 + 45000 <= u64::MAX as int,
    ensures
        r == spec_pts_to_ms(pts),
{
    (pts * 1000 + 45000) / 90000
}

/// Converts a 90 kHz tick count to whole milliseconds, truncating towards
/// zero. Used for total-fragment-duration reporting; callers that need the
/// rounding rule use [`pts_to_ms_timescale`] instead, and must not mix the
/// two for the same value.
pub fn ticks_to_ms(ticks: u64) -> (r: u64)
    ensures
        r == spec_ticks_to_ms(ticks),
        r == (ticks as int * 1000) / 90000,
{
    proof {
        vstd::arithmetic::div_mod::lemma_div_denominator(ticks as int * 1000, 1000, 90);
        assert(ticks as int * 1000 / 1000 == ticks as int) by (nonlinear_arith);
    }
    ticks / 90
}

/// Round trip between the 90 kHz tick domain and milliseconds: rescaling a
/// tick count to milliseconds with the nearest-rounding rule and back at 90
/// ticks per millisecond lands within 45 ticks (half a millisecond) of the
/// original count, so the milliseconds obtained differ from the count's true
/// millisecond value by at most one millisecond.
pub proof fn lemma_ms_round_trip(ticks: u64)
    ensures
        90 * spec_pts_to_ms(ticks) - 45 <= ticks as int <= 90 * spec_pts_to_ms(ticks) + 45,
        spec_ticks_to_ms(ticks) - 1 <= spec_pts_to_ms(ticks) <= spec_ticks_to_ms(ticks) + 1,
{
    let t = ticks as int;
    let q = spec_pts_to_ms(ticks);
    vstd::arithmetic::div_mod::lemma_fundamental_div_mod(t * 1000 + 45000, 90000);
    assert(90 * q - 45 <= t <= 90 * q + 45);
    vstd::arithmetic::div_mod::lemma_fundamental_div_mod(t, 90);
    assert(spec_ticks_to_ms(ticks) - 1 <= q <= spec_ticks_to_ms(ticks) + 1);
}

/// The concatenation of the raw payloads of a sequence of access units.
pub open spec fn concat_data(us: Seq<AccessUnit>) -> Seq<u8>
    decreases us.len(),
{
    if us.len() == 0 {
        Seq::empty()
    } else {
        concat_data(us.drop_last()) + us.last().data@
    }
}

/// Whether some unit of the sequence is a sync sample.
pub open spec fn has_sync_sample(us: Seq<AccessUnit>) -> bool
    decreases us.len(),
{
    if us.len() == 0 {
        false
    } else {
        has_sync_sample(us.drop_last()) || us.last().key
    }
}

/// A sequence holds a sync sample exactly when one of its units has `key`
/// set.
pub proof fn lemma_has_sync_sample_iff(us: Seq<AccessUnit>)
    ensures
        has_sync_sample(us) <==> exists|i: int| 0 <= i < us.len() && (#[trigger] us[i]).key,
    decreases us.len(),
{
    if us.len() > 0 {
        lemma_has_sync_sample_iff(us.drop_last());
        if us.last().key {
            assert(us[us.len() - 1].key);
        }
        if has_sync_sample(us.drop_last()) {
            let w = choose|i: int| 0 <= i < us.drop_last().len() && (#[trigger] us.drop_last()[i]).key;
            assert(us[w].key);
        }
        if exists|i: int| 0 <= i < us.len() && (#[trigger] us[i]).key {
            let w = choose|i: int| 0 <= i < us.len() && (#[trigger] us[i]).key;
            if w < us.len() - 1 {
                assert(us.drop_last()[w].key);
            }
        }
    }
}

/// What the video path demands of its input: at least one unit, decode
/// timestamps strictly increasing up to the next fragment's starting
/// timestamp, presentation never before decode with the offset in `i32`
/// range, payload sizes and decode-time deltas each in `u32` range.
pub open spec fn video_input_ok(us: Seq<AccessUnit>, next_dts: u64) -> bool {
    &&& us.len() > 0
    &&& us[us.len() - 1].dts < next_dts
    &&& next_dts - us[us.len() - 1].dts <= u32::MAX as int
    &&& forall|i: int|
        0 <= i < us.len() ==> {
            let u = #[trigger] us[i];
            &&& u.pts >= u.dts
            &&& u.pts - u.dts <= i32::MAX as int
            &&& u.data@.len() <= u32::MAX as int
            &&& (i < us.len() - 1 ==> u.dts < us[i + 1].dts && us[i + 1].dts - u.dts
                <= u32::MAX as int)
        }
}

/// Decode timestamps are monotone across the whole sequence, not only
/// between neighbours.
pub proof fn lemma_dts_ordered(us: Seq<AccessUnit>, next_dts: u64, i: int, j: int)
    requires
        video_input_ok(us, next_dts),
        0 <= i <= j < us.len(),
    ensures
        us[i].dts <= us[j].dts,
    decreases j - i,
{
    if i < j {
        lemma_dts_ordered(us, next_dts, i, j - 1);
        assert(us[j - 1].dts < us[j].dts);
    }
}

/// The decode timestamp that ends sample `i`'s duration: the next unit's
/// `dts`, or `next_dts` for the last unit (the look-ahead sentinel).
pub open spec fn next_boundary(us: Seq<AccessUnit>, next_dts: u64, i: int) -> u64 {
    if i + 1 < us.len() {
        us[i + 1].dts
    } else {
        next_dts
    }
}

/// The expected sample-table row of video unit `i`: duration is the delta to
/// the following decode timestamp, size the payload length, the flags mark
/// sync samples, and the composition-time offset is `pts - dts`.
pub open spec fn video_sample_at(us: Seq<AccessUnit>, next_dts: u64, i: int) -> Sample {
    Sample {
        duration: Some((next_boundary(us, next_dts, i) - us[i].dts) as u32),
        size: Some(us[i].data@.len() as u32),
        flags: Some(video_sample_flags(us[i].key)),
        composition_time_offset: Some((us[i].pts - us[i].dts) as i32),
    }
}

/// Sum of the duration fields of a sample table; an absent duration counts
/// zero.
pub open spec fn sum_durations(ss: Seq<Sample>) -> int
    decreases ss.len(),
{
    if ss.len() == 0 {
        0
    } else {
        sum_durations(ss.drop_last()) + (match ss.last().duration {
            Some(d) => d as int,
            None => 0,
        })
    }
}

/// The assembled video track of one fragment: the sample table, the
/// concatenated payload, the decode-time base (the first unit's `dts`),
/// whether a sync sample is present, and the total duration in 90 kHz ticks.
pub struct VideoTrack {
    pub samples: Vec<Sample>,
    pub data: Vec<u8>,
    pub base_media_decode_time: u64,
    pub key: bool,
    pub total_ticks: u64,
}

/// Assembles the video track of one fragment: one sample-table row per
/// access unit, each row's duration the delta to the following unit's decode
/// timestamp (the supplied `next_dts` for the last unit), so the durations
/// sum to `next_dts` minus the first unit's decode timestamp.
#[verifier::rlimit(60)]
pub fn build_video_track(avcs: &Vec<AccessUnit>, next_dts: u64) -> (r: VideoTrack)
    requires
        video_input_ok(avcs@, next_dts),
    ensures
        r.samples@.len() == avcs@.len(),
        forall|i: int|
            0 <= i < avcs@.len() ==> #[trigger] r.samples@[i] == video_sample_at(
                avcs@,
                next_dts,
                i,
            ),
        r.data@ == concat_data(avcs@),
        r.base_media_decode_time == avcs@[0].dts,
        r.key == has_sync_sample(avcs@),
        r.total_ticks == next_dts - avcs@[0].dts,
        sum_durations(r.samples@) == next_dts - avcs@[0].dts,
{
    let n = avcs.len();
    let mut samples: Vec<Sample> = Vec::new();
    let mut data: Vec<u8> = Vec::new();
    let mut key = false;
    let mut i: usize = 0;
    assert(avcs@.take(0) =~= Seq::<AccessUnit>::empty());
    while i < n
        invariant
            video_input_ok(avcs@, next_dts),
            avcs@.len() == n,
            i <= n,
            samples@.len() == i,
            forall|k: int|
                0 <= k < i as int ==> #[trigger] samples@[k] == video_sample_at(
                    avcs@,
                    next_dts,
                    k,
                ),
            data@ == concat_data(avcs@.take(i as int)),
            key == has_sync_sample(avcs@.take(i as int)),
            sum_durations(samples@) == (if i < n {
                avcs@[i as int].dts as int
            } else {
                next_dts as int
            }) - avcs@[0].dts as int,
        decreases n - i,
    {
        let a = &avcs[i];
        let ghost prev_take = avcs@.take(i as int);
        let ghost prev_samples = samples@;
        if a.key {
            key = true;
        }
        let mut j: usize = 0;
        while j < a.data.len()
            invariant
                a == avcs@[i as int],
                (i as int) < avcs@.len(),
                j <= a.data.len(),
                data@ == concat_data(avcs@.take(i as int)) + a.data@.subrange(0, j as int),
            decreases a.data.len() - j,
        {
            data.push(a.data[j]);
            assert(a.data@.subrange(0, j as int + 1) =~= a.data@.subrange(0, j as int).push(
                a.data@[j as int],
            ));
            j += 1;
        }
        assert(a.data@.subrange(0, a.data@.len() as int) =~= a.data@);
        let dur_u64: u64 = if i + 1 < n {
            avcs[i + 1].dts - a.dts
        } else {
            next_dts - a.dts
        };
        let duration = dur_u64 as u32;
        let cto = (a.pts - a.dts) as i32;
        let size = a.data.len() as u32;
        samples.push(
            Sample {
                duration: Some(duration),
                size: Some(size),
                flags: Some(make_video_sample_flags(a.key)),
                composition_time_offset: Some(cto),
            },
        );
        proof {
            assert(avcs@.take(i as int + 1).drop_last() =~= prev_take);
            assert(avcs@.take(i as int + 1).last() == avcs@[i as int]);
            assert(concat_data(avcs@.take(i as int + 1)) == concat_data(prev_take)
                + avcs@[i as int].data@);
            assert(has_sync_sample(avcs@.take(i as int + 1)) == (has_sync_sample(prev_take)
                || avcs@[i as int].key));
            assert(samples@.drop_last() =~= prev_samples);
            assert(samples@[i as int] == video_sample_at(avcs@, next_dts, i as int));
            assert(sum_durations(samples@) == sum_durations(prev_samples) + duration as int);
        }
        i += 1;
    }
    assert(avcs@.take(n as int) =~= avcs@);
    proof {
        lemma_dts_ordered(avcs@, next_dts, 0, n as int - 1);
    }
    VideoTrack {
        samples,
        data,
        base_media_decode_time: avcs[0].dts,
        key,
        total_ticks: next_dts - avcs[0].dts,
    }
}

/// Sample rows of the AAC units whose ADTS header parses, in order: each row
/// carries the fixed per-frame duration and the unit's header-stripped
/// payload length.
pub open spec fn aac_samples(us: Seq<AccessUnit>, dur: u32) -> Seq<Sample>
    decreases us.len(),
{
    if us.len() == 0 {
        Seq::empty()
    } else {
        let rest = aac_samples(us.drop_last(), dur);
        let u = us.last();
        if adts_frame_valid(u.data@) {
            rest.push(
                Sample {
                    duration: Some(dur),
                    size: Some(
                        (adts_frame_length(u.data@) - adts_header_length(u.data@)) as u32,
                    ),
                    flags: None,
                    composition_time_offset: None,
                },
            )
        } else {
            rest
        }
    }
}

/// Concatenation of the header-stripped payloads of the AAC units whose
/// ADTS header parses.
pub open spec fn aac_payload_concat(us: Seq<AccessUnit>) -> Seq<u8>
    decreases us.len(),
{
    if us.len() == 0 {
        Seq::empty()
    } else {
        aac_payload_concat(us.drop_last()) + (if adts_frame_valid(us.last().data@) {
            adts_payload(us.last().data@)
        } else {
            Seq::empty()
        })
    }
}

/// The assembled audio track of one fragment, by detected codec family.
pub enum AudioTrack {
    /// No usable audio: no units were supplied, the first unit's bytes are of
    /// no family multiplexed here, the first FLAC frame header does not
    /// decode, or no AAC unit carries a well-formed ADTS frame.
    Absent,
    /// ADTS-framed AAC. The track-level header fields are captured from the
    /// first unit whose header parses and held fixed for the whole segment;
    /// units whose header does not parse are skipped and counted.
    Aac {
        samples: Vec<Sample>,
        data: Vec<u8>,
        base_media_decode_time: u64,
        header: AdtsHeader,
        skipped: usize,
    },
    /// Native FLAC frames: every unit is one sample of duration equal to the
    /// first frame's block size in samples; payloads are concatenated
    /// verbatim; the decode-time base is the first unit's presentation
    /// timestamp.
    Flac { samples: Vec<Sample>, data: Vec<u8>, base_media_decode_time: u64, frame: FlacFrame },
}

/// Scans for the first unit whose ADTS fixed header parses.
fn find_first_adts(units: &Vec<AccessUnit>) -> (r: Option<(usize, AdtsHeader)>)
    ensures
        match r {
            Some(p) => {
                &&& (p.0 as int) < units@.len()
                &&& adts_frame_valid(units@[p.0 as int].data@)
                &&& forall|k: int|
                    0 <= k < p.0 as int ==> !adts_frame_valid((#[trigger] units@[k]).data@)
                &&& p.1 == adts_header_model(units@[p.0 as int].data@)
                &&& p.1.sample_rate >= 7350
            },
            None => forall|k: int|
                0 <= k < units@.len() ==> !adts_frame_valid((#[trigger] units@[k]).data@),
        },
{
    let n = units.len();
    let mut i: usize = 0;
    while i < n
        invariant
            units@.len() == n,
            i <= n,
            forall|k: int| 0 <= k < i as int ==> !adts_frame_valid((#[trigger] units@[k]).data@),
        decreases n - i,
    {
        match parse_adts_header(units[i].data.as_slice()) {
            Some(h) => {
                return Some((i, h));
            },
            None => {},
        }
        i += 1;
    }
    None
}

/// Classifies a fragment's audio by its first access unit and assembles the
/// audio track: per-unit sample rows and concatenated payloads for AAC
/// (header-stripped) or FLAC (verbatim), with the decode-time base the first
/// unit's presentation time — rescaled to milliseconds for AAC, native for
/// FLAC.
#[verifier::rlimit(60)]
pub fn build_audio_track(units: &Vec<AccessUnit>) -> (r: AudioTrack)
    requires
        units@.len() > 0 ==> units@[0].pts as int * 1000 + 45000 <= u64::MAX as int,
        forall|i: int|
            0 <= i < units@.len() ==> (#[trigger] units@[i]).data@.len() <= u32::MAX as int,
    ensures
        match r {
            AudioTrack::Absent => units@.len() == 0 || {
                let kind = audio_kind_of(units@[0].data@);
                ||| kind == AudioKind::Other
                ||| kind == AudioKind::Flac && (flac_blocksize_overflows(units@[0].data@)
                    || flac_frame_of(units@[0].data@) is None)
                ||| kind == AudioKind::Aac && forall|k: int|
                    0 <= k < units@.len() ==> !adts_frame_valid((#[trigger] units@[k]).data@)
            },
            AudioTrack::Aac { samples, data, base_media_decode_time, header, skipped } => {
                &&& units@.len() > 0
                &&& audio_kind_of(units@[0].data@) == AudioKind::Aac
                &&& exists|fi: int|
                    {
                        &&& 0 <= fi < units@.len()
                        &&& adts_frame_valid((#[trigger] units@[fi]).data@)
                        &&& forall|k: int|
                            0 <= k < fi ==> !adts_frame_valid((#[trigger] units@[k]).data@)
                        &&& header == adts_header_model(units@[fi].data@)
                    }
                &&& samples@ == aac_samples(
                    units@,
                    spec_aac_frame_duration_ms(header.sample_rate) as u32,
                )
                &&& data@ == aac_payload_concat(units@)
                &&& base_media_decode_time == spec_pts_to_ms(units@[0].pts)
                &&& skipped as int == units@.len() - samples@.len()
            },
            AudioTrack::Flac { samples, data, base_media_decode_time, frame } => {
                &&& units@.len() > 0
                &&& audio_kind_of(units@[0].data@) == AudioKind::Flac
                &&& !flac_blocksize_overflows(units@[0].data@)
                &&& flac_frame_of(units@[0].data@) == Some(frame)
                &&& samples@.len() == units@.len()
                &&& forall|i: int|
                    0 <= i < units@.len() ==> #[trigger] samples@[i] == (Sample {
                        duration: Some(frame.block_size as u32),
                        size: Some(units@[i].data@.len() as u32),
                        flags: None,
                        composition_time_offset: None,
                    })
                &&& data@ == concat_data(units@)
                &&& base_media_decode_time == units@[0].pts
            },
        },
{
    let n = units.len();
    if n == 0 {
        return AudioTrack::Absent;
    }
    let kind = boxes::classify_audio(units[0].data.as_slice());
    match kind {
        AudioKind::Other => AudioTrack::Absent,
        AudioKind::Flac => {
            if flac_blocksize_guard(units[0].data.as_slice()) {
                return AudioTrack::Absent;
            }
            let frame = match boxes::decode_flac_frame(units[0].data.as_slice()) {
                Some(f) => f,
                None => {
                    return AudioTrack::Absent;
                },
            };
            let mut samples: Vec<Sample> = Vec::new();
            let mut data: Vec<u8> = Vec::new();
            let mut i: usize = 0;
            assert(units@.take(0) =~= Seq::<AccessUnit>::empty());
            while i < n
                invariant
                    units@.len() == n,
                    i <= n,
                    forall|k: int|
                        0 <= k < units@.len() ==> (#[trigger] units@[k]).data@.len()
                            <= u32::MAX as int,
                    samples@.len() == i,
                    forall|k: int|
                        0 <= k < i as int ==> #[trigger] samples@[k] == (Sample {
                            duration: Some(frame.block_size as u32),
                            size: Some(units@[k].data@.len() as u32),
                            flags: None,
                            composition_time_offset: None,
                        }),
                    data@ == concat_data(units@.take(i as int)),
                decreases n - i,
            {
                let a = &units[i];
                let mut j: usize = 0;
                while j < a.data.len()
                    invariant
                        a == units@[i as int],
                        (i as int) < units@.len(),
                        j <= a.data.len(),
                        data@ == concat_data(units@.take(i as int)) + a.data@.subrange(
                            0,
                            j as int,
                        ),
                    decreases a.data.len() - j,
                {
                    data.push(a.data[j]);
                    assert(a.data@.subrange(0, j as int + 1) =~= a.data@.subrange(
                        0,
                        j as int,
                    ).push(a.data@[j as int]));
                    j += 1;
                }
                assert(a.data@.subrange(0, a.data@.len() as int) =~= a.data@);
                proof {
                    assert(units@.take(i as int + 1).drop_last() =~= units@.take(i as int));
                    assert(concat_data(units@.take(i as int + 1)) == concat_data(
                        units@.take(i as int),
                    ) + units@[i as int].data@);
                }
                let size = a.data.len() as u32;
                samples.push(
                    Sample {
                        duration: Some(frame.block_size as u32),
                        size: Some(size),
                        flags: None,
                        composition_time_offset: None,
                    },
                );
                i += 1;
            }
            assert(units@.take(n as int) =~= units@);
            AudioTrack::Flac { samples, data, base_media_decode_time: units[0].pts, frame }
        },
        AudioKind::Aac => {
            let found = match find_first_adts(units) {
                Some(p) => p,
                None => {
                    return AudioTrack::Absent;
                },
            };
            let header = found.1;
            let ghost fi = found.0 as int;
            let dur = aac_frame_duration_ms(header.sample_rate);
            let mut samples: Vec<Sample> = Vec::new();
            let mut data: Vec<u8> = Vec::new();
            let mut skipped: usize = 0;
            let mut i: usize = 0;
            assert(units@.take(0) =~= Seq::<AccessUnit>::empty());
            while i < n
                invariant
                    units@.len() == n,
                    i <= n,
                    samples@ == aac_samples(units@.take(i as int), dur),
                    data@ == aac_payload_concat(units@.take(i as int)),
                    skipped as int == i as int - samples@.len(),
                    samples@.len() <= i,
                decreases n - i,
            {
                let a = &units[i];
                let ghost prev_take = units@.take(i as int);
                let ghost prev_samples = samples@;
                proof {
                    assert(units@.take(i as int + 1).drop_last() =~= prev_take);
                    assert(units@.take(i as int + 1).last() == units@[i as int]);
                }
                match parse_adts_header(a.data.as_slice()) {
                    Some(h) => {
                        let size = (h.frame_length - h.header_length) as u32;
                        samples.push(
                            Sample {
                                duration: Some(dur),
                                size: Some(size),
                                flags: None,
                                composition_time_offset: None,
                            },
                        );
                        let payload = match boxes::extract_aac_payload(a.data.as_slice()) {
                            Some(p) => p,
                            None => {
                                proof {
                                    assert(false);
                                }
                                Vec::new()
                            },
                        };
                        let mut j: usize = 0;
                        while j < payload.len()
                            invariant
                                payload@ == adts_payload(units@[(i as int)].data@),
                                (i as int) < units@.len(),
                                j <= payload.len(),
                                data@ == aac_payload_concat(units@.take(i as int))
                                    + payload@.subrange(0, j as int),
                            decreases payload.len() - j,
                        {
                            data.push(payload[j]);
                            assert(payload@.subrange(0, j as int + 1) =~= payload@.subrange(
                                0,
                                j as int,
                            ).push(payload@[j as int]));
                            j += 1;
                        }
                        proof {
                            assert(payload@.subrange(0, payload@.len() as int) =~= payload@);
                            assert(aac_payload_concat(units@.take(i as int + 1))
                                == aac_payload_concat(prev_take) + adts_payload(
                                units@[i as int].data@,
                            ));
                            assert(aac_samples(units@.take(i as int + 1), dur) == aac_samples(
                                prev_take,
                                dur,
                            ).push(
                                Sample {
                                    duration: Some(dur),
                                    size: Some(size),
                                    flags: None,
                                    composition_time_offset: None,
                                },
                            ));
                        }
                    },
                    None => {
                        skipped += 1;
                        proof {
                            assert(aac_samples(units@.take(i as int + 1), dur) == aac_samples(
                                prev_take,
                                dur,
                            ));
                            assert(aac_payload_concat(prev_take) + Seq::<u8>::empty()
                                =~= aac_payload_concat(prev_take));
                            assert(aac_payload_concat(units@.take(i as int + 1))
                                == aac_payload_concat(prev_take));
                        }
                    },
                }
                i += 1;
            }
            assert(units@.take(n as int) =~= units@);
            let base = pts_to_ms_timescale(units[0].pts);
            proof {
                assert(0 <= fi < units@.len() && adts_frame_valid((units@[fi]).data@) && (
                forall|k: int| 0 <= k < fi ==> !adts_frame_valid((#[trigger] units@[k]).data@))
                    && header == adts_header_model(units@[fi].data@));
            }
            AudioTrack::Aac { samples, data, base_media_decode_time: base, header, skipped }
        },
    }
}

/// One finished fragment: the initialization-segment buffer (present only
/// when this fragment first carries a configured track), the media-segment
/// buffer, the fragment duration in milliseconds derived from the video
/// track (zero for audio-only fragments, whose duration the caller
/// accumulates from its own clock), and the key-fragment flag.
#[derive(Clone, Debug)]
pub struct Fmp4Segment {
    pub init: Option<Vec<u8>>,
    pub data: Vec<u8>,
    pub duration_ms: u32,
    pub key: bool,
}

/// Failure of one fragment build; no partial fragment is emitted.
#[derive(Clone, Copy, PartialEq, Eq, Debug)]
pub enum Fmp4BuildError {
    /// The box-model library refused to assemble or serialize the segment;
    /// with the builder's own checks in place this is reached only by a
    /// fragment with no video track and no usable audio.
    Serialization,
    /// A configuration the box model cannot serialize: an AVC profile of
    /// 100, 110, 122 or 144, or an AAC track whose channel configuration is
    /// not 1 or 2 or whose sampling frequency is above 64000 Hz.
    UnsupportedConfiguration,
    /// The fragment exceeds the builder's size limits on access-unit count
    /// or per-track payload bytes.
    TooLarge,
}

/// Whether the fragment carries an AAC audio track: audio units are present,
/// the sniffer reports ADTS-framed AAC, and at least one unit's ADTS header
/// parses.
pub open spec fn aac_track_present(us: Seq<AccessUnit>) -> bool {
    &&& us.len() > 0
    &&& audio_kind_of(us[0].data@) == AudioKind::Aac
    &&& exists|i: int| 0 <= i < us.len() && adts_frame_valid((#[trigger] us[i]).data@)
}

/// Whether the fragment carries a FLAC audio track: the sniffer reports
/// native FLAC and the first unit's frame header decodes (off the outside
/// decoder's block-size overflow pattern).
pub open spec fn flac_track_present(us: Seq<AccessUnit>) -> bool {
    &&& us.len() > 0
    &&& audio_kind_of(us[0].data@) == AudioKind::Flac
    &&& !flac_blocksize_overflows(us[0].data@)
    &&& flac_frame_of(us[0].data@) is Some
}

/// The track-level configuration of the first parseable AAC unit is one the
/// box model can serialize: channel configuration 1 or 2, and a sampling
/// frequency of 64000 Hz or below (index at least 2), so that the rate fits
/// the sample entry's 16-bit field.
pub open spec fn aac_config_supported(us: Seq<AccessUnit>) -> bool {
    exists|fi: int|
        {
            &&& 0 <= fi < us.len()
            &&& adts_frame_valid((#[trigger] us[fi]).data@)
            &&& forall|k: int| 0 <= k < fi ==> !adts_frame_valid((#[trigger] us[k]).data@)
            &&& (adts_header_model(us[fi].data@).channel_config == 1 || adts_header_model(
                us[fi].data@,
            ).channel_config == 2)
            &&& adts_header_model(us[fi].data@).freq_index >= 2
        }
}

/// A configuration the box model refuses: an AVC profile of 100, 110, 122 or
/// 144 in the supplied record, or an AAC track outside
/// [`aac_config_supported`].
pub open spec fn config_unsupported(
    avcc: Option<&AvcDecoderConfigurationRecord>,
    aus: Seq<AccessUnit>,
) -> bool {
    ||| (avcc matches Some(c) && (boxes::avcc_profile(*c) == 100 || boxes::avcc_profile(*c)
        == 110 || boxes::avcc_profile(*c) == 122 || boxes::avcc_profile(*c) == 144))
    ||| (aac_track_present(aus) && !aac_config_supported(aus))
}

/// The payload bytes the fragment's audio track will carry: header-stripped
/// for AAC, verbatim for FLAC, none otherwise.
pub open spec fn audio_payload_len(us: Seq<AccessUnit>) -> int {
    if aac_track_present(us) {
        aac_payload_concat(us).len() as int
    } else if flac_track_present(us) {
        concat_data(us).len() as int
    } else {
        0
    }
}

/// The size limits under which every box size and data offset of one
/// fragment fits its 32-bit field: at most 0x1000000 access units in all and
/// at most 0x30000000 payload bytes per track.
pub open spec fn fragment_within_limits(
    has_video: bool,
    avcs: Seq<AccessUnit>,
    aus: Seq<AccessUnit>,
) -> bool {
    &&& avcs.len() + aus.len() <= 0x1000000
    &&& (has_video ==> concat_data(avcs).len() <= 0x30000000)
    &&& audio_payload_len(aus) <= 0x30000000
}

/// Two "first unit whose ADTS header parses" witnesses agree.
proof fn lemma_first_valid_unique(us: Seq<AccessUnit>, a: int, b: int)
    requires
        0 <= a < us.len(),
        adts_frame_valid(us[a].data@),
        forall|k: int| 0 <= k < a ==> !adts_frame_valid((#[trigger] us[k]).data@),
        0 <= b < us.len(),
        adts_frame_valid(us[b].data@),
        forall|k: int| 0 <= k < b ==> !adts_frame_valid((#[trigger] us[k]).data@),
    ensures
        a == b,
{
    if a < b {
        assert(!adts_frame_valid((us[a]).data@));
    }
    if b < a {
        assert(!adts_frame_valid((us[b]).data@));
    }
}

/// Every row of an AAC sample table fills duration and size and nothing
/// else.
proof fn lemma_aac_samples_shape(us: Seq<AccessUnit>, dur: u32)
    ensures
        forall|i: int|
            0 <= i < aac_samples(us, dur).len() ==> row_shape(
                #[trigger] aac_samples(us, dur)[i],
            ) == (true, true, false, false),
    decreases us.len(),
{
    if us.len() > 0 {
        lemma_aac_samples_shape(us.drop_last(), dur);
        let rest = aac_samples(us.drop_last(), dur);
        assert forall|i: int| 0 <= i < aac_samples(us, dur).len() implies row_shape(
            #[trigger] aac_samples(us, dur)[i],
        ) == (true, true, false, false) by {
            if adts_frame_valid(us.last().data@) && i == rest.len() {
                assert(aac_samples(us, dur)[i] == aac_samples(us, dur).last());
            } else {
                assert(aac_samples(us, dur)[i] == rest[i]);
            }
        }
    }
}

/// Track id of a fragment's audio track: 2 beside a video payload, else 1;
/// the id is a stable identifier shared between the media segment and the
/// initialization segment. (The box-model library in use pins video to
/// track 1 and audio to track 2 when it serializes, so the serialized boxes
/// follow this rule only when video is present.)
pub fn audio_track_id(has_video: bool) -> (r: u32)
    ensures
        r == (if has_video {
            2int
        } else {
            1int
        }),
{
    if has_video {
        2
    } else {
        1
    }
}

/// Synthesizes a STREAMINFO-equivalent metadata block from the first access
/// unit of a native FLAC stream, for building an initialization segment when
/// no separate stream header was supplied. `None` when the frame header does
/// not decode, or when it reports no channel count or no bit depth.
pub fn flac_init_streaminfo(data: &[u8]) -> (r: Option<Vec<u8>>)
    ensures
        flac_blocksize_overflows(data@) ==> r is None,
        !flac_blocksize_overflows(data@) ==> match flac_frame_of(data@) {
            Some(f) => {
                &&& (f.channels >= 1 && f.bits_per_sample >= 1) ==> (r matches Some(v) && v@
                    == spec_streaminfo_bytes(f))
                &&& !(f.channels >= 1 && f.bits_per_sample >= 1) ==> r is None
            },
            None => r is None,
        },
{
    if flac_blocksize_guard(data) {
        return None;
    }
    match boxes::decode_flac_frame(data) {
        Some(f) => {
            if f.channels >= 1 && f.bits_per_sample >= 1 {
                Some(boxes::synth_streaminfo(&f))
            } else {
                None
            }
        },
        None => None,
    }
}

/// Converts sample rows into the box model's representation: the run handed
/// on carries exactly the proven rows, field for field.
fn samples_to_boxes(ss: &Vec<Sample>) -> (r: Vec<BoxSample>)
    ensures
        r@.len() == ss@.len(),
        forall|i: int|
            0 <= i < ss@.len() ==> boxes::box_row_model(#[trigger] r@[i]) == ss@[i],
{
    let mut out: Vec<BoxSample> = Vec::new();
    let mut i: usize = 0;
    while i < ss.len()
        invariant
            i <= ss@.len(),
            out@.len() == i,
            forall|k: int|
                0 <= k < i as int ==> boxes::box_row_model(#[trigger] out@[k]) == ss@[k],
        decreases ss.len() - i,
    {
        out.push(boxes::sample_box(&ss[i]));
        i += 1;
    }
    out
}

/// Multiplexes one fragment's access units into a media-segment buffer and,
/// when a configured track is present, an initialization-segment buffer.
///
/// The video path runs when a decoder-configuration record is supplied (the
/// caller must then supply at least one video unit); `next_dts` is the
/// decode timestamp the next fragment starts at, which settles the last
/// sample's duration. Audio is classified from its first unit and assembled
/// per codec; unrecognized audio contributes nothing, and AAC units whose
/// ADTS header fails to parse are skipped — [`build_audio_track`] reports
/// their count. The fragment is a key fragment exactly when a video sync
/// sample is present or no video track was requested.
///
/// Configurations the box model refuses are rejected up front as
/// [`Fmp4BuildError::UnsupportedConfiguration`] and oversized fragments as
/// [`Fmp4BuildError::TooLarge`]; past those checks the build succeeds
/// whenever any track is present, and a fragment with no track at all fails
/// as [`Fmp4BuildError::Serialization`]. No partial fragment is emitted.
///
/// Limits of the box-model version in use: the serialized decode-time box
/// always carries 0 (the proven decode-time bases stay on
/// [`build_video_track`] and [`build_audio_track`]); a FLAC stream gets no
/// initialization-segment entry ([`flac_init_streaminfo`] supplies the
/// STREAMINFO bytes instead); and serialized audio always uses track id 2,
/// though [`audio_track_id`] states the intended assignment.
#[verifier::rlimit(100)]
pub fn box_fmp4(
    seq: u32,
    avcc: Option<&AvcDecoderConfigurationRecord>,
    avcs: &Vec<AccessUnit>,
    audio_units: &Vec<AccessUnit>,
    next_dts: u64,
) -> (r: Result<Fmp4Segment, Fmp4BuildError>)
    requires
        avcc is Some ==> video_input_ok(avcs@, next_dts),
        avcc is Some ==> spec_ticks_to_ms((next_dts - avcs@[0].dts) as u64) <= u32::MAX as int,
        audio_units@.len() > 0 ==> audio_units@[0].pts as int * 1000 + 45000 <= u64::MAX as int,
        forall|i: int|
            0 <= i < audio_units@.len() ==> (#[trigger] audio_units@[i]).data@.len()
                <= u32::MAX as int,
    ensures
        r matches Ok(seg) ==> {
            &&& seg.key == (avcc is None || has_sync_sample(avcs@))
            &&& seg.duration_ms as int == (if avcc is Some {
                spec_ticks_to_ms((next_dts - avcs@[0].dts) as u64)
            } else {
                0int
            })
            &&& (seg.init is Some <==> avcc is Some || aac_track_present(audio_units@))
        },
        r == Err::<Fmp4Segment, Fmp4BuildError>(Fmp4BuildError::UnsupportedConfiguration)
            <==> config_unsupported(avcc, audio_units@),
        !config_unsupported(avcc, audio_units@) ==> (r == Err::<Fmp4Segment, Fmp4BuildError>(
            Fmp4BuildError::TooLarge,
        ) <==> !fragment_within_limits(avcc is Some, avcs@, audio_units@)),
        (!config_unsupported(avcc, audio_units@) && fragment_within_limits(
            avcc is Some,
            avcs@,
            audio_units@,
        )) ==> (r is Ok <==> (avcc is Some || aac_track_present(audio_units@)
            || flac_track_present(audio_units@))),
{
    let audio = build_audio_track(audio_units);
    match avcc {
        Some(c) => {
            let p = boxes::avcc_profile_idc(c);
            if p == 100 || p == 110 || p == 122 || p == 144 {
                return Err(Fmp4BuildError::UnsupportedConfiguration);
            }
        },
        None => {},
    }
    let mut aac_cfg: Option<AdtsHeader> = None;
    match &audio {
        AudioTrack::Aac { header, .. } => {
            let h = *header;
            let ghost w = choose|fi: int|
                {
                    &&& 0 <= fi < audio_units@.len()
                    &&& adts_frame_valid((#[trigger] audio_units@[fi]).data@)
                    &&& forall|k: int|
                        0 <= k < fi ==> !adts_frame_valid((#[trigger] audio_units@[k]).data@)
                    &&& h == adts_header_model(audio_units@[fi].data@)
                };
            assert(aac_track_present(audio_units@));
            if !((h.channel_config == 1 || h.channel_config == 2) && h.freq_index >= 2) {
                proof {
                    if aac_config_supported(audio_units@) {
                        let w2 = choose|fi: int|
                            {
                                &&& 0 <= fi < audio_units@.len()
                                &&& adts_frame_valid((#[trigger] audio_units@[fi]).data@)
                                &&& forall|k: int|
                                    0 <= k < fi ==> !adts_frame_valid(
                                        (#[trigger] audio_units@[k]).data@,
                                    )
                                &&& (adts_header_model(
                                    audio_units@[fi].data@,
                                ).channel_config == 1 || adts_header_model(
                                    audio_units@[fi].data@,
                                ).channel_config == 2)
                                &&& adts_header_model(audio_units@[fi].data@).freq_index >= 2
                            };
                        lemma_first_valid_unique(audio_units@, w, w2);
                    }
                }
                return Err(Fmp4BuildError::UnsupportedConfiguration);
            }
            assert(aac_config_supported(audio_units@));
            aac_cfg = Some(h);
        },
        AudioTrack::Flac { .. } => {
            assert(!aac_track_present(audio_units@));
        },
        AudioTrack::Absent => {
            assert(!aac_track_present(audio_units@));
        },
    }
    assert(!config_unsupported(avcc, audio_units@));
    if avcs.len() > 0x1000000 {
        return Err(Fmp4BuildError::TooLarge);
    }
    if audio_units.len() > 0x1000000 - avcs.len() {
        return Err(Fmp4BuildError::TooLarge);
    }
    let mut seg = boxes::new_media_segment(seq);
    let mut is_key = true;
    let mut total_ticks: u64 = 0;
    let mut video_data: Option<Vec<u8>> = None;
    if avcc.is_some() {
        let vt = build_video_track(avcs, next_dts);
        if vt.data.len() > 0x30000000 {
            return Err(Fmp4BuildError::TooLarge);
        }
        is_key = vt.key;
        total_ticks = vt.total_ticks;
        let vboxes = samples_to_boxes(&vt.samples);
        proof {
            assert forall|i: int| 0 <= i < vboxes@.len() implies #[trigger] boxes::box_row_shape(
                vboxes@[i],
            ) == boxes::box_row_shape(vboxes@[0]) by {
                assert(vt.samples@[i] == video_sample_at(avcs@, next_dts, i));
                assert(vt.samples@[0] == video_sample_at(avcs@, next_dts, 0));
            }
            assert(boxes::boxes_uniform(vboxes@));
        }
        boxes::push_traf(&mut seg, true, vboxes);
        video_data = Some(vt.data);
    }
    let mut audio_data: Option<Vec<u8>> = None;
    match audio {
        AudioTrack::Aac { samples, data, header: header2, skipped: skipped2, .. } => {
            if data.len() > 0x30000000 {
                return Err(Fmp4BuildError::TooLarge);
            }
            proof {
                lemma_aac_samples_shape(
                    audio_units@,
                    spec_aac_frame_duration_ms(header2.sample_rate) as u32,
                );
                assert(skipped2 as int == audio_units@.len() - samples@.len());
            }
            let aboxes = samples_to_boxes(&samples);
            proof {
                assert forall|i: int| 0 <= i < aboxes@.len() implies #[trigger] boxes::box_row_shape(
                    aboxes@[i],
                ) == boxes::box_row_shape(aboxes@[0]) by {
                    assert(row_shape(samples@[i]) == (true, true, false, false));
                    assert(row_shape(samples@[0]) == (true, true, false, false));
                }
                assert(boxes::boxes_uniform(aboxes@));
            }
            boxes::push_traf(&mut seg, false, aboxes);
            audio_data = Some(data);
        },
        AudioTrack::Flac { samples, data, .. } => {
            if data.len() > 0x30000000 {
                return Err(Fmp4BuildError::TooLarge);
            }
            let aboxes = samples_to_boxes(&samples);
            proof {
                assert forall|i: int| 0 <= i < aboxes@.len() implies #[trigger] boxes::box_row_shape(
                    aboxes@[i],
                ) == boxes::box_row_shape(aboxes@[0]) by {
                    assert(row_shape(samples@[i]) == (true, true, false, false));
                    assert(row_shape(samples@[0]) == (true, true, false, false));
                }
                assert(boxes::boxes_uniform(aboxes@));
            }
            boxes::push_traf(&mut seg, false, aboxes);
            audio_data = Some(data);
        },
        AudioTrack::Absent => {},
    }
    proof {
        assert(boxes::media_row_count(seg) <= 0x1000000);
        assert(boxes::media_traf_count(seg) <= 2);
        assert(boxes::media_rows_ok(seg));
        assert(boxes::media_mdat_bytes_ok(seg));
    }
    let msize = match boxes::moof_box_size(&seg) {
        Ok(x) => x,
        Err(_) => {
            return Err(Fmp4BuildError::Serialization);
        },
    };
    let mut off: u64 = msize as u64 + 8;
    assert(off <= 100 + 200 + 16 * 0x1000000 + 8);
    let mut ti: usize = 0;
    match video_data {
        Some(vd) => {
            let placed = boxes::set_traf_data_offset(&mut seg, ti, off as i32);
            if !placed {
                return Err(Fmp4BuildError::Serialization);
            }
            off = off + 8 + vd.len() as u64;
            boxes::push_mdat(&mut seg, vd);
            ti = 1;
        },
        None => {},
    }
    match audio_data {
        Some(ad) => {
            let placed = boxes::set_traf_data_offset(&mut seg, ti, off as i32);
            if !placed {
                return Err(Fmp4BuildError::Serialization);
            }
            boxes::push_mdat(&mut seg, ad);
        },
        None => {},
    }
    let data = match boxes::write_media_segment(&seg) {
        Ok(v) => v,
        Err(_) => {
            return Err(Fmp4BuildError::Serialization);
        },
    };
    let mut iseg = boxes::new_init_segment(48000, 0, 0);
    let mut any_track = false;
    match avcc {
        Some(c) => {
            boxes::push_avc_track(&mut iseg, 0, 90000, 0, 0, 0, c);
            any_track = true;
        },
        None => {},
    }
    match aac_cfg {
        Some(h) => {
            proof {
                let w = choose|fi: int|
                    {
                        &&& 0 <= fi < audio_units@.len()
                        &&& adts_frame_valid((#[trigger] audio_units@[fi]).data@)
                        &&& forall|k: int|
                            0 <= k < fi ==> !adts_frame_valid(
                                (#[trigger] audio_units@[k]).data@,
                            )
                        &&& h == adts_header_model(audio_units@[fi].data@)
                    };
                let x2 = audio_units@[w].data@[2];
                let x3 = audio_units@[w].data@[3];
                assert(((x2 & 0x01) << 2) | (x3 >> 6) <= 7) by (bit_vector);
                assert(x2 >> 6 <= 3) by (bit_vector);
                assert(h.channel_config <= 7 && h.freq_index <= 12 && h.profile <= 3);
            }
            let frequency = match boxes::sampling_frequency_from_index(h.freq_index) {
                Some(f) => f,
                None => {
                    return Err(Fmp4BuildError::Serialization);
                },
            };
            let channels = match boxes::channel_configuration_from_code(h.channel_config) {
                Some(cc) => cc,
                None => {
                    return Err(Fmp4BuildError::Serialization);
                },
            };
            let profile = match boxes::aac_profile_from_code(h.profile) {
                Some(pr) => pr,
                None => {
                    return Err(Fmp4BuildError::Serialization);
                },
            };
            boxes::push_aac_track(&mut iseg, 0, 1000, 0, profile, frequency, channels);
            any_track = true;
        },
        None => {},
    }
    let mut init: Option<Vec<u8>> = None;
    if any_track {
        match boxes::write_init_segment(&iseg) {
            Ok(v) => {
                init = Some(v);
            },
            Err(_) => {
                return Err(Fmp4BuildError::Serialization);
            },
        }
    }
    let duration_ms = ticks_to_ms(total_ticks) as u32;
    Ok(Fmp4Segment { init, data, duration_ms, key: is_key })
}

} // verus!
