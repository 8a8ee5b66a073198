//! Data model of one fragment: access units and the per-sample rows of a
//! track's sample table.

use vstd::prelude::*;

verus! {

/// One encoded frame: a video NAL-unit aggregate, one AAC ADTS frame, or one
/// FLAC frame. `dts` and `pts` share one caller-chosen clock domain per build
/// call: 90 kHz ticks for video, codec-native ticks for audio.
#[derive(Clone, Debug)]
pub struct AccessUnit {
    pub dts: u64,
    pub pts: u64,
    pub key: bool,
    pub is_video: bool,
    pub data: Vec<u8>,
}

/// The audio codec family detected from a segment's first audio access unit.
/// Families other than ADTS-framed AAC and native FLAC are not multiplexed
/// and collapse to `Other`.
#[derive(Clone, Copy, PartialEq, Eq, Structural, Debug)]
pub enum AudioKind {
    Aac,
    Flac,
    Other,
}

/// Keyframe/dependency bitfields of one sample, per ISO-BMFF semantics.
#[derive(Clone, Copy, PartialEq, Eq, Debug)]
pub struct SampleFlags {
    pub is_leading: u8,
    pub sample_depends_on: u8,
    pub sample_is_depended_on: u8,
    pub sample_has_redundancy: u8,
    pub sample_padding_value: u8,
    pub sample_is_non_sync_sample: bool,
    pub sample_degradation_priority: u16,
}

/// One row of a track's sample table. The duration is filled in a second pass
/// once all decode-time deltas are known.
#[derive(Clone, Copy, PartialEq, Eq, Debug)]
pub struct Sample {
    pub duration: Option<u32>,
    pub size: Option<u32>,
    pub flags: Option<SampleFlags>,
    pub composition_time_offset: Option<i32>,
}

/// Which of the four optional fields a sample row fills: (duration, size,
/// flags, composition-time offset).
pub open spec fn row_shape(s: Sample) -> (bool, bool, bool, bool) {
    (s.duration is Some, s.size is Some, s.flags is Some, s.composition_time_offset is Some)
}

/// Flags of a video sync sample: no dependency on other samples, not
/// redundant, a sync sample.
pub open spec fn sync_sample_flags() -> SampleFlags {
    SampleFlags {
        is_leading: 0,
        sample_depends_on: 0,
        sample_is_depended_on: 0,
        sample_has_redundancy: 0,
        sample_padding_value: 0,
        sample_is_non_sync_sample: false,
        sample_degradation_priority: 0,
    }
}

/// Flags of a video non-sync sample: depends on a prior sample, non-sync.
pub open spec fn non_sync_sample_flags() -> SampleFlags {
    SampleFlags {
        is_leading: 0,
        sample_depends_on: 1,
        sample_is_depended_on: 0,
        sample_has_redundancy: 0,
        sample_padding_value: 0,
        sample_is_non_sync_sample: true,
        sample_degradation_priority: 0,
    }
}

/// The flags a video sample carries, by whether the access unit is a sync
/// sample.
pub open spec fn video_sample_flags(key: bool) -> SampleFlags {
    if key {
        sync_sample_flags()
    } else {
        non_sync_sample_flags()
    }
}

/// Builds the flags of a video sample.
pub fn make_video_sample_flags(key: bool) -> (r: SampleFlags)
    ensures
        r == video_sample_flags(key),
{
    if key {
        SampleFlags {
            is_leading: 0,
            sample_depends_on: 0,
            sample_is_depended_on: 0,
            sample_has_redundancy: 0,
            sample_padding_value: 0,
            sample_is_non_sync_sample: false,
            sample_degradation_priority: 0,
        }
    } else {
        SampleFlags {
            is_leading: 0,
            sample_depends_on: 1,
            sample_is_depended_on: 0,
            sample_has_redundancy: 0,
            sample_padding_value: 0,
            sample_is_non_sync_sample: true,
            sample_degradation_priority: 0,
        }
    }
}

} // verus!
