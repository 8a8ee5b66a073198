use fmp4_mux::fmp4::{pts_to_ms_timescale, ticks_to_hz, ticks_to_ms};

#[test]
fn ticks_to_hz_rescales_with_nearest_rounding() {
    assert_eq!(ticks_to_hz(90000, 48000), 48000);
    assert_eq!(ticks_to_hz(0, 48000), 0);
    assert_eq!(ticks_to_hz(1, 48000), 1); // (48000 + 45000) / 90000 rounds up
    assert_eq!(ticks_to_hz(45, 1000), 1); // exactly half a unit rounds up
    assert_eq!(ticks_to_hz(44, 1000), 0);
    assert_eq!(ticks_to_hz(90, 1000), 1);
}

#[test]
fn pts_to_ms_rounds_to_nearest_millisecond() {
    assert_eq!(pts_to_ms_timescale(0), 0);
    assert_eq!(pts_to_ms_timescale(90000), 1000);
    assert_eq!(pts_to_ms_timescale(45), 1); // half a millisecond rounds up
    assert_eq!(pts_to_ms_timescale(44), 0);
    assert_eq!(pts_to_ms_timescale(135), 2);
}

#[test]
fn ticks_to_ms_truncates() {
    assert_eq!(ticks_to_ms(0), 0);
    assert_eq!(ticks_to_ms(89), 0);
    assert_eq!(ticks_to_ms(90), 1);
    assert_eq!(ticks_to_ms(3000), 33);
    assert_eq!(ticks_to_ms(90000), 1000);
}

#[test]
fn millisecond_round_trip_stays_within_one_millisecond() {
    // One hour of 90 kHz media, probed densely at the low end and in strides
    // beyond, with the rounding boundaries included.
    let one_hour: u64 = 90_000 * 3600;
    let mut n: u64 = 0;
    while n <= one_hour {
        let ms = pts_to_ms_timescale(n);
        let back = ms * 90;
        let diff = if back > n { back - n } else { n - back };
        assert!(diff <= 45, "n={} ms={} back={}", n, ms, back);
        let true_ms = n / 90;
        let ms_diff = if ms > true_ms { ms - true_ms } else { true_ms - ms };
        assert!(ms_diff <= 1, "n={} ms={} true={}", n, ms, true_ms);
        n = if n < 10_000 { n + 1 } else { n + 8971 };
    }
}
