use mtld3d_diag::tsc::{
    calibrate, secs_to_cycles, split_u64, tsc_hz, widen_usize, Calibration, Clock, Request,
};

#[test]
fn calibration_is_ticks_per_second() {
    let c = calibrate(1_000, 1_000 + 47_250_000, 50_000);
    assert_eq!(tsc_hz(&c), 945_000_000);
    let c = calibrate(0, 10, 3);
    assert_eq!(tsc_hz(&c), 3_333_333);
    assert_eq!(tsc_hz(&calibrate(7, 7, 50_000)), 0);
}

#[test]
fn calibration_edges() {
    assert_eq!(tsc_hz(&calibrate(0, 5, 0)), 5_000_000);
    assert_eq!(tsc_hz(&calibrate(0, 5, 1)), 5_000_000);
    assert_eq!(tsc_hz(&calibrate(0, u64::MAX, 2)), u64::MAX / 2);
    assert_eq!(tsc_hz(&calibrate(0, u64::MAX, u64::MAX)), 1);
}

#[test]
fn calibration_rounds_down() {
    for (ticks, us) in [(10u64, 3u64), (47_250_001, 50_003), (1, 1_000_001)] {
        let hz = tsc_hz(&calibrate(0, ticks, us));
        assert!(hz * us <= ticks * 1_000_000);
        assert!(ticks * 1_000_000 < (hz + 1) * us);
    }
}

#[test]
fn one_calibration_serves_all_calls() {
    let mut clock = Clock::Uncalibrated;
    assert_eq!(clock.request(), Request::Measure { sleep_ms: 50 });
    let first = clock.settle(1_000, 1_000 + 47_250_000, 50_000);
    assert_eq!(tsc_hz(&first), 945_000_000);
    for _ in 0..3 {
        assert_eq!(clock.request(), Request::Ready(first));
    }
    let late = clock.settle(0, 1, 50_000);
    assert_eq!(late, first);
    assert_eq!(clock.request(), Request::Ready(first));
    assert_eq!(clock, Clock::Calibrated(first));
}

#[test]
fn durations_in_cycles() {
    let c = Calibration { hz: 945_000_000 };
    assert_eq!(secs_to_cycles(&c, 0), 0);
    assert_eq!(secs_to_cycles(&c, 1), 945_000_000);
    assert_eq!(secs_to_cycles(&c, 10), 9_450_000_000);
    assert_eq!(secs_to_cycles(&c, u64::MAX), u64::MAX);
    assert_eq!(secs_to_cycles(&Calibration { hz: 0 }, u64::MAX), 0);
    let mut last = 0;
    for seconds in [0, 1, 2, 1_000, 1 << 40, u64::MAX] {
        let cycles = secs_to_cycles(&c, seconds);
        assert!(last <= cycles);
        last = cycles;
    }
}

#[test]
fn words_split_into_halves() {
    assert_eq!(split_u64(0), (0, 0));
    assert_eq!(split_u64(0x1234_5678_9abc_def0), (0x1234_5678, 0x9abc_def0));
    assert_eq!(split_u64(u64::MAX), (u32::MAX, u32::MAX));
    let (hi, lo) = split_u64(1 << 53);
    assert_eq!(f64::from(hi) * 4_294_967_296.0 + f64::from(lo), 9_007_199_254_740_992.0);
    assert_eq!(widen_usize(usize::MAX), usize::MAX as u64);
    assert_eq!(widen_usize(0), 0);
}
