use ambient_brightness::ambient_brightness::AmbientBrightness;

/// The fixed-point log-domain sample for a raw sensor reading, computed the
/// way the runtime layer computes it.
fn log_sample(raw: u32) -> u32 {
    ((raw as f64).log10() * 100_000.0).round() as u32
}

#[test]
fn log_sample_of_reference_reading() {
    // 10^5.5 is about 316228, half a decade below the ceiling's sixth decade.
    assert_eq!(log_sample(316228), 550_000);
    assert_eq!(log_sample(1), 0);
    assert_eq!(log_sample(1_000_000), 600_000);
}

#[test]
fn constant_input_converges_monotonically_within_ten_passes() {
    // Seeded dark (raw 1), then a constant bright reading: the percentage
    // climbs toward its fixed point, reaches it on the tenth pass, and
    // stays there.
    let mut engine = AmbientBrightness::new().init(log_sample(1));
    let mut previous = 0u32;
    let mut outputs = Vec::new();
    for _ in 0..12 {
        let pct = engine.update(log_sample(1_000_000));
        assert!(pct >= previous, "output fell from {previous} to {pct}");
        previous = pct;
        outputs.push(pct);
    }
    assert_eq!(outputs[9], 100);
    assert_eq!(outputs[10], 100);
    assert_eq!(outputs[11], 100);
}

#[test]
fn constant_dim_input_converges_downward() {
    let mut engine = AmbientBrightness::new().init(600_000);
    let mut previous = 100u32;
    for pass in 0..12 {
        let pct = engine.update(0);
        assert!(pct <= previous, "output rose from {previous} to {pct}");
        previous = pct;
        if pass >= 9 {
            assert_eq!(pct, 0);
        }
    }
}

#[test]
fn idle_quarters_before_rounding() {
    // A steady sample worth 97.8 percent: quartered before rounding it
    // gives 24.45, reported as 24. Quartering the rounded 98 instead would
    // report 25 — the engine must not do that.
    let mut engine = AmbientBrightness::new().init(586_800);
    assert_eq!(engine.update(586_800), 98);
    engine.idle();
    assert_eq!(engine.update(586_800), 24);
    engine.active();
    assert_eq!(engine.update(586_800), 98);
}

#[test]
fn samples_are_clamped_at_the_ceiling() {
    // Readings above the ceiling saturate the percentage at one hundred.
    let mut engine = AmbientBrightness::new().init(2_000_000);
    let pct = engine.update(2_000_000);
    assert_eq!(pct, 100);
}

#[test]
fn steady_reference_reading_reports_ninety_two() {
    let sample = log_sample(316228);
    let mut engine = AmbientBrightness::new().init(sample);
    let mut pct = 0u32;
    for _ in 0..10 {
        pct = engine.update(sample);
    }
    assert_eq!(pct, 92);
}

#[test]
fn idle_reference_reading_reports_twenty_three() {
    let sample = log_sample(316228);
    let mut engine = AmbientBrightness::new().init(sample);
    engine.idle();
    let mut pct = 0u32;
    for _ in 0..10 {
        pct = engine.update(sample);
    }
    assert_eq!(pct, 23);
}
