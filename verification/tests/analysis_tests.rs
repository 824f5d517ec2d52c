use audio_visualizer::analysis::amplitude_milli;
use audio_visualizer::analysis::frequency_multiplier_milli;
use audio_visualizer::analysis::Analyzer;
use audio_visualizer::beat::BeatConfig;
use audio_visualizer::mixer::render;
use audio_visualizer::mixer::Audio;
use audio_visualizer::spectrum::magnitudes_from_complex;

#[test]
fn fresh_analyzer_is_seeded() {
    let a = Analyzer::new(BeatConfig::standard());
    assert_eq!(a.prev_power.len(), 0);
    assert_eq!(a.past_flux.len(), 0);
    assert_eq!(a.past_magnitudes.len(), 6);
    for w in &a.past_magnitudes {
        assert_eq!(w.len(), 10);
        assert_eq!(w.sum(), 0);
    }
    assert_eq!(a.beat.hue, 0);
    assert_eq!(a.beat.cooldown, 0);
    assert_eq!(a.beat.previous_radius, 50_000);
}

#[test]
fn silence_end_to_end() {
    // 512 stereo frames of pure silence: loudness 0, flux 0, amplitude
    // at the 1.0 floor, target radius decaying toward the baseline, no
    // hue change
    let mut audio = Audio::new();
    let mut buffer = vec![(0i64, 0i64); 512];
    let loudness = render(&mut audio, &mut buffer);
    assert_eq!(loudness, 0);

    // an all-silent buffer transforms to an all-zero spectrum
    let spectrum = vec![(0i64, 0i64); 1024];
    let mags = magnitudes_from_complex(&spectrum);
    assert!(mags.iter().all(|&m| m == 0));

    let mut analyzer = Analyzer::new(BeatConfig::standard());
    let mut radius = 50_000i64;
    for _ in 0..3 {
        let out = analyzer.update_tick(&mags);
        assert_eq!(out.flux, 0);
        assert_eq!(out.avg_flux, 0);
        assert!(!out.beat.fired);
        assert_eq!(out.beat.target_radius, 35_000);
        // the radius halves its distance to the decayed baseline
        radius = (radius * 500 + 35_000 * 500) / 1000;
        assert_eq!(out.beat.radius, radius);
        assert_eq!(analyzer.beat.hue, 0);
        assert!(out.smoothed.iter().all(|&m| m == 0));
    }

    assert_eq!(amplitude_milli(loudness, -42, 11_500), 1000);
}

#[test]
fn doubled_spectrum_end_to_end() {
    // two consecutive spectra whose magnitudes all double: the flux is
    // the exact closed-form total power difference
    let first = vec![10i64, 20, 30, 40];
    let second: Vec<i64> = first.iter().map(|m| m * 2).collect();
    let mut analyzer = Analyzer::new(BeatConfig::standard());
    let out1 = analyzer.update_tick(&first);
    assert_eq!(out1.flux, 0);
    let out2 = analyzer.update_tick(&second);
    let p1: i64 = first.iter().map(|m| m * m).sum();
    let p2: i64 = second.iter().map(|m| m * m).sum();
    assert_eq!(out2.flux, p2 - p1);
    // the flux history now holds [0, flux], so the average halves it
    assert_eq!(out2.avg_flux, (p2 - p1) / 2);
}

#[test]
fn smoothing_averages_through_shared_windows() {
    // each window starts with ten zeros; bin 0 and bin 6 share window 0
    let mut analyzer = Analyzer::new(BeatConfig::standard());
    let mags = vec![110i64, 0, 0, 0, 0, 0, 130];
    let out = analyzer.update_tick(&mags);
    // bin 0: window 0 holds ten zeros + 110 -> 110 / 11
    assert_eq!(out.smoothed[0], 10);
    // bins 1..=5: their windows hold ten zeros + 0
    for i in 1..6 {
        assert_eq!(out.smoothed[i], 0);
    }
    // bin 6: window 0 holds ten zeros + 110 + 130 -> 240 / 12
    assert_eq!(out.smoothed[6], 20);
}

#[test]
fn flux_history_is_averaged_over_its_window() {
    let mut analyzer = Analyzer::new(BeatConfig::standard());
    let quiet = vec![0i64; 4];
    let loud = vec![100i64; 4];
    let out1 = analyzer.update_tick(&quiet);
    assert_eq!(out1.avg_flux, 0);
    let out2 = analyzer.update_tick(&loud);
    // flux jumps to 4 * 100^2 = 40000; history [0, 40000] averages 20000
    assert_eq!(out2.flux, 40_000);
    assert_eq!(out2.avg_flux, 20_000);
}

#[test]
fn amplitude_maps_logarithmically_with_clamps() {
    // log10(loudness) = 2.0 at k = 11.5: amplitude 23.0
    assert_eq!(amplitude_milli(100_000, 2000, 11_500), 23_000);
    // huge log clamps at the 100.0 ceiling
    assert_eq!(amplitude_milli(1_000_000, 10_000, 11_500), 100_000);
    // tiny positive loudness with a negative log floors at 1.0
    assert_eq!(amplitude_milli(5, -3000, 11_500), 1000);
    // zero and negative loudness floor at 1.0
    assert_eq!(amplitude_milli(0, 2000, 11_500), 1000);
    assert_eq!(amplitude_milli(-10, 2000, 11_500), 1000);
    // just above the floor stays unclamped
    assert_eq!(amplitude_milli(2000, 301, 11_500), 3461);
}

#[test]
fn frequency_multiplier_squares_the_log_flux() {
    assert_eq!(frequency_multiplier_milli(0), 0);
    assert_eq!(frequency_multiplier_milli(2000), 4000);
    assert_eq!(frequency_multiplier_milli(1500), 2250);
}

#[test]
fn beat_fires_once_through_full_pipeline() {
    // drive the analyzer with spectra loud enough that the averaged flux
    // crosses the threshold, and check the one-beat lockout end to end
    let mut analyzer = Analyzer::new(BeatConfig::standard());
    let quiet = vec![0i64; 8];
    let loud = vec![200_000i64; 8];
    analyzer.update_tick(&quiet);
    // flux = 8 * 200_000^2 = 3.2e11; the average over [0, 3.2e11] is
    // 1.6e11, far above the threshold of 70_000_000
    let out = analyzer.update_tick(&loud);
    assert!(out.beat.fired);
    assert_eq!(analyzer.beat.hue, 300);
    assert_eq!(analyzer.beat.cooldown, 30);
    // the spectrum stays loud, the average stays high, yet the cooldown
    // blocks every one of the next 30 ticks
    for _ in 0..30 {
        let out = analyzer.update_tick(&loud);
        assert!(!out.beat.fired);
        assert_eq!(analyzer.beat.hue, 300);
    }
}
