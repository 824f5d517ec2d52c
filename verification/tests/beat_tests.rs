use audio_visualizer::beat::BeatConfig;
use audio_visualizer::beat::BeatState;

#[test]
fn quiet_tick_decays_target_to_baseline() {
    // below threshold: no beat, target is the decayed baseline
    // 50.0 * 0.7 = 35.0, and the radius blends halfway toward it
    let cfg = BeatConfig::standard();
    let mut s = BeatState::new(50_000);
    let out = s.tick(&cfg, 0);
    assert!(!out.fired);
    assert_eq!(out.target_radius, 35_000);
    assert_eq!(out.radius, 42_500);
    assert_eq!(s.previous_radius, 42_500);
    assert_eq!(s.hue, 0);
    assert_eq!(s.cooldown, 0);
}

#[test]
fn quiet_stream_converges_to_decayed_baseline() {
    // a constant below-threshold flux stream never changes the hue and
    // drives the radius to baseline * decay exactly
    let cfg = BeatConfig::standard();
    let mut s = BeatState::new(50_000);
    for _ in 0..200 {
        let out = s.tick(&cfg, 69_999_999);
        assert!(!out.fired);
        assert_eq!(out.target_radius, 35_000);
        assert_eq!(s.hue, 0);
    }
    assert_eq!(s.previous_radius, 35_000);
}

#[test]
fn beat_fires_from_idle_above_threshold() {
    let cfg = BeatConfig::standard();
    let mut s = BeatState::new(50_000);
    let out = s.tick(&cfg, 70_000_001);
    assert!(out.fired);
    // hue advanced by exactly 0.3
    assert_eq!(s.hue, 300);
    // cooldown armed
    assert_eq!(s.cooldown, 30);
    // target is the decayed trigger radius: 100.0 * 0.7 = 70.0
    assert_eq!(out.target_radius, 70_000);
    // radius blends halfway from 50.0 toward 70.0
    assert_eq!(out.radius, 60_000);
}

#[test]
fn cooldown_blocks_new_beats_for_thirty_ticks() {
    let cfg = BeatConfig::standard();
    let mut s = BeatState::new(50_000);
    let out = s.tick(&cfg, 1_000_000_000);
    assert!(out.fired);
    assert_eq!(s.hue, 300);
    // flux stays far above threshold, yet no beat fires while the
    // cooldown counts down
    for k in 0..30 {
        let out = s.tick(&cfg, 1_000_000_000);
        assert!(!out.fired);
        assert_eq!(s.hue, 300);
        assert_eq!(s.cooldown, 30 - 1 - k);
        // a blocked tick emits the baseline target
        assert_eq!(out.target_radius, 35_000);
    }
    // cooldown exhausted: the next high tick fires again
    let out = s.tick(&cfg, 1_000_000_000);
    assert!(out.fired);
    assert_eq!(s.hue, 600);
    assert_eq!(s.cooldown, 30);
}

#[test]
fn hue_wraps_around_full_turn() {
    let cfg = BeatConfig::standard();
    let mut s = BeatState::new(50_000);
    let mut hues = Vec::new();
    for _ in 0..4 {
        let out = s.tick(&cfg, 99_000_000);
        assert!(out.fired);
        hues.push(s.hue);
        for _ in 0..30 {
            s.tick(&cfg, 99_000_000);
        }
    }
    assert_eq!(hues, vec![300, 600, 900, 200]);
}

#[test]
fn threshold_is_strict() {
    let cfg = BeatConfig::standard();
    let mut s = BeatState::new(50_000);
    let out = s.tick(&cfg, 70_000_000);
    assert!(!out.fired);
    let out = s.tick(&cfg, 70_000_001);
    assert!(out.fired);
}
