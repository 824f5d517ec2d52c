use audio_visualizer::mixer::render;
use audio_visualizer::mixer::Audio;
use audio_visualizer::mixer::SoundSource;

fn silent_buffer(frames: usize) -> Vec<(i64, i64)> {
    vec![(0, 0); frames]
}

#[test]
fn zero_sources_leave_buffer_unchanged() {
    // mixer law: with no active sources the buffer is untouched
    // (additive silence) and the loudness is 0
    let mut audio = Audio::new();
    let mut buffer = vec![(5i64, -7i64); 8];
    let loudness = render(&mut audio, &mut buffer);
    assert_eq!(loudness, 0);
    assert_eq!(buffer, vec![(5, -7); 8]);
    assert_eq!(audio.sounds.len(), 0);
}

#[test]
fn short_source_mixes_available_frames_and_is_removed() {
    // mixer law: a source shorter than the buffer contributes exactly
    // its available frames, later frames stay silent, and the source is
    // removed as exhausted
    let mut audio = Audio::new();
    let frames = vec![(1000i64, 1000i64); 3];
    audio.enqueue(SoundSource::new(frames));
    let mut buffer = silent_buffer(5);
    let loudness = render(&mut audio, &mut buffer);
    assert_eq!(&buffer[..3], &[(1000, 1000); 3]);
    assert_eq!(&buffer[3..], &[(0, 0); 2]);
    assert_eq!(audio.sounds.len(), 0);
    // per frame: isqrt((1000^2 + 1000^2) / 2) = 1000; three frames pulled
    // over a five-frame buffer: 3000 * 100 / 5
    assert_eq!(loudness, 60_000);
}

#[test]
fn concurrent_sources_accumulate() {
    let mut audio = Audio::new();
    audio.enqueue(SoundSource::new(vec![(1000, 0); 2]));
    audio.enqueue(SoundSource::new(vec![(500, 500); 4]));
    let mut buffer = silent_buffer(3);
    let loudness = render(&mut audio, &mut buffer);
    assert_eq!(buffer, vec![(1500, 500), (1500, 500), (500, 500)]);
    // the short source is gone; the longer one stays, advanced
    assert_eq!(audio.sounds.len(), 1);
    assert_eq!(audio.sounds[0].pos, 3);
    // source one: isqrt(1000^2 / 2) = 707 per frame over 2 frames;
    // source two: isqrt(500^2) = 500 per frame over 3 frames
    assert_eq!(loudness, (707 * 2 + 500 * 3) * 100 / 3);
}

#[test]
fn source_matching_buffer_survives_once_then_drops() {
    let mut audio = Audio::new();
    audio.enqueue(SoundSource::new(vec![(100, 100); 3]));
    let mut buffer = silent_buffer(3);
    render(&mut audio, &mut buffer);
    // it yielded a full buffer, so it is kept, fully consumed
    assert_eq!(audio.sounds.len(), 1);
    assert_eq!(audio.sounds[0].pos, 3);
    let mut buffer2 = silent_buffer(3);
    let loudness = render(&mut audio, &mut buffer2);
    // nothing left to pull: it is exhausted now and removed
    assert_eq!(audio.sounds.len(), 0);
    assert_eq!(buffer2, silent_buffer(3));
    assert_eq!(loudness, 0);
}

#[test]
fn empty_buffer_is_absorbed() {
    let mut audio = Audio::new();
    audio.enqueue(SoundSource::new(vec![(100, 100); 4]));
    let mut buffer: Vec<(i64, i64)> = Vec::new();
    let loudness = render(&mut audio, &mut buffer);
    assert_eq!(loudness, 0);
    assert_eq!(audio.sounds.len(), 1);
    assert_eq!(audio.sounds[0].pos, 0);
}

#[test]
fn mixing_adds_onto_existing_buffer_contents() {
    let mut audio = Audio::new();
    audio.enqueue(SoundSource::new(vec![(250, -250); 2]));
    let mut buffer = vec![(100i64, 100i64); 2];
    render(&mut audio, &mut buffer);
    assert_eq!(buffer, vec![(350, -150); 2]);
}

#[test]
fn removal_keeps_enqueue_order_of_survivors() {
    let mut audio = Audio::new();
    audio.enqueue(SoundSource::new(vec![(10, 10); 5]));
    audio.enqueue(SoundSource::new(vec![(20, 20); 1]));
    audio.enqueue(SoundSource::new(vec![(30, 30); 6]));
    let mut buffer = silent_buffer(2);
    render(&mut audio, &mut buffer);
    // the middle source is exhausted; the outer two stay in order
    assert_eq!(audio.sounds.len(), 2);
    assert_eq!(audio.sounds[0].frames[0], (10, 10));
    assert_eq!(audio.sounds[1].frames[0], (30, 30));
    assert_eq!(audio.sounds[0].pos, 2);
    assert_eq!(audio.sounds[1].pos, 2);
}
