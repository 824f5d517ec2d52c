//! Mixer and loudness meter.
//!
//! One render call pulls up to one buffer's worth of frames from every
//! active sound source, adds each pulled sample into the corresponding
//! output sample (accumulating, so simultaneous sources mix), sums the
//! per-frame RMS of every frame actually pulled, and removes the sources
//! that ran out of frames while keeping the others in their enqueue
//! order. The reported loudness is the accumulated frame RMS divided by
//! the buffer length and scaled by 100.
//!
//! Samples are fixed-point milli-units.

use vstd::prelude::*;

use crate::math::isqrt;
use crate::math::lemma_sqrt_floor_at_most;
use crate::math::sqrt_floor;

verus! {

/// Largest sample magnitude a sound source may carry (milli-units).
pub const SAMPLE_BOUND: i64 = 1_000_000;

/// Largest sample magnitude the incoming output buffer may carry.
pub const BUFFER_BOUND: i64 = 1_000_000_000;

/// Largest number of concurrently active sources.
pub const MAX_SOURCES: usize = 1000;

/// Largest number of frames per render buffer.
pub const MAX_BUFFER_FRAMES: usize = 1_000_000;

/// Scale mapping the averaged frame RMS to the loudness range.
pub const LOUDNESS_SCALE: i64 = 100;

/// A decoded stereo sound source: its frames and a cursor marking how
/// many have already been consumed by earlier render calls.
pub struct SoundSource {
    /// The decoded stereo PCM frames, milli-unit samples.
    pub frames: Vec<(i64, i64)>,
    /// Index of the next frame to pull; frames before it are consumed.
    pub pos: usize,
}

impl SoundSource {
    /// The cursor is inside the frame list and every sample is bounded.
    pub open spec fn wf(&self) -> bool {
        &&& self.pos <= self.frames@.len()
        &&& forall|i: int|
            0 <= i < self.frames@.len() ==> -SAMPLE_BOUND <= #[trigger] self.frames@[i].0
                <= SAMPLE_BOUND
        &&& forall|i: int|
            0 <= i < self.frames@.len() ==> -SAMPLE_BOUND <= #[trigger] self.frames@[i].1
                <= SAMPLE_BOUND
    }

    /// A fresh source whose cursor is at the first frame.
    pub fn new(frames: Vec<(i64, i64)>) -> (s: Self)
        requires
            forall|i: int|
                0 <= i < frames@.len() ==> -SAMPLE_BOUND <= #[trigger] frames@[i].0 <= SAMPLE_BOUND,
            forall|i: int|
                0 <= i < frames@.len() ==> -SAMPLE_BOUND <= #[trigger] frames@[i].1 <= SAMPLE_BOUND,
        ensures
            s.wf(),
            s.frames@ == frames@,
            s.pos == 0,
    {
        SoundSource { frames, pos: 0 }
    }
}

/// Frames the source can still yield.
pub open spec fn src_remaining(s: SoundSource) -> int {
    s.frames@.len() - s.pos
}

/// Frames one render call of buffer length `len` pulls from the source.
pub open spec fn src_avail(s: SoundSource, len: int) -> int {
    if src_remaining(s) < len {
        src_remaining(s)
    } else {
        len
    }
}

/// What the source adds to output frame `i`, channel `ch` (0 left,
/// 1 right): its pulled sample there, or 0 past the frames it yields.
pub open spec fn src_contrib(s: SoundSource, len: int, i: int, ch: int) -> int {
    if 0 <= i < src_avail(s, len) {
        if ch == 0 {
            s.frames@[s.pos + i].0 as int
        } else {
            s.frames@[s.pos + i].1 as int
        }
    } else {
        0
    }
}

/// Total contribution of the first `k` sources to output frame `i`,
/// channel `ch`.
pub open spec fn mix_sum(sources: Seq<SoundSource>, k: int, len: int, i: int, ch: int) -> int
    decreases k,
{
    if k <= 0 {
        0
    } else {
        mix_sum(sources, k - 1, len, i, ch) + src_contrib(sources[k - 1], len, i, ch)
    }
}

/// RMS of the source frame `i` positions past the cursor: the floor root
/// of the mean of the two squared channel samples.
pub open spec fn frame_rms(s: SoundSource, i: int) -> int {
    let f = s.frames@[s.pos + i];
    sqrt_floor(((f.0 * f.0 + f.1 * f.1) / 2) as nat) as int
}

/// Sum of the RMS of the source's first `n` pulled frames.
pub open spec fn src_rms_sum(s: SoundSource, n: int) -> int
    decreases n,
{
    if n <= 0 {
        0
    } else {
        src_rms_sum(s, n - 1) + frame_rms(s, n - 1)
    }
}

/// Accumulated frame RMS over the frames the first `k` sources yield to
/// a render call of buffer length `len`.
pub open spec fn total_rms(sources: Seq<SoundSource>, len: int, k: int) -> int
    decreases k,
{
    if k <= 0 {
        0
    } else {
        total_rms(sources, len, k - 1) + src_rms_sum(sources[k - 1], src_avail(sources[k - 1], len))
    }
}

/// The loudness one render call reports: the accumulated frame RMS,
/// divided by the frame count and scaled; 0 for an empty buffer.
///
/// The square root is taken per frame (each frame's RMS), and those
/// roots are summed; no root is taken over the accumulated sum.
pub open spec fn loudness_of(sources: Seq<SoundSource>, len: int) -> int {
    if len == 0 {
        0
    } else {
        total_rms(sources, len, sources.len() as int) * LOUDNESS_SCALE / len
    }
}

/// The source with its cursor advanced past the frames one render call
/// of buffer length `len` pulls.
pub open spec fn advance(s: SoundSource, len: int) -> SoundSource {
    SoundSource { frames: s.frames, pos: (s.pos + src_avail(s, len)) as usize }
}

/// The sources still active after a render call of buffer length `len`:
/// those that yielded a full buffer, advanced, in their original order.
/// A source that yielded fewer frames is exhausted and removed.
pub open spec fn survivors(sources: Seq<SoundSource>, len: int) -> Seq<SoundSource>
    decreases sources.len(),
{
    if sources.len() == 0 {
        Seq::empty()
    } else {
        let rest = survivors(sources.drop_last(), len);
        if src_remaining(sources.last()) >= len {
            rest.push(advance(sources.last(), len))
        } else {
            rest
        }
    }
}

/// The active sources a render call mixes and the state it updates.
pub struct Audio {
    /// Active sources, in enqueue order.
    pub sounds: Vec<SoundSource>,
}

impl Audio {
    /// Boundedly many sources, each well-formed.
    pub open spec fn wf(&self) -> bool {
        &&& self.sounds@.len() <= MAX_SOURCES
        &&& forall|k: int| 0 <= k < self.sounds@.len() ==> (#[trigger] self.sounds@[k]).wf()
    }

    /// No active sources.
    pub fn new() -> (a: Self)
        ensures
            a.wf(),
            a.sounds@ == Seq::<SoundSource>::empty(),
    {
        Audio { sounds: Vec::new() }
    }

    /// Enqueue a source behind the existing ones.
    pub fn enqueue(&mut self, s: SoundSource)
        requires
            old(self).wf(),
            s.wf(),
            old(self).sounds@.len() < MAX_SOURCES,
        ensures
            final(self).wf(),
            final(self).sounds@ == old(self).sounds@.push(s),
    {
        self.sounds.push(s);
    }
}

/// Every mixed contribution stays within `k` full-scale samples.
pub proof fn lemma_mix_sum_bound(sources: Seq<SoundSource>, k: int, len: int, i: int, ch: int)
    requires
        0 <= k <= sources.len(),
        forall|j: int| 0 <= j < sources.len() ==> (#[trigger] sources[j]).wf(),
    ensures
        -(k * SAMPLE_BOUND) <= mix_sum(sources, k, len, i, ch) <= k * SAMPLE_BOUND,
    decreases k,
{
    if k > 0 {
        lemma_mix_sum_bound(sources, k - 1, len, i, ch);
        assert((k - 1) * SAMPLE_BOUND + SAMPLE_BOUND == k * SAMPLE_BOUND) by (nonlinear_arith);
    } else {
        assert(k * SAMPLE_BOUND == 0) by (nonlinear_arith)
            requires k == 0;
    }
}

/// Mix every active source into the output buffer, remove the exhausted
/// ones, and report the loudness of the frames pulled this call.
///
/// Every output frame is fully populated whether or not any source is
/// active: with none, the buffer is left unchanged (additive silence).
#[verifier::loop_isolation(false)]
pub fn render(audio: &mut Audio, buffer: &mut Vec<(i64, i64)>) -> (loudness: i64)
    requires
        old(audio).wf(),
        old(buffer)@.len() <= MAX_BUFFER_FRAMES,
        forall|i: int|
            0 <= i < old(buffer)@.len() ==> -BUFFER_BOUND <= #[trigger] old(buffer)@[i].0
                <= BUFFER_BOUND,
        forall|i: int|
            0 <= i < old(buffer)@.len() ==> -BUFFER_BOUND <= #[trigger] old(buffer)@[i].1
                <= BUFFER_BOUND,
    ensures
        final(audio).wf(),
        final(audio).sounds@ == survivors(old(audio).sounds@, old(buffer)@.len() as int),
        final(buffer)@.len() == old(buffer)@.len(),
        forall|i: int|
            0 <= i < old(buffer)@.len() ==> #[trigger] final(buffer)@[i].0 == old(buffer)@[i].0
                + mix_sum(
                old(audio).sounds@,
                old(audio).sounds@.len() as int,
                old(buffer)@.len() as int,
                i,
                0,
            ),
        forall|i: int|
            0 <= i < old(buffer)@.len() ==> #[trigger] final(buffer)@[i].1 == old(buffer)@[i].1
                + mix_sum(
                old(audio).sounds@,
                old(audio).sounds@.len() as int,
                old(buffer)@.len() as int,
                i,
                1,
            ),
        loudness == loudness_of(old(audio).sounds@, old(buffer)@.len() as int),
        loudness >= 0,
{
    let ghost orig = audio.sounds@;
    let ghost buf0 = buffer@;
    let len_frames = buffer.len();
    let ghost len = len_frames as int;
    let mut rms_volume: i64 = 0;
    let mut kept: Vec<SoundSource> = Vec::new();
    let n_sounds = audio.sounds.len();
    let mut s: usize = 0;
    while s < n_sounds
        invariant
            s <= n_sounds,
            audio.sounds@.len() == orig.len(),
            forall|k: int| s <= k < orig.len() ==> audio.sounds@[k] == orig[k],
            kept@ == survivors(orig.take(s as int), len),
            kept@.len() <= s,
            forall|k: int| 0 <= k < kept@.len() ==> (#[trigger] kept@[k]).wf(),
            buffer@.len() == len,
            forall|i: int| 0 <= i < len ==> #[trigger] buffer@[i].0 == buf0[i].0 + mix_sum(
                orig,
                s as int,
                len,
                i,
                0,
            ),
            forall|i: int| 0 <= i < len ==> #[trigger] buffer@[i].1 == buf0[i].1 + mix_sum(
                orig,
                s as int,
                len,
                i,
                1,
            ),
            rms_volume == total_rms(orig, len, s as int),
            0 <= rms_volume <= s * 1_000_000_000_000,
        decreases n_sounds - s,
    {
        let mut src = SoundSource { frames: Vec::new(), pos: 0 };
        core::mem::swap(&mut audio.sounds[s], &mut src);
        proof {
            assert(src == orig[s as int]);
        }
        let ghost base = buffer@;
        let ghost rms0 = rms_volume as int;
        let ghost cur = orig[s as int];
        let mut j: usize = 0;
        while j < len_frames && src.pos < src.frames.len()
            invariant
                src.frames == cur.frames,
                src.pos == cur.pos + j,
                j <= src_avail(cur, len),
                buffer@.len() == len,
                forall|i: int| 0 <= i < j ==> #[trigger] buffer@[i].0 == base[i].0 + src_contrib(
                    cur,
                    len,
                    i,
                    0,
                ),
                forall|i: int| 0 <= i < j ==> #[trigger] buffer@[i].1 == base[i].1 + src_contrib(
                    cur,
                    len,
                    i,
                    1,
                ),
                forall|i: int| j <= i < len ==> #[trigger] buffer@[i] == base[i],
                rms_volume == rms0 + src_rms_sum(cur, j as int),
                rms0 <= rms_volume <= rms0 + j * SAMPLE_BOUND,
            decreases len_frames - j,
        {
            let (fl, fr) = src.frames[src.pos];
            let (bl, br) = buffer[j];
            proof {
                lemma_mix_sum_bound(orig, s as int, len, j as int, 0);
                lemma_mix_sum_bound(orig, s as int, len, j as int, 1);
            }
            buffer[j] = (bl + fl, br + fr);
            proof {
                assert(0 <= fl * fl <= 1_000_000_000_000 && 0 <= fr * fr <= 1_000_000_000_000)
                    by (nonlinear_arith)
                    requires
                        -SAMPLE_BOUND <= fl <= SAMPLE_BOUND,
                        -SAMPLE_BOUND <= fr <= SAMPLE_BOUND,
                ;
            }
            let sq = (fl * fl + fr * fr) / 2;
            proof {
                crate::math::lemma_div_bounds(
                    (fl * fl + fr * fr) as int,
                    1_000_000_000_000,
                    2,
                );
                assert(sq < 1_000_001 * 1_000_001);
            }
            let r = isqrt(sq as u64);
            proof {
                lemma_sqrt_floor_at_most(sq as nat, SAMPLE_BOUND as nat);
            }
            rms_volume = rms_volume + (r as i64);
            j = j + 1;
            src.pos = src.pos + 1;
        }
        proof {
            assert(j == src_avail(cur, len));
        }
        if j < len_frames {
            // the source yielded fewer frames than the buffer holds: it
            // is exhausted and dropped
            proof {
                assert(src_remaining(cur) < len);
            }
        } else {
            kept.push(src);
            proof {
                assert(kept@.last() == advance(cur, len));
            }
        }
        s = s + 1;
        proof {
            assert(orig.take(s as int).drop_last() =~= orig.take(s as int - 1));
            assert(orig.take(s as int).last() == orig[s as int - 1]);
            assert(j * SAMPLE_BOUND <= 1_000_000_000_000);
        }
    }
    proof {
        assert(orig.take(orig.len() as int) =~= orig);
    }
    audio.sounds = kept;
    if len_frames == 0 {
        0
    } else {
        proof {
            vstd::arithmetic::div_mod::lemma_div_pos_is_pos(
                rms_volume * (LOUDNESS_SCALE as int),
                len,
            );
        }
        rms_volume * LOUDNESS_SCALE / (len_frames as i64)
    }
}

/// Mixer law for silence: with no active sources a render call adds
/// nothing to any output frame, keeps no source, and reports loudness 0.
pub proof fn lemma_render_no_sources(len: int, i: int, ch: int)
    ensures
        mix_sum(Seq::<SoundSource>::empty(), 0, len, i, ch) == 0,
        survivors(Seq::<SoundSource>::empty(), len) == Seq::<SoundSource>::empty(),
        loudness_of(Seq::<SoundSource>::empty(), len) == 0,
{
    if len != 0 {
        assert(total_rms(Seq::<SoundSource>::empty(), len, 0) == 0);
        vstd::arithmetic::div_mod::lemma_div_of0(len);
    }
}

/// Mixer law for one short source: a single source with fewer remaining
/// frames than the buffer contributes exactly its available frames, adds
/// nothing to the output frames past them, and is removed as exhausted.
pub proof fn lemma_render_single_short_source(s: SoundSource, len: int, i: int, ch: int)
    requires
        s.wf(),
        src_remaining(s) < len,
    ensures
        survivors(seq![s], len) == Seq::<SoundSource>::empty(),
        0 <= i < src_remaining(s) ==> mix_sum(seq![s], 1, len, i, ch) == (if ch == 0 {
            s.frames@[s.pos + i].0 as int
        } else {
            s.frames@[s.pos + i].1 as int
        }),
        i >= src_remaining(s) ==> mix_sum(seq![s], 1, len, i, ch) == 0,
{
    assert(seq![s].drop_last() =~= Seq::<SoundSource>::empty());
    assert(survivors(Seq::<SoundSource>::empty(), len) =~= Seq::<SoundSource>::empty());
    assert(seq![s].last() == s);
    assert(mix_sum(seq![s], 0, len, i, ch) == 0);
    assert(seq![s][0] == s);
    assert(mix_sum(seq![s], 1, len, i, ch) == src_contrib(s, len, i, ch));
}

} // verus!
