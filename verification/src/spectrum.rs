//! Reductions over the magnitude spectrum: per-bin power, spectral flux
//! (the onset signal), low/mid/high band energies, and the magnitude of
//! each complex spectrum bin.
//!
//! Magnitudes are fixed-point milli-units. A bin's power is the square of
//! its magnitude, so powers carry the squared scale; flux and the
//! previous-power state live on that squared scale too.

use vstd::prelude::*;

use crate::math::isqrt;
use crate::math::lemma_sqrt_floor_at_most;
use crate::math::sqrt_floor;
use crate::math::sum_range;

verus! {

/// Largest number of spectrum bins accepted per call.
pub const MAX_BINS: usize = 100_000;

/// Largest magnitude a bin may carry (milli-units).
pub const MAG_BOUND: i64 = 1_000_000;

/// Largest per-bin power: `MAG_BOUND` squared.
pub const POWER_BOUND: i64 = 1_000_000_000_000;

/// Largest real or imaginary part a complex bin may carry, chosen so the
/// bin's magnitude stays within `MAG_BOUND`.
pub const COMPLEX_BOUND: i64 = 700_000;

/// Magnitude of one complex bin: the floor square root of the sum of the
/// squared real and imaginary parts.
pub open spec fn magnitude_of(c: (i64, i64)) -> int {
    sqrt_floor((c.0 * c.0 + c.1 * c.1) as nat) as int
}

/// The power spectrum: each magnitude squared.
pub open spec fn powers(mags: Seq<i64>) -> Seq<i64> {
    Seq::new(mags.len(), |i: int| (mags[i] * mags[i]) as i64)
}

/// Sum over the first `n` bins of the positive-only power increases.
pub open spec fn flux_sum(cur: Seq<i64>, prev: Seq<i64>, n: int) -> int
    decreases n,
{
    if n <= 0 {
        0
    } else {
        flux_sum(cur, prev, n - 1) + if cur[n - 1] > prev[n - 1] {
            cur[n - 1] - prev[n - 1]
        } else {
            0
        }
    }
}

/// The spectral flux of a magnitude spectrum against the previously
/// retained power spectrum: 0 on the first call (no previous spectrum),
/// otherwise the positive-only per-bin power rise.
pub open spec fn spectral_flux_of(mags: Seq<i64>, prev_power: Seq<i64>) -> int {
    if prev_power.len() == 0 {
        0
    } else {
        flux_sum(powers(mags), prev_power, mags.len() as int)
    }
}

/// Spectral flux is never negative.
pub proof fn lemma_flux_sum_nonneg(cur: Seq<i64>, prev: Seq<i64>, n: int)
    ensures
        flux_sum(cur, prev, n) >= 0,
    decreases n,
{
    if n > 0 {
        lemma_flux_sum_nonneg(cur, prev, n - 1);
    }
}

/// Two identical consecutive power spectra produce zero flux.
pub proof fn lemma_flux_identical(p: Seq<i64>, n: int)
    ensures
        flux_sum(p, p, n) == 0,
    decreases n,
{
    if n > 0 {
        lemma_flux_identical(p, n - 1);
    }
}

/// Feeding the same magnitude spectrum twice in a row yields zero flux:
/// the retained power spectrum then equals the current one bin for bin.
pub proof fn lemma_flux_identical_spectra(mags: Seq<i64>)
    ensures
        spectral_flux_of(mags, powers(mags)) == 0,
{
    lemma_flux_identical(powers(mags), mags.len() as int);
}

/// When no bin's power falls, the flux is exactly the difference of the
/// total powers: `sum(cur) - sum(prev)`.
pub proof fn lemma_flux_all_rising(cur: Seq<i64>, prev: Seq<i64>, n: int)
    requires
        0 <= n <= cur.len(),
        n <= prev.len(),
        forall|i: int| 0 <= i < n ==> #[trigger] prev[i] <= cur[i],
    ensures
        flux_sum(cur, prev, n) == sum_range(cur, 0, n) - sum_range(prev, 0, n),
    decreases n,
{
    if n > 0 {
        lemma_flux_all_rising(cur, prev, n - 1);
    }
}

/// Doubling every magnitude between two consecutive spectra makes every
/// bin's power rise, so the flux equals the closed-form total power
/// difference.
pub proof fn lemma_flux_doubling(prev_mags: Seq<i64>, cur_mags: Seq<i64>)
    requires
        prev_mags.len() == cur_mags.len(),
        prev_mags.len() > 0,
        forall|i: int| 0 <= i < prev_mags.len() ==> 0 <= #[trigger] prev_mags[i] <= MAG_BOUND,
        forall|i: int| 0 <= i < cur_mags.len() ==> #[trigger] cur_mags[i] == 2 * prev_mags[i],
    ensures
        spectral_flux_of(cur_mags, powers(prev_mags)) == sum_range(
            powers(cur_mags),
            0,
            cur_mags.len() as int,
        ) - sum_range(powers(prev_mags), 0, prev_mags.len() as int),
{
    let n = cur_mags.len() as int;
    assert forall|i: int| 0 <= i < n implies #[trigger] powers(prev_mags)[i] <= powers(
        cur_mags,
    )[i] by {
        assert(0 <= prev_mags[i] * prev_mags[i] <= (2 * prev_mags[i]) * (2 * prev_mags[i])
            <= 4 * MAG_BOUND * MAG_BOUND) by (nonlinear_arith)
            requires 0 <= prev_mags[i] <= MAG_BOUND;
    }
    lemma_flux_all_rising(powers(cur_mags), powers(prev_mags), n);
}

/// Square each magnitude into a power spectrum.
fn power_spectrum(magnitudes: &Vec<i64>) -> (ps: Vec<i64>)
    requires
        forall|i: int| 0 <= i < magnitudes@.len() ==> 0 <= #[trigger] magnitudes@[i] <= MAG_BOUND,
    ensures
        ps@ == powers(magnitudes@),
        forall|i: int| 0 <= i < ps@.len() ==> 0 <= #[trigger] ps@[i] <= POWER_BOUND,
{
    let mut ps: Vec<i64> = Vec::new();
    let mut i: usize = 0;
    while i < magnitudes.len()
        invariant
            i <= magnitudes@.len(),
            ps@.len() == i,
            forall|j: int| 0 <= j < magnitudes@.len() ==> 0 <= #[trigger] magnitudes@[j]
                <= MAG_BOUND,
            forall|j: int| 0 <= j < i ==> #[trigger] ps@[j] == powers(magnitudes@)[j],
            forall|j: int| 0 <= j < i ==> 0 <= #[trigger] ps@[j] <= POWER_BOUND,
        decreases magnitudes@.len() - i,
    {
        let m = magnitudes[i];
        proof {
            assert(0 <= m * m <= POWER_BOUND) by (nonlinear_arith)
                requires 0 <= m <= MAG_BOUND;
        }
        ps.push(m * m);
        i = i + 1;
    }
    proof {
        assert(ps@ =~= powers(magnitudes@));
    }
    ps
}

/// Spectral flux of the current magnitude spectrum against the retained
/// previous power spectrum, which is replaced by the current powers.
///
/// On the first call (empty previous spectrum) the flux is 0 and the
/// history is seeded; afterwards the previous spectrum always has the
/// bin count of the one that produced it.
pub fn spectral_flux(magnitudes: &Vec<i64>, prev_power: &mut Vec<i64>) -> (flux: i64)
    requires
        magnitudes@.len() <= MAX_BINS,
        forall|i: int| 0 <= i < magnitudes@.len() ==> 0 <= #[trigger] magnitudes@[i] <= MAG_BOUND,
        old(prev_power)@.len() == 0 || old(prev_power)@.len() == magnitudes@.len(),
        forall|i: int|
            0 <= i < old(prev_power)@.len() ==> 0 <= #[trigger] old(prev_power)@[i] <= POWER_BOUND,
    ensures
        final(prev_power)@ == powers(magnitudes@),
        flux == spectral_flux_of(magnitudes@, old(prev_power)@),
        0 <= flux <= magnitudes@.len() * POWER_BOUND,
{
    let ps = power_spectrum(magnitudes);
    let mut flux: i64 = 0;
    if prev_power.len() > 0 {
        let mut i: usize = 0;
        while i < ps.len()
            invariant
                i <= ps@.len(),
                ps@ == powers(magnitudes@),
                ps@.len() == magnitudes@.len(),
                magnitudes@.len() <= MAX_BINS,
                prev_power@.len() == magnitudes@.len(),
                forall|j: int| 0 <= j < ps@.len() ==> 0 <= #[trigger] ps@[j] <= POWER_BOUND,
                forall|j: int|
                    0 <= j < prev_power@.len() ==> 0 <= #[trigger] prev_power@[j] <= POWER_BOUND,
                flux == flux_sum(ps@, prev_power@, i as int),
                0 <= flux <= i * POWER_BOUND,
            decreases ps@.len() - i,
        {
            let d = ps[i] - prev_power[i];
            if d > 0 {
                flux = flux + d;
            }
            i = i + 1;
        }
    } else {
        proof {
            lemma_flux_sum_nonneg(powers(magnitudes@), old(prev_power)@, magnitudes@.len() as int);
            assert(0 * POWER_BOUND <= magnitudes@.len() * POWER_BOUND) by (nonlinear_arith)
                requires magnitudes@.len() >= 0;
        }
    }
    *prev_power = ps;
    flux
}

/// Sum of the magnitudes with index in `[lo, hi)`.
fn sum_slice(magnitudes: &Vec<i64>, lo: usize, hi: usize) -> (s: i64)
    requires
        lo <= hi <= magnitudes@.len(),
        magnitudes@.len() <= MAX_BINS,
        forall|i: int| 0 <= i < magnitudes@.len() ==> 0 <= #[trigger] magnitudes@[i] <= MAG_BOUND,
    ensures
        s == sum_range(magnitudes@, lo as int, hi as int),
        0 <= s <= (hi - lo) * MAG_BOUND,
{
    let mut s: i64 = 0;
    let mut i: usize = lo;
    while i < hi
        invariant
            lo <= i <= hi <= magnitudes@.len(),
            magnitudes@.len() <= MAX_BINS,
            forall|j: int| 0 <= j < magnitudes@.len() ==> 0 <= #[trigger] magnitudes@[j]
                <= MAG_BOUND,
            s == sum_range(magnitudes@, lo as int, i as int),
            0 <= s <= (i - lo) * MAG_BOUND,
        decreases hi - i,
    {
        s = s + magnitudes[i];
        i = i + 1;
    }
    s
}

/// Partition the first half of the spectrum (the non-mirrored bins) into
/// low, mid and high thirds and sum the magnitudes of each band.
pub fn band_energies(magnitudes: &Vec<i64>) -> (bands: (i64, i64, i64))
    requires
        magnitudes@.len() <= MAX_BINS,
        forall|i: int| 0 <= i < magnitudes@.len() ==> 0 <= #[trigger] magnitudes@[i] <= MAG_BOUND,
    ensures
        ({
            let nb = magnitudes@.len() as int / 2;
            &&& bands.0 == sum_range(magnitudes@, 0, nb / 3)
            &&& bands.1 == sum_range(magnitudes@, nb / 3, 2 * nb / 3)
            &&& bands.2 == sum_range(magnitudes@, 2 * nb / 3, nb)
            &&& 0 <= bands.0
            &&& 0 <= bands.1
            &&& 0 <= bands.2
        }),
{
    let num_bins = magnitudes.len() / 2;
    let low_end = num_bins / 3;
    let mid_end = 2 * num_bins / 3;
    let low = sum_slice(magnitudes, 0, low_end);
    let mid = sum_slice(magnitudes, low_end, mid_end);
    let high = sum_slice(magnitudes, mid_end, num_bins);
    (low, mid, high)
}

/// Flatten stereo frames into the single interleaved sample sequence the
/// transform runs over: left sample of frame `i` at index `2i`, right at
/// `2i + 1`.
pub fn flatten_frames(frames: &Vec<(i64, i64)>) -> (out: Vec<i64>)
    requires
        frames@.len() <= MAX_BINS,
    ensures
        out@.len() == 2 * frames@.len(),
        forall|j: int|
            0 <= j < frames@.len() ==> out@[2 * j] == (#[trigger] frames@[j]).0 && out@[2 * j + 1]
                == frames@[j].1,
{
    let mut out: Vec<i64> = Vec::new();
    let mut i: usize = 0;
    while i < frames.len()
        invariant
            i <= frames@.len(),
            frames@.len() <= MAX_BINS,
            out@.len() == 2 * i,
            forall|j: int|
                0 <= j < i ==> out@[2 * j] == (#[trigger] frames@[j]).0 && out@[2 * j + 1]
                    == frames@[j].1,
        decreases frames@.len() - i,
    {
        let (l, r) = frames[i];
        out.push(l);
        out.push(r);
        i = i + 1;
    }
    out
}

/// Magnitude of every complex spectrum bin, in milli-units.
pub fn magnitudes_from_complex(spectrum: &Vec<(i64, i64)>) -> (mags: Vec<i64>)
    requires
        spectrum@.len() <= MAX_BINS,
        forall|i: int|
            0 <= i < spectrum@.len() ==> -COMPLEX_BOUND <= #[trigger] spectrum@[i].0
                <= COMPLEX_BOUND,
        forall|i: int|
            0 <= i < spectrum@.len() ==> -COMPLEX_BOUND <= #[trigger] spectrum@[i].1
                <= COMPLEX_BOUND,
    ensures
        mags@.len() == spectrum@.len(),
        forall|i: int| 0 <= i < spectrum@.len() ==> #[trigger] mags@[i] == magnitude_of(
            spectrum@[i],
        ),
        forall|i: int| 0 <= i < mags@.len() ==> 0 <= #[trigger] mags@[i] <= MAG_BOUND,
{
    let mut mags: Vec<i64> = Vec::new();
    let mut i: usize = 0;
    while i < spectrum.len()
        invariant
            i <= spectrum@.len(),
            mags@.len() == i,
            spectrum@.len() <= MAX_BINS,
            forall|j: int|
                0 <= j < spectrum@.len() ==> -COMPLEX_BOUND <= #[trigger] spectrum@[j].0
                    <= COMPLEX_BOUND,
            forall|j: int|
                0 <= j < spectrum@.len() ==> -COMPLEX_BOUND <= #[trigger] spectrum@[j].1
                    <= COMPLEX_BOUND,
            forall|j: int| 0 <= j < i ==> #[trigger] mags@[j] == magnitude_of(spectrum@[j]),
            forall|j: int| 0 <= j < i ==> 0 <= #[trigger] mags@[j] <= MAG_BOUND,
        decreases spectrum@.len() - i,
    {
        let (re, im) = spectrum[i];
        proof {
            assert(0 <= re * re <= COMPLEX_BOUND * COMPLEX_BOUND && 0 <= im * im
                <= COMPLEX_BOUND * COMPLEX_BOUND) by (nonlinear_arith)
                requires
                    -COMPLEX_BOUND <= re <= COMPLEX_BOUND,
                    -COMPLEX_BOUND <= im <= COMPLEX_BOUND,
            ;
        }
        let sq = re * re + im * im;
        proof {
            assert(0 <= sq < 1_000_001 * 1_000_001);
        }
        let m = isqrt(sq as u64);
        proof {
            lemma_sqrt_floor_at_most(sq as nat, (MAG_BOUND as nat));
        }
        mags.push(m as i64);
        i = i + 1;
    }
    mags
}

} // verus!
