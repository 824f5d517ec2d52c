//! Per-display-frame analysis tick.
//!
//! The analyzer owns everything the update thread keeps across ticks: the
//! previous power spectrum for the flux, six shared smoothing windows for
//! per-bin magnitude averaging (bin `i` uses window `i mod 6`), the flux
//! history window, and the beat state machine with its parameters. One
//! `update_tick` consumes the latest magnitude spectrum and produces the
//! smoothed spectrum, the flux, the averaged flux and the beat outputs.
//!
//! The amplitude mapping is the one stateless piece: a logarithmic
//! perceptual curve with a floor and a ceiling.

use vstd::prelude::*;

use crate::beat::beat_fires;
use crate::beat::beat_next;
use crate::beat::beat_radius;
use crate::beat::beat_target;
use crate::beat::BeatConfig;
use crate::beat::BeatState;
use crate::beat::BeatTick;
use crate::history::push_evict;
use crate::history::window_average;
use crate::history::HistoryWindow;
use crate::history::MAX_SAMPLE;
use crate::spectrum::powers;
use crate::spectrum::spectral_flux;
use crate::spectrum::spectral_flux_of;
use crate::spectrum::MAG_BOUND;
use crate::spectrum::MAX_BINS;
use crate::spectrum::POWER_BOUND;

verus! {

/// Number of shared per-bin smoothing windows; bin `i` smooths through
/// window `i mod 6`.
pub const NUM_SMOOTHING_WINDOWS: usize = 6;

/// Capacity of each magnitude smoothing window.
pub const MAG_WINDOW_CAP: usize = 20;

/// Zero samples each smoothing window is seeded with.
pub const MAG_WINDOW_SEED: usize = 10;

/// Capacity of the flux averaging window: the number of past flux values
/// the beat detector averages.
pub const FLUX_WINDOW_CAP: usize = 7;

/// Amplitude floor, milli-units (1.0).
pub const AMPLITUDE_FLOOR: i64 = 1000;

/// Amplitude ceiling, milli-units (100.0).
pub const AMPLITUDE_CEILING: i64 = 100_000;

/// The contents of every smoothing window.
pub open spec fn windows_view(ws: Seq<HistoryWindow>) -> Seq<Seq<i64>> {
    Seq::new(ws.len(), |j: int| ws[j]@)
}

/// Window contents after the first `n` bins pushed their magnitude into
/// their shared window, in bin order.
pub open spec fn smooth_windows(ws: Seq<Seq<i64>>, cap: nat, mags: Seq<i64>, n: int) -> Seq<
    Seq<i64>,
>
    decreases n,
{
    if n <= 0 {
        ws
    } else {
        let prev = smooth_windows(ws, cap, mags, n - 1);
        let j = (n - 1) % (NUM_SMOOTHING_WINDOWS as int);
        prev.update(j, push_evict(prev[j], cap, mags[n - 1]))
    }
}

/// The smoothed magnitude of bin `i`: the average its shared window
/// reports right after bin `i`'s own push.
pub open spec fn smoothed_value(ws: Seq<Seq<i64>>, cap: nat, mags: Seq<i64>, i: int) -> int {
    window_average(smooth_windows(ws, cap, mags, i + 1)[i % (NUM_SMOOTHING_WINDOWS as int)])
}

/// Everything the update thread keeps across display ticks.
pub struct Analyzer {
    /// Power spectrum retained from the previous tick; empty before the
    /// first.
    pub prev_power: Vec<i64>,
    /// The six shared per-bin magnitude smoothing windows.
    pub past_magnitudes: Vec<HistoryWindow>,
    /// Recent flux values feeding the beat detector's average.
    pub past_flux: HistoryWindow,
    /// Beat state machine state.
    pub beat: BeatState,
    /// Beat detector parameters of this variant.
    pub config: BeatConfig,
}

/// What one analysis tick reports.
pub struct TickOutput {
    /// Per-bin smoothed magnitudes, milli-units.
    pub smoothed: Vec<i64>,
    /// Spectral flux of this tick (squared-magnitude scale).
    pub flux: i64,
    /// Mean of the recent flux values, the beat detector's input.
    pub avg_flux: i64,
    /// Beat machine outputs of this tick.
    pub beat: BeatTick,
}

impl Analyzer {
    /// All retained state is well-formed and sized as the pipeline
    /// expects.
    pub open spec fn wf(&self) -> bool {
        &&& self.config.wf()
        &&& self.beat.wf()
        &&& self.past_magnitudes@.len() == NUM_SMOOTHING_WINDOWS
        &&& forall|j: int|
            0 <= j < self.past_magnitudes@.len() ==> (#[trigger] self.past_magnitudes@[j]).wf()
                && self.past_magnitudes@[j].cap() == MAG_WINDOW_CAP
        &&& self.past_flux.wf()
        &&& self.past_flux.cap() == FLUX_WINDOW_CAP
        &&& self.prev_power@.len() <= MAX_BINS
        &&& forall|i: int|
            0 <= i < self.prev_power@.len() ==> 0 <= #[trigger] self.prev_power@[i] <= POWER_BOUND
    }

    /// A fresh analyzer: no previous spectrum, smoothing windows seeded
    /// with zeros, empty flux history, idle beat machine holding the
    /// baseline radius.
    pub fn new(config: BeatConfig) -> (a: Self)
        requires
            config.wf(),
        ensures
            a.wf(),
            a.config == config,
            a.prev_power@ == Seq::<i64>::empty(),
            a.past_flux@ == Seq::<i64>::empty(),
            a.beat.cooldown == 0,
            a.beat.hue == 0,
            a.beat.previous_radius == config.baseline_radius,
            forall|j: int|
                0 <= j < NUM_SMOOTHING_WINDOWS ==> (#[trigger] a.past_magnitudes@[j])@.len()
                    == MAG_WINDOW_SEED,
            forall|j: int, k: int|
                0 <= j < NUM_SMOOTHING_WINDOWS && 0 <= k < MAG_WINDOW_SEED ==> (
                #[trigger] a.past_magnitudes@[j]@[k]) == 0,
    {
        let mut past_magnitudes: Vec<HistoryWindow> = Vec::new();
        let mut j: usize = 0;
        while j < NUM_SMOOTHING_WINDOWS
            invariant
                j <= NUM_SMOOTHING_WINDOWS,
                past_magnitudes@.len() == j,
                forall|t: int|
                    0 <= t < j ==> (#[trigger] past_magnitudes@[t]).wf()
                        && past_magnitudes@[t].cap() == MAG_WINDOW_CAP,
                forall|t: int| 0 <= t < j ==> (#[trigger] past_magnitudes@[t])@.len()
                    == MAG_WINDOW_SEED,
                forall|t: int, k: int|
                    0 <= t < j && 0 <= k < MAG_WINDOW_SEED ==> (#[trigger] past_magnitudes@[t]@[k])
                        == 0,
            decreases NUM_SMOOTHING_WINDOWS - j,
        {
            let mut w = HistoryWindow::new(MAG_WINDOW_CAP);
            let mut k: usize = 0;
            while k < MAG_WINDOW_SEED
                invariant
                    k <= MAG_WINDOW_SEED,
                    w.wf(),
                    w.cap() == MAG_WINDOW_CAP,
                    w@.len() == k,
                    forall|t: int| 0 <= t < k ==> #[trigger] w@[t] == 0,
                decreases MAG_WINDOW_SEED - k,
            {
                w.push(0);
                k = k + 1;
            }
            past_magnitudes.push(w);
            j = j + 1;
        }
        Analyzer {
            prev_power: Vec::new(),
            past_magnitudes,
            past_flux: HistoryWindow::new(FLUX_WINDOW_CAP),
            beat: BeatState::new(config.baseline_radius),
            config,
        }
    }

    /// One display-frame tick on the latest magnitude spectrum: compute
    /// the flux against the retained power spectrum, smooth each bin
    /// through its shared window, push the flux into its history, and
    /// drive the beat machine with the averaged flux.
    #[verifier::loop_isolation(false)]
    pub fn update_tick(&mut self, magnitudes: &Vec<i64>) -> (out: TickOutput)
        requires
            old(self).wf(),
            magnitudes@.len() <= MAX_BINS,
            forall|i: int|
                0 <= i < magnitudes@.len() ==> 0 <= #[trigger] magnitudes@[i] <= MAG_BOUND,
            old(self).prev_power@.len() == 0 || old(self).prev_power@.len() == magnitudes@.len(),
        ensures
            final(self).wf(),
            final(self).config == old(self).config,
            out.flux == spectral_flux_of(magnitudes@, old(self).prev_power@),
            0 <= out.flux,
            final(self).prev_power@ == powers(magnitudes@),
            out.smoothed@.len() == magnitudes@.len(),
            forall|i: int|
                0 <= i < magnitudes@.len() ==> #[trigger] out.smoothed@[i] == smoothed_value(
                    windows_view(old(self).past_magnitudes@),
                    MAG_WINDOW_CAP as nat,
                    magnitudes@,
                    i,
                ),
            windows_view(final(self).past_magnitudes@) == smooth_windows(
                windows_view(old(self).past_magnitudes@),
                MAG_WINDOW_CAP as nat,
                magnitudes@,
                magnitudes@.len() as int,
            ),
            final(self).past_flux@ == push_evict(
                old(self).past_flux@,
                FLUX_WINDOW_CAP as nat,
                out.flux,
            ),
            out.avg_flux == window_average(final(self).past_flux@),
            final(self).beat == beat_next(old(self).config, old(self).beat, out.avg_flux),
            out.beat.fired == beat_fires(old(self).config, old(self).beat, out.avg_flux),
            out.beat.target_radius == beat_target(old(self).config, old(self).beat, out.avg_flux),
            out.beat.radius == beat_radius(old(self).config, old(self).beat, out.avg_flux),
    {
        let ghost wv0 = windows_view(self.past_magnitudes@);
        let flux = spectral_flux(magnitudes, &mut self.prev_power);

        let mut smoothed: Vec<i64> = Vec::new();
        let mut i: usize = 0;
        while i < magnitudes.len()
            invariant
                i <= magnitudes@.len(),
                magnitudes@.len() <= MAX_BINS,
                forall|t: int|
                    0 <= t < magnitudes@.len() ==> 0 <= #[trigger] magnitudes@[t] <= MAG_BOUND,
                self.past_magnitudes@.len() == NUM_SMOOTHING_WINDOWS,
                forall|j: int|
                    0 <= j < self.past_magnitudes@.len() ==> (
                    #[trigger] self.past_magnitudes@[j]).wf() && self.past_magnitudes@[j].cap()
                        == MAG_WINDOW_CAP,
                windows_view(self.past_magnitudes@) == smooth_windows(
                    wv0,
                    MAG_WINDOW_CAP as nat,
                    magnitudes@,
                    i as int,
                ),
                smoothed@.len() == i,
                forall|t: int| 0 <= t < i ==> #[trigger] smoothed@[t] == smoothed_value(
                    wv0,
                    MAG_WINDOW_CAP as nat,
                    magnitudes@,
                    t,
                ),
                self.prev_power@ == powers(magnitudes@),
                self.past_flux == old(self).past_flux,
                self.beat == old(self).beat,
                self.config == old(self).config,
            decreases magnitudes@.len() - i,
        {
            let idx = i % NUM_SMOOTHING_WINDOWS;
            let m = magnitudes[i];
            self.past_magnitudes[idx].push(m);
            let avg = self.past_magnitudes[idx].average();
            smoothed.push(avg);
            i = i + 1;
            proof {
                assert(windows_view(self.past_magnitudes@) =~= smooth_windows(
                    wv0,
                    MAG_WINDOW_CAP as nat,
                    magnitudes@,
                    i as int,
                ));
            }
        }

        proof {
            assert forall|t: int| 0 <= t < self.prev_power@.len() implies 0
                <= #[trigger] self.prev_power@[t] <= POWER_BOUND by {
                assert(0 <= magnitudes@[t] * magnitudes@[t] <= POWER_BOUND) by (nonlinear_arith)
                    requires 0 <= magnitudes@[t] <= MAG_BOUND;
            }
        }
        self.past_flux.push(flux);
        let avg_flux = self.past_flux.average();
        let cfg = self.config;
        let beat = self.beat.tick(&cfg, avg_flux);

        TickOutput { smoothed, flux, avg_flux, beat }
    }
}

/// The amplitude a loudness value maps to: a logarithmic perceptual
/// curve, clamped to `[1.0, 100.0]`, with the floor taken outright for
/// any non-positive loudness (so silence never collapses the visual).
///
/// `log10_loudness` is the base-10 logarithm of the loudness in
/// milli-units; `k` is the per-variant scale constant in milli-units.
pub open spec fn amplitude_of(loudness: i64, log10_loudness: i64, k: i64) -> int {
    if loudness <= 0 || log10_loudness <= 0 {
        AMPLITUDE_FLOOR as int
    } else {
        let v = log10_loudness * k / (AMPLITUDE_FLOOR as int);
        if v < AMPLITUDE_FLOOR {
            AMPLITUDE_FLOOR as int
        } else if v > AMPLITUDE_CEILING {
            AMPLITUDE_CEILING as int
        } else {
            v
        }
    }
}

/// Map a loudness value to the display amplitude.
pub fn amplitude_milli(loudness: i64, log10_loudness: i64, k: i64) -> (amp: i64)
    requires
        -1_000_000_000 <= log10_loudness <= 1_000_000_000,
        0 <= k <= 1_000_000,
    ensures
        amp == amplitude_of(loudness, log10_loudness, k),
        AMPLITUDE_FLOOR <= amp <= AMPLITUDE_CEILING,
{
    if loudness <= 0 || log10_loudness <= 0 {
        AMPLITUDE_FLOOR
    } else {
        proof {
            assert(0 <= log10_loudness * k <= 1_000_000_000 * 1_000_000) by (nonlinear_arith)
                requires
                    0 < log10_loudness <= 1_000_000_000,
                    0 <= k <= 1_000_000,
            ;
            crate::math::lemma_div_bounds(
                log10_loudness * k,
                1_000_000_000_000,
                AMPLITUDE_FLOOR as int,
            );
        }
        let v = log10_loudness * k / AMPLITUDE_FLOOR;
        if v < AMPLITUDE_FLOOR {
            AMPLITUDE_FLOOR
        } else if v > AMPLITUDE_CEILING {
            AMPLITUDE_CEILING
        } else {
            v
        }
    }
}

/// The squared log-flux term the string-wave frequency scales by.
pub fn frequency_multiplier_milli(log10_flux_plus_one: i64) -> (f: i64)
    requires
        0 <= log10_flux_plus_one <= 1_000_000_000,
    ensures
        f == log10_flux_plus_one * log10_flux_plus_one / 1000,
        0 <= f,
{
    proof {
        assert(0 <= log10_flux_plus_one * log10_flux_plus_one
            <= 1_000_000_000_000_000_000) by (nonlinear_arith)
            requires 0 <= log10_flux_plus_one <= 1_000_000_000;
        crate::math::lemma_div_bounds(
            log10_flux_plus_one * log10_flux_plus_one,
            1_000_000_000_000_000,
            1000,
        );
    }
    log10_flux_plus_one * log10_flux_plus_one / 1000
}

} // verus!
