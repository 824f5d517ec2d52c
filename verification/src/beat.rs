//! Beat/onset state machine.
//!
//! Once per display-update tick the machine reads the averaged spectral
//! flux. While a cooldown is pending it only counts the cooldown down.
//! Otherwise, a flux above the threshold fires a beat: the hue advances
//! by a fixed step (mod a full turn) and the target radius jumps to the
//! trigger value; below the threshold the target stays at the baseline.
//! Either way the target is decayed by a fixed factor and the held radius
//! is blended toward it by an exponential smoothing step.
//!
//! Hue and radii are fixed-point milli-units; decay and smoothing are
//! per-mille factors.

use vstd::prelude::*;

use crate::math::lemma_div_bounds;

verus! {

/// One fixed-point unit: 1.0 is represented as 1000.
pub const UNIT: i64 = 1000;

/// Largest radius value the machine handles (milli-units).
pub const RADIUS_MAX: i64 = 1_000_000;

/// Named parameters of one beat-detector variant.
#[derive(Clone, Copy, PartialEq, Eq, Structural)]
pub struct BeatConfig {
    /// Averaged-flux level above which a beat fires, on the flux's own
    /// squared-milli scale (1,000,000 units per real flux unit).
    pub threshold: i64,
    /// Ticks during which no new beat may fire after one fired.
    pub cooldown_ticks: u32,
    /// Hue advance per beat, milli-units of a full turn.
    pub hue_step: i64,
    /// Target radius set by a firing beat, milli-units.
    pub trigger_radius: i64,
    /// Target radius while no beat fires, milli-units.
    pub baseline_radius: i64,
    /// Per-mille multiplicative decay applied to the target each tick.
    pub decay: i64,
    /// Per-mille blend of the held radius toward the decayed target.
    pub smoothing: i64,
}

impl BeatConfig {
    /// Parameters are within their fixed-point ranges.
    pub open spec fn wf(&self) -> bool {
        &&& 0 <= self.threshold
        &&& 0 <= self.hue_step < UNIT
        &&& 0 <= self.trigger_radius <= RADIUS_MAX
        &&& 0 <= self.baseline_radius <= RADIUS_MAX
        &&& 0 <= self.decay <= UNIT
        &&& 0 <= self.smoothing <= UNIT
    }

    /// The classic parameter set: threshold 70.0, cooldown 30 ticks, hue
    /// step 0.3, trigger radius 100.0, baseline 50.0, decay 0.7,
    /// smoothing 0.5.
    ///
    /// The averaged flux the machine reads is a sum of squared
    /// milli-unit magnitudes, so it carries 1,000,000 fixed-point units
    /// per real flux unit; the threshold of 70.0 is 70,000,000 on that
    /// scale. Hue, radii, decay and smoothing are plain milli-units.
    pub fn standard() -> (c: Self)
        ensures
            c.wf(),
            c.threshold == 70_000_000,
            c.cooldown_ticks == 30,
            c.hue_step == 300,
            c.trigger_radius == 100_000,
            c.baseline_radius == 50_000,
            c.decay == 700,
            c.smoothing == 500,
    {
        BeatConfig {
            threshold: 70_000_000,
            cooldown_ticks: 30,
            hue_step: 300,
            trigger_radius: 100_000,
            baseline_radius: 50_000,
            decay: 700,
            smoothing: 500,
        }
    }
}

/// Persistent state of the machine: `cooldown == 0` is the idle state,
/// `cooldown > 0` counts the remaining lockout ticks.
#[derive(Clone, Copy, PartialEq, Eq, Structural)]
pub struct BeatState {
    /// Remaining lockout ticks; 0 when idle.
    pub cooldown: u32,
    /// Current hue, milli-units in `[0, 1)` of a full turn.
    pub hue: i64,
    /// Radius held from the previous tick, milli-units.
    pub previous_radius: i64,
}

/// What one tick reports to the rendering consumer.
#[derive(Clone, Copy, PartialEq, Eq, Structural)]
pub struct BeatTick {
    /// Whether a beat fired this tick.
    pub fired: bool,
    /// The decayed target radius of this tick, milli-units.
    pub target_radius: i64,
    /// The smoothed radius of this tick, milli-units.
    pub radius: i64,
}

/// A beat fires exactly when the machine is idle and the averaged flux
/// exceeds the threshold.
pub open spec fn beat_fires(cfg: BeatConfig, s: BeatState, avg_flux: i64) -> bool {
    s.cooldown == 0 && avg_flux > cfg.threshold
}

/// The decayed target radius of one tick.
pub open spec fn beat_target(cfg: BeatConfig, s: BeatState, avg_flux: i64) -> int {
    (if beat_fires(cfg, s, avg_flux) {
        cfg.trigger_radius as int
    } else {
        cfg.baseline_radius as int
    }) * cfg.decay / (UNIT as int)
}

/// The smoothed radius of one tick: the held radius blended toward the
/// decayed target by the per-mille smoothing factor.
pub open spec fn beat_radius(cfg: BeatConfig, s: BeatState, avg_flux: i64) -> int {
    (s.previous_radius * (UNIT - cfg.smoothing) + beat_target(cfg, s, avg_flux) * cfg.smoothing)
        / (UNIT as int)
}

/// The machine state after one tick.
pub open spec fn beat_next(cfg: BeatConfig, s: BeatState, avg_flux: i64) -> BeatState {
    BeatState {
        cooldown: if beat_fires(cfg, s, avg_flux) {
            cfg.cooldown_ticks
        } else if s.cooldown > 0 {
            (s.cooldown - 1) as u32
        } else {
            0u32
        },
        hue: if beat_fires(cfg, s, avg_flux) {
            ((s.hue + cfg.hue_step) % (UNIT as int)) as i64
        } else {
            s.hue
        },
        previous_radius: beat_radius(cfg, s, avg_flux) as i64,
    }
}

/// The machine state after a whole stream of averaged-flux ticks.
pub open spec fn run_beat(cfg: BeatConfig, s: BeatState, fluxes: Seq<i64>) -> BeatState
    decreases fluxes.len(),
{
    if fluxes.len() == 0 {
        s
    } else {
        beat_next(cfg, run_beat(cfg, s, fluxes.drop_last()), fluxes.last())
    }
}

impl BeatState {
    /// Hue is a valid turn fraction and the held radius is in range.
    pub open spec fn wf(&self) -> bool {
        &&& 0 <= self.hue < UNIT
        &&& 0 <= self.previous_radius <= RADIUS_MAX
    }

    /// Idle machine with hue 0 and the given held radius.
    pub fn new(initial_radius: i64) -> (s: Self)
        requires
            0 <= initial_radius <= RADIUS_MAX,
        ensures
            s.wf(),
            s.cooldown == 0,
            s.hue == 0,
            s.previous_radius == initial_radius,
    {
        BeatState { cooldown: 0, hue: 0, previous_radius: initial_radius }
    }

    /// Advance the machine by one tick on the given averaged flux.
    pub fn tick(&mut self, cfg: &BeatConfig, avg_flux: i64) -> (out: BeatTick)
        requires
            old(self).wf(),
            cfg.wf(),
        ensures
            final(self).wf(),
            *final(self) == beat_next(*cfg, *old(self), avg_flux),
            out.fired == beat_fires(*cfg, *old(self), avg_flux),
            out.target_radius == beat_target(*cfg, *old(self), avg_flux),
            out.radius == beat_radius(*cfg, *old(self), avg_flux),
            final(self).previous_radius == out.radius,
            0 <= out.target_radius <= RADIUS_MAX,
            0 <= out.radius <= RADIUS_MAX,
    {
        let mut target: i64 = cfg.baseline_radius;
        let mut fired = false;
        if self.cooldown == 0 {
            if avg_flux > cfg.threshold {
                self.hue = (self.hue + cfg.hue_step) % UNIT;
                target = cfg.trigger_radius;
                self.cooldown = cfg.cooldown_ticks;
                fired = true;
            }
        } else {
            self.cooldown = self.cooldown - 1;
        }
        proof {
            assert(0 <= target * cfg.decay <= RADIUS_MAX * (UNIT as int)) by (nonlinear_arith)
                requires
                    0 <= target <= RADIUS_MAX,
                    0 <= cfg.decay <= UNIT,
            ;
            lemma_div_bounds(target * cfg.decay, RADIUS_MAX as int, UNIT as int);
        }
        target = target * cfg.decay / UNIT;
        proof {
            assert(0 <= self.previous_radius * (UNIT - cfg.smoothing) + target * cfg.smoothing
                <= RADIUS_MAX * (UNIT as int)) by (nonlinear_arith)
                requires
                    0 <= self.previous_radius <= RADIUS_MAX,
                    0 <= target <= RADIUS_MAX,
                    0 <= cfg.smoothing <= UNIT,
            ;
            lemma_div_bounds(
                self.previous_radius * (UNIT - cfg.smoothing) + target * cfg.smoothing,
                RADIUS_MAX as int,
                UNIT as int,
            );
        }
        let radius = (self.previous_radius * (UNIT - cfg.smoothing) + target * cfg.smoothing)
            / UNIT;
        self.previous_radius = radius;
        BeatTick { fired, target_radius: target, radius }
    }
}

/// While the averaged flux stays at or below the threshold, no beat ever
/// fires: the hue never changes, and every tick's target radius is the
/// decayed baseline `baseline_radius * decay`.
pub proof fn lemma_quiet_stream(cfg: BeatConfig, s: BeatState, fluxes: Seq<i64>)
    requires
        forall|i: int| 0 <= i < fluxes.len() ==> #[trigger] fluxes[i] <= cfg.threshold,
    ensures
        run_beat(cfg, s, fluxes).hue == s.hue,
        forall|k: int|
            0 <= k < fluxes.len() ==> beat_target(
                cfg,
                run_beat(cfg, s, #[trigger] fluxes.take(k)),
                fluxes[k],
            ) == cfg.baseline_radius * cfg.decay / (UNIT as int),
    decreases fluxes.len(),
{
    if fluxes.len() > 0 {
        lemma_quiet_stream(cfg, s, fluxes.drop_last());
        assert(fluxes.last() <= cfg.threshold);
        assert forall|k: int| 0 <= k < fluxes.len() implies beat_target(
            cfg,
            run_beat(cfg, s, #[trigger] fluxes.take(k)),
            fluxes[k],
        ) == cfg.baseline_radius * cfg.decay / (UNIT as int) by {
            if k < fluxes.len() - 1 {
                assert(fluxes.take(k) =~= fluxes.drop_last().take(k));
                assert(fluxes[k] == fluxes.drop_last()[k]);
            } else {
                assert(fluxes.take(k) =~= fluxes.drop_last());
                assert(fluxes[k] == fluxes.last());
            }
        }
    }
}

/// A firing beat advances the hue by exactly one step (mod a full turn)
/// and arms the full cooldown.
pub proof fn lemma_beat_fire_effect(cfg: BeatConfig, s: BeatState, avg_flux: i64)
    requires
        s.wf(),
        cfg.wf(),
        s.cooldown == 0,
        avg_flux > cfg.threshold,
    ensures
        beat_fires(cfg, s, avg_flux),
        beat_next(cfg, s, avg_flux).hue == (s.hue + cfg.hue_step) % (UNIT as int),
        beat_next(cfg, s, avg_flux).cooldown == cfg.cooldown_ticks,
        beat_target(cfg, s, avg_flux) == cfg.trigger_radius * cfg.decay / (UNIT as int),
        beat_next(cfg, s, avg_flux).previous_radius == beat_radius(cfg, s, avg_flux),
{
    assert(0 <= cfg.trigger_radius * cfg.decay <= RADIUS_MAX * (UNIT as int)) by (nonlinear_arith)
        requires
            0 <= cfg.trigger_radius <= RADIUS_MAX,
            0 <= cfg.decay <= UNIT,
    ;
    lemma_div_bounds(cfg.trigger_radius * cfg.decay, RADIUS_MAX as int, UNIT as int);
    assert(0 <= s.previous_radius * (UNIT - cfg.smoothing) + beat_target(cfg, s, avg_flux)
        * cfg.smoothing <= RADIUS_MAX * (UNIT as int)) by (nonlinear_arith)
        requires
            0 <= s.previous_radius <= RADIUS_MAX,
            0 <= beat_target(cfg, s, avg_flux) <= RADIUS_MAX,
            0 <= cfg.smoothing <= UNIT,
    ;
    lemma_div_bounds(
        s.previous_radius * (UNIT - cfg.smoothing) + beat_target(cfg, s, avg_flux) * cfg.smoothing,
        RADIUS_MAX as int,
        UNIT as int,
    );
}

/// While a cooldown is pending, ticks only count it down: for any flux
/// stream no longer than the pending cooldown — even one entirely above
/// the threshold — no beat fires and the hue never changes.
pub proof fn lemma_cooldown_blocks(cfg: BeatConfig, s: BeatState, fluxes: Seq<i64>)
    requires
        fluxes.len() <= s.cooldown,
    ensures
        run_beat(cfg, s, fluxes).hue == s.hue,
        run_beat(cfg, s, fluxes).cooldown == s.cooldown - fluxes.len(),
        forall|k: int|
            0 <= k < fluxes.len() ==> !beat_fires(
                cfg,
                run_beat(cfg, s, #[trigger] fluxes.take(k)),
                fluxes[k],
            ),
    decreases fluxes.len(),
{
    if fluxes.len() > 0 {
        lemma_cooldown_blocks(cfg, s, fluxes.drop_last());
        assert forall|k: int| 0 <= k < fluxes.len() implies !beat_fires(
            cfg,
            run_beat(cfg, s, #[trigger] fluxes.take(k)),
            fluxes[k],
        ) by {
            if k < fluxes.len() - 1 {
                assert(fluxes.take(k) =~= fluxes.drop_last().take(k));
            } else {
                assert(fluxes.take(k) =~= fluxes.drop_last());
            }
        }
    }
}

/// One beat firing from idle advances the hue exactly once, and no
/// further beat fires for the next `cooldown_ticks` ticks, however high
/// the flux stays.
pub proof fn lemma_trigger_lockout(cfg: BeatConfig, s: BeatState, avg_flux: i64, fluxes: Seq<i64>)
    requires
        s.wf(),
        cfg.wf(),
        s.cooldown == 0,
        avg_flux > cfg.threshold,
        fluxes.len() <= cfg.cooldown_ticks,
    ensures
        run_beat(cfg, beat_next(cfg, s, avg_flux), fluxes).hue == (s.hue + cfg.hue_step) % (
        UNIT as int),
        forall|k: int|
            0 <= k < fluxes.len() ==> !beat_fires(
                cfg,
                run_beat(cfg, beat_next(cfg, s, avg_flux), #[trigger] fluxes.take(k)),
                fluxes[k],
            ),
{
    lemma_beat_fire_effect(cfg, s, avg_flux);
    lemma_cooldown_blocks(cfg, beat_next(cfg, s, avg_flux), fluxes);
}

} // verus!
