//! Two-phase weighted progress estimation for one refresh cycle.
//!
//! A cycle has two sequential phases with fixed relative weights: the primary
//! phase (bulk record metadata) carries `W1_NUM / W_DEN` of the total, the
//! secondary phase (per-record detail) the remaining `W2_NUM / W_DEN`. Every
//! load event is mapped to an exact fraction of the whole cycle and an
//! advisory rate.
//!
//! Defined fallbacks (rather than non-numeric values): a tick with
//! `total == 0` contributes nothing beyond the phase floor, and a rate whose
//! elapsed time is zero, or whose denominator would not fit in 64 bits, is
//! reported as zero. The reported fraction is clamped to be non-decreasing
//! over a cycle and to stay inside the current phase's band.

use vstd::prelude::*;

use crate::ratio::Ratio;

verus! {

/// Relative weight of the primary phase, as `W1_NUM / W_DEN`.
pub const W1_NUM: u64 = 7376;

/// Relative weight of the secondary phase, as `W2_NUM / W_DEN`.
pub const W2_NUM: u64 = 2624;

/// Common denominator of the two phase weights.
pub const W_DEN: u64 = 10000;

/// One progress event emitted by the fetch routine during a refresh cycle.
#[derive(Clone, Copy, Debug, PartialEq, Eq)]
pub enum LoadEvent {
    /// The compressed export has been fetched.
    ZipFetched,
    /// `(done, total)` records of the primary phase are processed.
    RecordPhaseTick(u32, u32),
    /// The secondary phase begins.
    SecondaryPhaseStart,
    /// `(done, total)` items of the secondary phase are processed.
    SecondaryPhaseTick(u32, u32),
}

/// Which of the two sequential phases the cycle is currently in.
#[derive(Clone, Copy, Debug, PartialEq, Eq, Structural)]
pub enum Phase {
    Primary,
    Secondary,
}

/// Maps the stream of load events of one refresh cycle to `(fraction, rate)`
/// pairs. Timestamps are supplied by the caller as whole seconds since the
/// cycle started.
#[derive(Clone, Copy, Debug, PartialEq, Eq)]
pub struct ProgressEstimator {
    /// Current phase.
    pub phase: Phase,
    /// Seconds since cycle start at which the secondary phase began.
    pub phase2_start: u64,
    /// Largest fraction reported so far in this cycle.
    pub frac: Ratio,
}

/// The primary-phase weight as a rational.
pub open spec fn w1() -> Ratio {
    Ratio { num: W1_NUM, den: W_DEN }
}

/// The rational one, the fraction of a finished cycle.
pub open spec fn whole() -> Ratio {
    Ratio { num: 1u64, den: 1u64 }
}

/// The rational zero.
pub open spec fn none_done() -> Ratio {
    Ratio { num: 0u64, den: 1u64 }
}

/// `done`, but never more than `total`.
pub open spec fn capped(done: u32, total: u32) -> u64 {
    if done <= total {
        done as u64
    } else {
        total as u64
    }
}

/// Fraction of the whole cycle after a primary-phase tick alone:
/// `w1 * done / total`, with a zero `total` contributing nothing.
pub open spec fn primary_frac(done: u32, total: u32) -> Ratio {
    if total == 0 {
        none_done()
    } else {
        Ratio { num: (W1_NUM * capped(done, total)) as u64, den: (W_DEN * total) as u64 }
    }
}

/// Fraction of the whole cycle after a secondary-phase tick alone:
/// `w1 + w2 * done / total`, with a zero `total` contributing nothing.
pub open spec fn secondary_frac(done: u32, total: u32) -> Ratio {
    if total == 0 {
        w1()
    } else {
        Ratio {
            num: (W1_NUM * total + W2_NUM * capped(done, total)) as u64,
            den: (W_DEN * total) as u64,
        }
    }
}

/// `(num / den) / elapsed`, or zero when the elapsed time is zero or the
/// denominator would not fit in 64 bits.
pub open spec fn rate_of(num: u64, den: u64, elapsed: u64) -> Ratio
    recommends
        den > 0,
{
    if elapsed == 0 {
        Ratio { num: 0u64, den: 1u64 }
    } else if elapsed > u64::MAX as int / den as int {
        Ratio { num: 0u64, den: 1u64 }
    } else {
        Ratio { num: num, den: (den * elapsed) as u64 }
    }
}

impl ProgressEstimator {
    /// Well-formedness: the fraction is a well-formed rational confined to
    /// the current phase's band, `[0, w1]` in the primary phase and
    /// `[w1, 1]` in the secondary phase.
    pub open spec fn wf(self) -> bool {
        &&& self.frac.wf()
        &&& match self.phase {
            Phase::Primary => none_done().le(self.frac) && self.frac.le(w1()),
            Phase::Secondary => w1().le(self.frac) && self.frac.le(whole()),
        }
    }

    /// The estimator state after one event at `now` seconds into the cycle.
    pub open spec fn step(self, ev: LoadEvent, now: u64) -> ProgressEstimator {
        match ev {
            LoadEvent::ZipFetched => self,
            LoadEvent::SecondaryPhaseStart => ProgressEstimator {
                phase: Phase::Secondary,
                phase2_start: now,
                frac: self.frac.spec_max(w1()),
            },
            LoadEvent::RecordPhaseTick(done, total) | LoadEvent::SecondaryPhaseTick(
                done,
                total,
            ) => ProgressEstimator {
                frac: match self.phase {
                    Phase::Primary => self.frac.spec_max(primary_frac(done, total)),
                    Phase::Secondary => self.frac.spec_max(secondary_frac(done, total)),
                },
                ..self
            },
        }
    }

    /// The advisory rate reported for one event at `now` seconds into the
    /// cycle: the tick's own phase-weighted progress over the seconds
    /// elapsed in that phase.
    pub open spec fn step_rate(self, ev: LoadEvent, now: u64) -> Ratio {
        match ev {
            LoadEvent::ZipFetched | LoadEvent::SecondaryPhaseStart => none_done(),
            LoadEvent::RecordPhaseTick(done, total) | LoadEvent::SecondaryPhaseTick(
                done,
                total,
            ) => {
                if total == 0 {
                    none_done()
                } else {
                    match self.phase {
                        Phase::Primary => rate_of(
                            (W1_NUM * capped(done, total)) as u64,
                            (W_DEN * total) as u64,
                            now,
                        ),
                        Phase::Secondary => rate_of(
                            (W2_NUM * capped(done, total)) as u64,
                            (W_DEN * total) as u64,
                            if now >= self.phase2_start {
                                (now - self.phase2_start) as u64
                            } else {
                                0u64
                            },
                        ),
                    }
                }
            },
        }
    }

    /// A fresh estimator at the start of a cycle: primary phase, nothing
    /// done yet.
    pub fn start() -> (r: ProgressEstimator)
        ensures
            r == initial_estimator(),
    {
        ProgressEstimator { phase: Phase::Primary, phase2_start: 0, frac: Ratio::zero() }
    }

    /// Feeds one event into the estimator and returns the `(fraction, rate)`
    /// pair to publish. The fraction never decreases over a cycle.
    pub fn observe(&mut self, ev: LoadEvent, now: u64) -> (r: (Ratio, Ratio))
        requires
            old(self).wf(),
        ensures
            *final(self) == old(self).step(ev, now),
            final(self).wf(),
            r.0 == final(self).frac,
            r.1 == old(self).step_rate(ev, now),
            old(self).frac.le(final(self).frac),
    {
        proof {
            lemma_step_wf(*self, ev, now);
        }
        match ev {
            LoadEvent::ZipFetched => (self.frac, Ratio::zero()),
            LoadEvent::SecondaryPhaseStart => {
                self.phase = Phase::Secondary;
                self.phase2_start = now;
                self.frac = self.frac.max(Ratio { num: W1_NUM, den: W_DEN });
                (self.frac, Ratio::zero())
            },
            LoadEvent::RecordPhaseTick(done, total) | LoadEvent::SecondaryPhaseTick(
                done,
                total,
            ) => {
                let capped_done: u64 = if done <= total {
                    done as u64
                } else {
                    total as u64
                };
                match self.phase {
                    Phase::Primary => {
                        let tick = if total == 0 {
                            Ratio::zero()
                        } else {
                            Ratio { num: W1_NUM * capped_done, den: W_DEN * (total as u64) }
                        };
                        self.frac = self.frac.max(tick);
                        let rate = if total == 0 {
                            Ratio::zero()
                        } else {
                            div_ratio(W1_NUM * capped_done, W_DEN * (total as u64), now)
                        };
                        (self.frac, rate)
                    },
                    Phase::Secondary => {
                        let tick = if total == 0 {
                            Ratio { num: W1_NUM, den: W_DEN }
                        } else {
                            Ratio {
                                num: W1_NUM * (total as u64) + W2_NUM * capped_done,
                                den: W_DEN * (total as u64),
                            }
                        };
                        self.frac = self.frac.max(tick);
                        let rate = if total == 0 {
                            Ratio::zero()
                        } else {
                            let elapsed: u64 = if now >= self.phase2_start {
                                now - self.phase2_start
                            } else {
                                0
                            };
                            div_ratio(W2_NUM * capped_done, W_DEN * (total as u64), elapsed)
                        };
                        (self.frac, rate)
                    },
                }
            },
        }
    }
}

/// The estimator state at the start of a cycle.
pub open spec fn initial_estimator() -> ProgressEstimator {
    ProgressEstimator {
        phase: Phase::Primary,
        phase2_start: 0u64,
        frac: Ratio { num: 0u64, den: 1u64 },
    }
}

/// Divides `num / den` by `elapsed` seconds, with the zero fallbacks of
/// `rate_of`.
fn div_ratio(num: u64, den: u64, elapsed: u64) -> (r: Ratio)
    requires
        den > 0,
    ensures
        r == rate_of(num, den, elapsed),
{
    if elapsed == 0 {
        Ratio { num: 0, den: 1 }
    } else if elapsed > u64::MAX / den {
        Ratio { num: 0, den: 1 }
    } else {
        proof {
            vstd::arithmetic::div_mod::lemma_fundamental_div_mod(u64::MAX as int, den as int);
            vstd::arithmetic::div_mod::lemma_mod_bound(u64::MAX as int, den as int);
            vstd::arithmetic::mul::lemma_mul_inequality(
                elapsed as int,
                u64::MAX as int / den as int,
                den as int,
            );
            vstd::arithmetic::mul::lemma_mul_is_commutative(den as int, elapsed as int);
        }
        Ratio { num: num, den: den * elapsed }
    }
}

/// Stepping a well-formed estimator keeps it well-formed, never decreases
/// the published fraction, and leaves the phase alone except that
/// `SecondaryPhaseStart` moves it to the secondary phase.
pub proof fn lemma_step_wf(est: ProgressEstimator, ev: LoadEvent, now: u64)
    requires
        est.wf(),
    ensures
        est.step(ev, now).wf(),
        est.frac.le(est.step(ev, now).frac),
        est.step(ev, now).phase == if ev is SecondaryPhaseStart {
            Phase::Secondary
        } else {
            est.phase
        },
{
    let post = est.step(ev, now);
    crate::ratio::lemma_ratio_le_refl(est.frac);
    match ev {
        LoadEvent::ZipFetched => {},
        LoadEvent::SecondaryPhaseStart => {
            lemma_w1_le_whole();
            crate::ratio::lemma_ratio_le_refl(w1());
            if est.phase == Phase::Primary {
                crate::ratio::lemma_ratio_le_trans(est.frac, w1(), whole());
            }
        },
        LoadEvent::RecordPhaseTick(done, total) | LoadEvent::SecondaryPhaseTick(done, total) => {
            match est.phase {
                Phase::Primary => {
                    lemma_primary_frac_band(done, total);
                },
                Phase::Secondary => {
                    lemma_secondary_frac_band(done, total);
                },
            }
        },
    }
}

/// The estimator after a whole timestamped event sequence, first event
/// first.
pub open spec fn run_events(est: ProgressEstimator, evs: Seq<(LoadEvent, u64)>) -> ProgressEstimator
    decreases evs.len(),
{
    if evs.len() == 0 {
        est
    } else {
        run_events(est.step(evs[0].0, evs[0].1), evs.drop_first())
    }
}

/// Law: over any event sequence confined to the primary phase (no
/// `SecondaryPhaseStart`), the reported fraction stays within `[0, w1]` and
/// never decreases.
pub proof fn lemma_primary_phase_bounds(est: ProgressEstimator, evs: Seq<(LoadEvent, u64)>)
    requires
        est.wf(),
        est.phase == Phase::Primary,
        forall|i: int| 0 <= i < evs.len() ==> !((#[trigger] evs[i]).0 is SecondaryPhaseStart),
    ensures
        run_events(est, evs).wf(),
        run_events(est, evs).phase == Phase::Primary,
        none_done().le(run_events(est, evs).frac),
        run_events(est, evs).frac.le(w1()),
        est.frac.le(run_events(est, evs).frac),
    decreases evs.len(),
{
    if evs.len() == 0 {
    } else {
        let mid = est.step(evs[0].0, evs[0].1);
        lemma_step_wf(est, evs[0].0, evs[0].1);
        assert(forall|i: int|
            0 <= i < evs.drop_first().len() ==> !((#[trigger] evs.drop_first()[i]).0
                is SecondaryPhaseStart));
        lemma_primary_phase_bounds(mid, evs.drop_first());
        crate::ratio::lemma_ratio_le_trans(est.frac, mid.frac, run_events(est, evs).frac);
    }
}

/// Law: once the cycle has crossed into the secondary phase, the reported
/// fraction stays within `[w1, 1]` and never decreases, whatever events
/// follow.
pub proof fn lemma_secondary_phase_bounds(est: ProgressEstimator, evs: Seq<(LoadEvent, u64)>)
    requires
        est.wf(),
        est.phase == Phase::Secondary,
    ensures
        run_events(est, evs).wf(),
        run_events(est, evs).phase == Phase::Secondary,
        w1().le(run_events(est, evs).frac),
        run_events(est, evs).frac.le(whole()),
        est.frac.le(run_events(est, evs).frac),
    decreases evs.len(),
{
    if evs.len() == 0 {
    } else {
        let mid = est.step(evs[0].0, evs[0].1);
        lemma_step_wf(est, evs[0].0, evs[0].1);
        lemma_secondary_phase_bounds(mid, evs.drop_first());
        crate::ratio::lemma_ratio_le_trans(est.frac, mid.frac, run_events(est, evs).frac);
    }
}

/// `w1 <= 1`.
pub proof fn lemma_w1_le_whole()
    ensures
        w1().le(whole()),
{
}

/// A primary-phase tick's own fraction lies in `[0, w1]`.
pub proof fn lemma_primary_frac_band(done: u32, total: u32)
    ensures
        primary_frac(done, total).wf(),
        none_done().le(primary_frac(done, total)),
        primary_frac(done, total).le(w1()),
{
    if total != 0 {
        assert(primary_frac(done, total).le(w1())) by (nonlinear_arith)
            requires
                total > 0,
                primary_frac(done, total) == (Ratio {
                    num: (W1_NUM * capped(done, total)) as u64,
                    den: (W_DEN * total) as u64,
                }),
                capped(done, total) <= total as u64,
                W1_NUM * capped(done, total) <= u64::MAX,
                W_DEN * total <= u64::MAX,
        ;
    }
}

/// A secondary-phase tick's own fraction lies in `[w1, 1]`.
pub proof fn lemma_secondary_frac_band(done: u32, total: u32)
    ensures
        secondary_frac(done, total).wf(),
        w1().le(secondary_frac(done, total)),
        secondary_frac(done, total).le(whole()),
{
    if total != 0 {
        let f = secondary_frac(done, total);
        assert(w1().le(f) && f.le(whole())) by (nonlinear_arith)
            requires
                total > 0,
                f == (Ratio {
                    num: (W1_NUM * total + W2_NUM * capped(done, total)) as u64,
                    den: (W_DEN * total) as u64,
                }),
                capped(done, total) <= total as u64,
                W1_NUM * total + W2_NUM * capped(done, total) <= u64::MAX,
                W_DEN * total <= u64::MAX,
        ;
    } else {
        crate::ratio::lemma_ratio_le_refl(w1());
        lemma_w1_le_whole();
    }
}

} // verus!
