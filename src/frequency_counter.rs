//! An adaptive estimate of how likely the next event is to be a sunray rather
//! than an asteroid.
//!
//! Two intensities, one per kind of event, decay exponentially with a shared
//! half-life; each event adds a fixed impulse to its own intensity. The estimate
//! is the sunray intensity's share of the total. Times are readings of a
//! monotonic clock in nanoseconds, handed in by the caller.
use crate::fixed_point::{
    compute_decay_factor, decay_factor, favorable_share, lemma_decay_factor_bounded,
    lemma_scale_by_bounded, lemma_share_balanced, lemma_share_bounded, lemma_share_monotone,
    saturating_sum, scale, scale_by, share, LN2_E18, PROBABILITY_HALF, PROBABILITY_ONE,
};
use vstd::prelude::*;

verus! {

/// The intensity each kind of event starts with: half an event per second.
pub const INITIAL_INTENSITY: u64 = 500_000_000;

/// What a `FrequencyCounter` holds.
pub struct CounterState {
    /// Half-life of the decay, in nanoseconds.
    pub half_life: u64,
    /// Added to an intensity when its event occurs: `ln 2 / half_life`.
    pub impulse: u64,
    pub sun_intensity: u64,
    pub asteroid_intensity: u64,
    /// When the decay was last applied.
    pub last_update: Option<u64>,
    /// Cached estimate that the next event is a sunray, in parts per billion.
    pub sunray_probability: u32,
    /// A passive read decays only once at least this much time has passed.
    pub min_time_constant: u64,
    pub stop_time: Option<u64>,
    pub restart_time: Option<u64>,
}

/// Time from `from` to `to`, or zero when `to` is earlier.
pub open spec fn elapsed_between(from: u64, to: u64) -> u64 {
    if to >= from {
        (to - from) as u64
    } else {
        0
    }
}

impl CounterState {
    pub open spec fn wf(self) -> bool {
        &&& self.half_life > 0
        &&& self.impulse == LN2_E18 / self.half_life
        &&& self.sunray_probability <= PROBABILITY_ONE
    }

    /// The state of a new counter. A zero half-life is taken as one nanosecond.
    pub open spec fn initial(half_life: u64, min_time_constant: u64) -> CounterState {
        let h: u64 = if half_life == 0 {
            1
        } else {
            half_life
        };
        CounterState {
            half_life: h,
            impulse: (LN2_E18 / h) as u64,
            sun_intensity: INITIAL_INTENSITY,
            asteroid_intensity: INITIAL_INTENSITY,
            last_update: None,
            sunray_probability: PROBABILITY_HALF,
            min_time_constant,
            stop_time: None,
            restart_time: None,
        }
    }

    /// The cached estimate recomputed from the intensities.
    pub open spec fn with_share(self) -> CounterState {
        CounterState {
            sunray_probability: favorable_share(
                self.sun_intensity as int,
                self.asteroid_intensity as int,
            ) as u32,
            ..self
        }
    }

    /// The decay applied at time `now`. Without a previous update it only sets
    /// the baseline. A passive (`!force`) decay is skipped while less than
    /// `min_time_constant` has passed, and does not touch the cached estimate.
    pub open spec fn decayed(self, now: u64, force: bool) -> CounterState {
        match self.last_update {
            None => CounterState { last_update: Some(now), ..self },
            Some(last) => {
                let elapsed = elapsed_between(last, now);
                if !force && elapsed < self.min_time_constant {
                    self
                } else {
                    let f = decay_factor(elapsed as int, self.half_life as int);
                    let d = CounterState {
                        sun_intensity: scale_by(self.sun_intensity as int, f) as u64,
                        asteroid_intensity: scale_by(self.asteroid_intensity as int, f) as u64,
                        last_update: Some(now),
                        ..self
                    };
                    if force {
                        d.with_share()
                    } else {
                        d
                    }
                }
            },
        }
    }

    /// The state after a sunray (`is_sunray`) or an asteroid at time `now`.
    pub open spec fn after_event(self, now: u64, is_sunray: bool) -> CounterState {
        let d = self.decayed(now, true);
        let bumped = if is_sunray {
            CounterState { sun_intensity: saturating_sum(d.sun_intensity, d.impulse), ..d }
        } else {
            CounterState {
                asteroid_intensity: saturating_sum(d.asteroid_intensity, d.impulse),
                ..d
            }
        };
        bumped.with_share()
    }

    /// The state after a restart at `now`: the time since the last stop is
    /// added to `last_update`, so that no decay accrues for it.
    pub open spec fn after_restart(self, now: u64) -> CounterState {
        let r = CounterState { restart_time: Some(now), ..self };
        match (self.stop_time, self.last_update) {
            (Some(stop), Some(last)) => CounterState {
                last_update: Some(saturating_sum(last, elapsed_between(stop, now))),
                ..r
            },
            _ => r,
        }
    }

    /// The state after a stop at `now`.
    pub open spec fn after_stop(self, now: u64) -> CounterState {
        CounterState { stop_time: Some(now), ..self }
    }
    /// The cached estimate is the sunray intensity's share, as it is after
    /// construction and after every event.
    pub open spec fn estimate_is_current(self) -> bool {
        self.sunray_probability == favorable_share(
            self.sun_intensity as int,
            self.asteroid_intensity as int,
        )
    }

    /// The state after a sunray at each of `times`, in order.
    pub open spec fn after_sunrays(self, times: Seq<u64>) -> CounterState
        decreases times.len(),
    {
        if times.len() == 0 {
            self
        } else {
            self.after_sunrays(times.drop_last()).after_event(times.last(), true)
        }
    }

    /// The state after, at each of `times` in order, a sunray and then an
    /// asteroid at that same instant.
    pub open spec fn after_paired_events(self, times: Seq<u64>) -> CounterState
        decreases times.len(),
    {
        if times.len() == 0 {
            self
        } else {
            self.after_paired_events(times.drop_last()).after_event(times.last(), true).after_event(
                times.last(),
                false,
            )
        }
    }
}

/// A counter reports one half on its first read after construction, whatever
/// its half-life and throttle and whenever that read happens.
pub proof fn lemma_new_counter_reports_half(half_life: u64, min_time_constant: u64, now: u64)
    ensures
        CounterState::initial(half_life, min_time_constant).decayed(now, false).sunray_probability
            == PROBABILITY_HALF,
{
}

/// A new counter is well formed and its estimate is current; its impulse is
/// positive unless the half-life exceeds `LN2_E18` nanoseconds.
pub proof fn lemma_new_counter_is_current(half_life: u64, min_time_constant: u64)
    ensures
        CounterState::initial(half_life, min_time_constant).wf(),
        CounterState::initial(half_life, min_time_constant).estimate_is_current(),
        half_life <= LN2_E18 ==> CounterState::initial(half_life, min_time_constant).impulse > 0,
{
    lemma_share_balanced(INITIAL_INTENSITY as int);
    let h: int = if half_life == 0 {
        1
    } else {
        half_life as int
    };
    if half_life <= LN2_E18 {
        vstd::arithmetic::div_mod::lemma_div_is_ordered_by_denominator(LN2_E18 as int, h, LN2_E18 as int);
        vstd::arithmetic::div_mod::lemma_div_by_self(LN2_E18 as int);
    }
}

/// A sunray never lowers an estimate that is current, and leaves it current.
pub proof fn lemma_sunray_never_lowers(s: CounterState, now: u64)
    requires
        s.wf(),
        s.impulse > 0,
        s.estimate_is_current(),
    ensures
        s.after_event(now, true).sunray_probability >= s.sunray_probability,
        s.after_event(now, true).estimate_is_current(),
        s.after_event(now, true).wf(),
        s.after_event(now, true).impulse == s.impulse,
{
    let f = s.sun_intensity as int;
    let h = s.asteroid_intensity as int;
    let factor = match s.last_update {
        None => PROBABILITY_ONE as int,
        Some(last) => decay_factor(elapsed_between(last, now) as int, s.half_life as int),
    };
    if let Some(last) = s.last_update {
        lemma_decay_factor_bounded(elapsed_between(last, now) as int, s.half_life as int);
    }
    lemma_scale_by_bounded(f, factor);
    lemma_scale_by_bounded(h, factor);
    let d = s.decayed(now, true);
    assert(d.sun_intensity == scale_by(f, factor));
    assert(d.asteroid_intensity == scale_by(h, factor));
    let f1 = d.sun_intensity as int;
    let h1 = d.asteroid_intensity as int;
    let f2 = saturating_sum(d.sun_intensity, d.impulse) as int;
    let one = PROBABILITY_ONE as int;
    vstd::arithmetic::div_mod::lemma_fundamental_div_mod(f * factor, one);
    vstd::arithmetic::div_mod::lemma_mod_pos_bound(f * factor, one);
    vstd::arithmetic::div_mod::lemma_fundamental_div_mod(h * factor, one);
    vstd::arithmetic::div_mod::lemma_mod_pos_bound(h * factor, one);
    assert(f2 * h >= f * h1) by {
        if f1 + s.impulse > u64::MAX {
            assert(f2 * h >= f * h) by (nonlinear_arith)
                requires
                    f2 == u64::MAX,
                    f <= u64::MAX,
                    h >= 0,
            ;
            assert(f * h >= f * h1) by (nonlinear_arith)
                requires
                    h1 <= h,
                    f >= 0,
            ;
        } else {
            assert(f2 * h >= f * h1) by (nonlinear_arith)
                requires
                    f2 == f1 + s.impulse,
                    s.impulse >= 1,
                    f * factor == one * f1 + (f * factor) % one,
                    (f * factor) % one < one,
                    h * factor == one * h1 + (h * factor) % one,
                    (h * factor) % one >= 0,
                    one > 0,
                    f >= 0,
                    h >= 0,
                    h1 >= 0,
            ;
        }
    }
    if f + h == 0 {
        assert(h == 0);
        assert(h1 == 0);
    }
    lemma_share_monotone(f, h, f2, h1);
    lemma_share_bounded(f2, h1);
}

/// Through any run of sunrays, starting from a current estimate, the estimate
/// never decreases: it is at least as high after `j` of them as after `i <= j`.
pub proof fn lemma_sunrays_never_lower(s: CounterState, times: Seq<u64>)
    requires
        s.wf(),
        s.impulse > 0,
        s.estimate_is_current(),
    ensures
        forall|i: int, j: int|
            0 <= i <= j <= times.len() ==> s.after_sunrays(times.take(i)).sunray_probability
                <= s.after_sunrays(times.take(j)).sunray_probability,
{
    assert forall|i: int, j: int| 0 <= i <= j <= times.len() implies s.after_sunrays(
        times.take(i),
    ).sunray_probability <= s.after_sunrays(times.take(j)).sunray_probability by {
        lemma_sunray_prefixes(s, times, j);
    }
}

proof fn lemma_sunray_prefixes(s: CounterState, times: Seq<u64>, j: int)
    requires
        s.wf(),
        s.impulse > 0,
        s.estimate_is_current(),
        0 <= j <= times.len(),
    ensures
        s.after_sunrays(times.take(j)).wf(),
        s.after_sunrays(times.take(j)).impulse == s.impulse,
        s.after_sunrays(times.take(j)).estimate_is_current(),
        forall|i: int|
            0 <= i <= j ==> s.after_sunrays(times.take(i)).sunray_probability
                <= s.after_sunrays(times.take(j)).sunray_probability,
    decreases j,
{
    if j == 0 {
        assert(times.take(0) =~= Seq::<u64>::empty());
    } else {
        lemma_sunray_prefixes(s, times, j - 1);
        assert(times.take(j).drop_last() =~= times.take(j - 1));
        let prev = s.after_sunrays(times.take(j - 1));
        lemma_sunray_never_lowers(prev, times[j - 1]);
        assert(s.after_sunrays(times.take(j)) == prev.after_event(times[j - 1], true));
    }
}

/// With equal intensities, a sunray followed by an asteroid at the same
/// instant leaves them equal and the estimate at exactly one half.
pub proof fn lemma_paired_events_balance(s: CounterState, t: u64)
    requires
        s.wf(),
        s.sun_intensity == s.asteroid_intensity,
    ensures
        s.after_event(t, true).after_event(t, false).sun_intensity == s.after_event(
            t,
            true,
        ).after_event(t, false).asteroid_intensity,
        s.after_event(t, true).after_event(t, false).sunray_probability == PROBABILITY_HALF,
        s.after_event(t, true).after_event(t, false).wf(),
{
    let a = s.after_event(t, true);
    lemma_share_bounded(a.sun_intensity as int, a.asteroid_intensity as int);
    lemma_decay_factor_bounded(0, a.half_life as int);
    assert(elapsed_between(t, t) == 0);
    lemma_scale_by_bounded(a.sun_intensity as int, PROBABILITY_ONE as int);
    lemma_scale_by_bounded(a.asteroid_intensity as int, PROBABILITY_ONE as int);
    let b = a.after_event(t, false);
    lemma_share_balanced(b.sun_intensity as int);
}

/// Equal numbers of sunrays and asteroids, each sunray paired with an asteroid
/// at the same instant, bring the estimate to exactly one half.
pub proof fn lemma_symmetric_events_give_half(s: CounterState, times: Seq<u64>)
    requires
        s.wf(),
        s.sun_intensity == s.asteroid_intensity,
        times.len() > 0,
    ensures
        s.after_paired_events(times).sunray_probability == PROBABILITY_HALF,
    decreases times.len(),
{
    lemma_paired_balance_kept(s, times);
}

proof fn lemma_paired_balance_kept(s: CounterState, times: Seq<u64>)
    requires
        s.wf(),
        s.sun_intensity == s.asteroid_intensity,
    ensures
        s.after_paired_events(times).wf(),
        s.after_paired_events(times).sun_intensity == s.after_paired_events(
            times,
        ).asteroid_intensity,
        times.len() > 0 ==> s.after_paired_events(times).sunray_probability == PROBABILITY_HALF,
    decreases times.len(),
{
    if times.len() > 0 {
        lemma_paired_balance_kept(s, times.drop_last());
        lemma_paired_events_balance(s.after_paired_events(times.drop_last()), times.last());
    }
}

/// Stopping and restarting at the same instant leaves `last_update` as it was.
pub proof fn lemma_instant_pause_keeps_last_update(s: CounterState, t: u64)
    ensures
        s.after_stop(t).after_restart(t).last_update == s.last_update,
{
    assert(elapsed_between(t, t) == 0);
}

/// Estimates the probability that the next event is a sunray.
pub struct FrequencyCounter {
    half_life: u64,
    impulse: u64,
    sun_intensity: u64,
    asteroid_intensity: u64,
    last_update: Option<u64>,
    sunray_probability: u32,
    min_time_constant: u64,
    stop_time: Option<u64>,
    restart_time: Option<u64>,
}

impl View for FrequencyCounter {
    type V = CounterState;

    closed spec fn view(&self) -> CounterState {
        CounterState {
            half_life: self.half_life,
            impulse: self.impulse,
            sun_intensity: self.sun_intensity,
            asteroid_intensity: self.asteroid_intensity,
            last_update: self.last_update,
            sunray_probability: self.sunray_probability,
            min_time_constant: self.min_time_constant,
            stop_time: self.stop_time,
            restart_time: self.restart_time,
        }
    }
}

impl FrequencyCounter {
    #[verifier::type_invariant]
    spec fn inv(&self) -> bool {
        self@.wf()
    }

    /// A counter whose intensities halve every `half_life` nanoseconds, and
    /// whose passive reads decay at most once per `min_time_constant`
    /// nanoseconds. Both intensities start at one half, and so does the estimate.
    pub fn new(half_life: u64, min_time_constant: u64) -> (r: FrequencyCounter)
        ensures
            r@ == CounterState::initial(half_life, min_time_constant),
            r@.wf(),
    {
        let h: u64 = if half_life == 0 {
            1
        } else {
            half_life
        };
        FrequencyCounter {
            half_life: h,
            impulse: LN2_E18 / h,
            sun_intensity: INITIAL_INTENSITY,
            asteroid_intensity: INITIAL_INTENSITY,
            last_update: None,
            sunray_probability: PROBABILITY_HALF,
            min_time_constant,
            stop_time: None,
            restart_time: None,
        }
    }

    /// When the decay was last applied, if ever.
    pub fn last_update(&self) -> (r: Option<u64>)
        ensures
            r == self@.last_update,
    {
        self.last_update
    }

    /// Records a sunray at time `now`.
    pub fn update_sunray(&mut self, now: u64)
        ensures
            final(self)@ == old(self)@.after_event(now, true),
            final(self)@.wf(),
    {
        proof {
            use_type_invariant(&*self);
        }
        self.update_event(now, true);
    }

    /// Records an asteroid at time `now`.
    pub fn update_asteroid(&mut self, now: u64)
        ensures
            final(self)@ == old(self)@.after_event(now, false),
            final(self)@.wf(),
    {
        proof {
            use_type_invariant(&*self);
        }
        self.update_event(now, false);
    }

    fn update_event(&mut self, now: u64, is_sunray: bool)
        ensures
            final(self)@ == old(self)@.after_event(now, is_sunray),
            final(self)@.wf(),
    {
        proof {
            use_type_invariant(&*self);
        }
        self.update_no_event(now, true);
        if is_sunray {
            self.sun_intensity = self.sun_intensity.saturating_add(self.impulse);
        } else {
            self.asteroid_intensity = self.asteroid_intensity.saturating_add(self.impulse);
        }
        self.update_probability();
    }

    fn update_no_event(&mut self, now: u64, force_decay: bool)
        ensures
            final(self)@ == old(self)@.decayed(now, force_decay),
            final(self)@.wf(),
    {
        proof {
            use_type_invariant(&*self);
        }
        match self.last_update {
            Some(last) => {
                let elapsed: u64 = now.saturating_sub(last);
                if !force_decay && elapsed < self.min_time_constant {
                    return;
                }
                let factor: u64 = compute_decay_factor(elapsed, self.half_life);
                self.sun_intensity = scale(self.sun_intensity, factor);
                self.asteroid_intensity = scale(self.asteroid_intensity, factor);
                self.last_update = Some(now);
                if force_decay {
                    self.update_probability();
                }
            },
            None => {
                self.last_update = Some(now);
            },
        }
    }

    fn update_probability(&mut self)
        ensures
            final(self)@ == old(self)@.with_share(),
            final(self)@.wf(),
    {
        proof {
            use_type_invariant(&*self);
        }
        self.sunray_probability = share(self.sun_intensity, self.asteroid_intensity);
    }

    /// Resumes at time `now`: the time spent stopped is skipped by the decay.
    pub fn restart(&mut self, now: u64)
        ensures
            final(self)@ == old(self)@.after_restart(now),
            final(self)@.wf(),
    {
        proof {
            use_type_invariant(&*self);
        }
        self.restart_time = Some(now);
        if let (Some(stop), Some(restart), Some(last)) = (
            self.stop_time,
            self.restart_time,
            self.last_update,
        ) {
            let stopped_duration: u64 = restart.saturating_sub(stop);
            self.last_update = Some(last.saturating_add(stopped_duration));
        }
    }

    /// Marks time `now` as the moment the counter was stopped.
    pub fn stop(&mut self, now: u64)
        ensures
            final(self)@ == old(self)@.after_stop(now),
            final(self)@.wf(),
    {
        proof {
            use_type_invariant(&*self);
        }
        self.stop_time = Some(now);
    }

    /// The estimate that the next event is a sunray, in parts per billion,
    /// after a passive decay at time `now`.
    pub fn sunray_probability(&mut self, now: u64) -> (r: u32)
        ensures
            final(self)@ == old(self)@.decayed(now, false),
            final(self)@.wf(),
            r == final(self)@.sunray_probability,
            r <= PROBABILITY_ONE,
    {
        proof {
            use_type_invariant(&*self);
        }
        self.update_no_event(now, false);
        self.sunray_probability
    }
}

} // verus!
