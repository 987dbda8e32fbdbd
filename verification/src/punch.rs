//! Punch meter: while idle, a forward acceleration above
//! [`START_THRESHOLD_MILLI_G`] starts a measuring window of
//! [`WINDOW_MICROS`]; while the window runs, the largest acceleration seen is
//! kept; when it has run out, that peak is reported and the meter is idle
//! again. Accelerations are in thousandths of g.

use vstd::prelude::*;

verus! {

/// A measurement starts on an acceleration above this many thousandths of g.
pub const START_THRESHOLD_MILLI_G: i32 = 500;

/// Length of a measuring window, in microseconds.
pub const WINDOW_MICROS: u32 = 1_000_000;

/// Whether a window runs, and the peak seen in it so far.
#[derive(PartialEq, Eq, Structural, Debug, Clone, Copy)]
pub enum PunchState {
    /// Waiting for a punch.
    Idle,
    /// A window runs; `peak` is the largest acceleration seen in it.
    Measuring { peak: i32 },
}

/// What the meter asks for after one sample.
#[derive(PartialEq, Eq, Structural, Debug, Clone, Copy)]
pub enum PunchAction {
    /// Nothing to do.
    Nothing,
    /// Announce the start and start a window of [`WINDOW_MICROS`].
    StartWindow,
    /// The window has run out: report this peak.
    ReportPeak(i32),
}

/// The next state and the action for one sample. `window_elapsed` tells
/// whether the running window has run out; it is not looked at while idle.
pub open spec fn punch_transition(state: PunchState, sample: i32, window_elapsed: bool) -> (PunchState, PunchAction) {
    match state {
        PunchState::Idle => if sample > START_THRESHOLD_MILLI_G {
            (PunchState::Measuring { peak: sample }, PunchAction::StartWindow)
        } else {
            (PunchState::Idle, PunchAction::Nothing)
        },
        PunchState::Measuring { peak } => if window_elapsed {
            (PunchState::Idle, PunchAction::ReportPeak(peak))
        } else if sample > peak {
            (PunchState::Measuring { peak: sample }, PunchAction::Nothing)
        } else {
            (PunchState::Measuring { peak }, PunchAction::Nothing)
        },
    }
}

impl PunchState {
    /// An idle meter.
    pub fn new() -> (state: Self)
        ensures
            state == PunchState::Idle,
    {
        PunchState::Idle
    }

    /// Whether a window runs (and so whether its timer has to be asked).
    pub fn is_measuring(&self) -> (measuring: bool)
        ensures
            measuring == (*self is Measuring),
    {
        match self {
            PunchState::Idle => false,
            PunchState::Measuring { .. } => true,
        }
    }

    /// Handles one acceleration sample.
    pub fn step(self, sample: i32, window_elapsed: bool) -> (next: (PunchState, PunchAction))
        ensures
            next == punch_transition(self, sample, window_elapsed),
            self is Idle && sample <= START_THRESHOLD_MILLI_G ==> next == (PunchState::Idle, PunchAction::Nothing),
            self is Idle && sample > START_THRESHOLD_MILLI_G ==> next == (PunchState::Measuring { peak: sample }, PunchAction::StartWindow),
            next.1 is ReportPeak ==> self is Measuring && window_elapsed && next.1->0 == self->peak && next.0 == PunchState::Idle,
            self is Measuring && !window_elapsed ==> next.1 == PunchAction::Nothing && next.0 is Measuring
                && next.0->peak >= self->peak && next.0->peak >= sample
                && (next.0->peak == self->peak || next.0->peak == sample),
    {
        proof { lemma_punch_step_rules(self, sample, window_elapsed); }
        match self {
            PunchState::Idle => {
                if sample > START_THRESHOLD_MILLI_G {
                    (PunchState::Measuring { peak: sample }, PunchAction::StartWindow)
                } else {
                    (PunchState::Idle, PunchAction::Nothing)
                }
            },
            PunchState::Measuring { peak } => {
                if window_elapsed {
                    (PunchState::Idle, PunchAction::ReportPeak(peak))
                } else if sample > peak {
                    (PunchState::Measuring { peak: sample }, PunchAction::Nothing)
                } else {
                    (PunchState::Measuring { peak }, PunchAction::Nothing)
                }
            },
        }
    }
}

/// The rules of one step, for every state and sample: an idle meter starts a
/// window exactly on a sample above the threshold and otherwise does nothing;
/// a peak is reported only from a running window that has run out, and it is
/// that window's peak; while the window runs, the peak becomes the larger of
/// the old peak and the sample, and nothing is asked for.
pub proof fn lemma_punch_step_rules(state: PunchState, sample: i32, elapsed: bool)
    ensures
        state is Idle && sample <= START_THRESHOLD_MILLI_G ==> punch_transition(state, sample, elapsed)
            == (PunchState::Idle, PunchAction::Nothing),
        state is Idle && sample > START_THRESHOLD_MILLI_G ==> punch_transition(state, sample, elapsed)
            == (PunchState::Measuring { peak: sample }, PunchAction::StartWindow),
        punch_transition(state, sample, elapsed).1 is ReportPeak ==> state is Measuring && elapsed
            && punch_transition(state, sample, elapsed).1->0 == state->peak
            && punch_transition(state, sample, elapsed).0 == PunchState::Idle,
        punch_transition(state, sample, elapsed).1 is StartWindow ==> state is Idle && sample > START_THRESHOLD_MILLI_G,
        state is Measuring && !elapsed ==> punch_transition(state, sample, elapsed).1 == PunchAction::Nothing
            && punch_transition(state, sample, elapsed).0 is Measuring
            && punch_transition(state, sample, elapsed).0->peak >= state->peak
            && punch_transition(state, sample, elapsed).0->peak >= sample
            && (punch_transition(state, sample, elapsed).0->peak == state->peak
                || punch_transition(state, sample, elapsed).0->peak == sample),
{
}

/// The state after feeding `events` (sample, window elapsed) one after
/// another to `state`.
pub open spec fn punch_run(state: PunchState, events: Seq<(i32, bool)>) -> PunchState
    decreases events.len(),
{
    if events.len() == 0 {
        state
    } else {
        punch_transition(punch_run(state, events.drop_last()), events.last().0, events.last().1).0
    }
}

/// Samples that arrive while the window still runs.
pub open spec fn while_running(samples: Seq<i32>) -> Seq<(i32, bool)> {
    samples.map_values(|v: i32| (v, false))
}

/// The largest of `first` and `rest`.
pub open spec fn largest(first: i32, rest: Seq<i32>) -> i32
    decreases rest.len(),
{
    if rest.len() == 0 {
        first
    } else {
        let m = largest(first, rest.drop_last());
        if rest.last() > m {
            rest.last()
        } else {
            m
        }
    }
}

/// `largest` is one of the values and no value exceeds it.
pub proof fn lemma_largest_is_maximum(first: i32, rest: Seq<i32>)
    ensures
        largest(first, rest) >= first,
        forall|i: int| 0 <= i < rest.len() ==> largest(first, rest) >= #[trigger] rest[i],
        largest(first, rest) == first || exists|i: int| 0 <= i < rest.len() && largest(first, rest) == rest[i],
    decreases rest.len(),
{
    if rest.len() > 0 {
        let init = rest.drop_last();
        lemma_largest_is_maximum(first, init);
        assert forall|i: int| 0 <= i < rest.len() implies largest(first, rest) >= #[trigger] rest[i] by {
            if i < init.len() {
                assert(rest[i] == init[i]);
            }
        }
        if largest(first, rest) != first && rest.last() <= largest(first, init) {
            let k = choose|k: int| 0 <= k < init.len() && largest(first, init) == init[k];
            assert(rest[k] == init[k]);
        }
    }
}

/// While the window runs, the kept peak is the largest acceleration seen
/// since the window started.
pub proof fn lemma_peak_is_largest(first: i32, samples: Seq<i32>)
    ensures
        punch_run(PunchState::Measuring { peak: first }, while_running(samples))
            == (PunchState::Measuring { peak: largest(first, samples) }),
    decreases samples.len(),
{
    if samples.len() > 0 {
        let init = samples.drop_last();
        lemma_peak_is_largest(first, init);
        assert(while_running(samples).drop_last() =~= while_running(init));
    } else {
        assert(while_running(samples) =~= Seq::<(i32, bool)>::empty());
    }
}

/// A punch: an acceleration above the threshold starts a window, every
/// sample while it runs asks for nothing, and the sample that finds it run
/// out reports the largest acceleration seen from the start of the window,
/// after which the meter is idle.
pub proof fn lemma_punch_reports_peak(first: i32, samples: Seq<i32>, last: i32, elapsed_at_start: bool)
    requires
        first > START_THRESHOLD_MILLI_G,
    ensures
        punch_transition(PunchState::Idle, first, elapsed_at_start)
            == (PunchState::Measuring { peak: first }, PunchAction::StartWindow),
        forall|i: int|
            0 <= i < samples.len() ==> (#[trigger] punch_transition(
                punch_run(PunchState::Measuring { peak: first }, while_running(samples.take(i))),
                samples[i],
                false,
            )).1 == PunchAction::Nothing,
        punch_transition(punch_run(PunchState::Measuring { peak: first }, while_running(samples)), last, true)
            == (PunchState::Idle, PunchAction::ReportPeak(largest(first, samples))),
        largest(first, samples) >= first,
        forall|i: int| 0 <= i < samples.len() ==> largest(first, samples) >= #[trigger] samples[i],
{
    lemma_peak_is_largest(first, samples);
    lemma_largest_is_maximum(first, samples);
    assert forall|i: int|
        0 <= i < samples.len() implies (#[trigger] punch_transition(
            punch_run(PunchState::Measuring { peak: first }, while_running(samples.take(i))),
            samples[i],
            false,
        )).1 == PunchAction::Nothing by {
        lemma_peak_is_largest(first, samples.take(i));
    }
}

/// Samples at or below the threshold never start a window.
pub proof fn lemma_quiet_stays_idle(events: Seq<(i32, bool)>)
    requires
        forall|i: int| 0 <= i < events.len() ==> (#[trigger] events[i]).0 <= START_THRESHOLD_MILLI_G,
    ensures
        punch_run(PunchState::Idle, events) == PunchState::Idle,
    decreases events.len(),
{
    if events.len() > 0 {
        let init = events.drop_last();
        assert forall|i: int| 0 <= i < init.len() implies (#[trigger] init[i]).0 <= START_THRESHOLD_MILLI_G by {
            assert(init[i] == events[i]);
        }
        lemma_quiet_stays_idle(init);
        assert(events[events.len() - 1].0 <= START_THRESHOLD_MILLI_G);
    }
}

} // verus!
