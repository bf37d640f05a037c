//! The course of a validator through elections.
use crate::elect::config::Timeline;
use vstd::prelude::*;

verus! {

/// The greatest difference between clocks that is considered, in seconds.
pub const MAX_TIME_DIFF: u32 = 600;

/// How long failed elections are waited for, in seconds.
pub const FAILED_ELECTIONS_INTERVAL: u32 = 300;

/// The pause when the elector knows of no elections, in seconds.
pub const EMPTY_ELECTIONS_INTERVAL: u32 = 60;

/// The least time for an attempt, in seconds.
pub const MIN_ELECTION_DEADLINE: u32 = 60;

/// The least pause after an attempt, in seconds.
pub const MIN_ELECTION_INTERVAL: u32 = 60;

/// The least pause between two iterations, in seconds.
pub const MIN_INTERVAL: u32 = 10;

/// The settings of the loop, in seconds.
#[derive(Clone, Copy, Debug, PartialEq, Eq, Structural)]
pub struct RunConfig {
    /// How long to wait after stakes are unfrozen.
    pub stake_unfreeze_offset: u32,
    /// How long to do nothing after the elections start.
    pub elections_start_offset: u32,
    /// How long before their end to stop.
    pub elections_end_offset: u32,
    /// Whether stakes are sent without a random delay.
    pub disable_random_shift: bool,
}

/// The state of the loop.
#[derive(Clone, Copy, Debug)]
pub struct RunState {
    pub first_iteration: bool,
    /// The random delay, drawn once for each election.
    pub random_shift: Option<u32>,
    /// The next pause.
    pub interval: u32,
}

/// What is known at an iteration.
#[derive(Clone, Copy, Debug)]
pub struct Observed {
    pub now: u32,
    /// The time of the last known state.
    pub gen_utime: u32,
    pub timeline: Timeline,
    /// Whether the elector has elections.
    pub has_elections: bool,
}

/// What an iteration does.
#[derive(Clone, Copy, Debug, PartialEq, Eq, Structural)]
pub enum Step {
    /// It is over, and the next one comes after the pause.
    Wait,
    /// It takes part in the elections that end at the given time.
    Participate { elections_end: u32 },
}

/// How old the last known state is, within limits.
pub open spec fn time_diff(now: u32, gen_utime: u32) -> u32 {
    let diff = crate::elect::config::minus(now, gen_utime);
    if diff < MAX_TIME_DIFF {
        diff
    } else {
        MAX_TIME_DIFF
    }
}

/// The range of random delays: the first quarter of the time in which stakes can
/// be sent.
pub open spec fn shift_range(config: RunConfig, since: u32, until: u32) -> u32 {
    let whole = (since + until) as u32;
    let middle = crate::elect::config::minus(whole, config.elections_end_offset);
    crate::elect::config::minus(middle, config.elections_start_offset) / 4
}

/// Whether a random delay has to be drawn: between zero and the range.
pub open spec fn needs_shift(config: RunConfig, state: RunState, timeline: Timeline) -> bool {
    timeline is Elections && state.random_shift is None && !config.disable_random_shift
}

/// The random delay that holds during elections.
pub open spec fn shift_of(config: RunConfig, state: RunState, drawn: u32) -> u32 {
    match state.random_shift {
        Some(shift) => shift,
        None => if config.disable_random_shift {
            0
        } else {
            drawn
        },
    }
}

/// What is done about the course of elections: the pause, or the end of the
/// elections to take part in.
pub open spec fn course(config: RunConfig, state: RunState, seen: Observed, drawn: u32) -> Result<
    u32,
    u32,
> {
    match seen.timeline {
        Timeline::BeforeElections { until_elections_start } => Err(
            (until_elections_start + config.elections_start_offset) as u32,
        ),
        Timeline::Elections { since_elections_start, until_elections_end, elections_end } => {
            let start_offset = config.elections_start_offset + shift_of(config, state, drawn);
            if start_offset > since_elections_start {
                Err((start_offset - since_elections_start) as u32)
            } else if start_offset < since_elections_start && until_elections_end
                <= config.elections_end_offset {
                Err((config.elections_end_offset - until_elections_end) as u32)
            } else {
                Ok(elections_end)
            }
        },
        Timeline::AfterElections { until_round_end } => if seen.has_elections && until_round_end
            == 0 {
            Ok(
                (seen.gen_utime + time_diff(seen.now, seen.gen_utime)
                    + FAILED_ELECTIONS_INTERVAL) as u32,
            )
        } else {
            Err(until_round_end)
        },
    }
}

/// Whether no sum of what is observed that is used is too great for 32 bits.
pub open spec fn sums_fit(config: RunConfig, state: RunState, seen: Observed, drawn: u32) -> bool {
    match seen.timeline {
        Timeline::BeforeElections { until_elections_start } => until_elections_start
            + config.elections_start_offset <= u32::MAX,
        Timeline::Elections { .. } => config.elections_start_offset + shift_of(
            config,
            state,
            drawn,
        ) <= u32::MAX,
        Timeline::AfterElections { until_round_end } => seen.has_elections && until_round_end == 0
            ==> seen.gen_utime + time_diff(seen.now, seen.gen_utime) + FAILED_ELECTIONS_INTERVAL
            <= u32::MAX,
    }
}

impl RunState {
    /// The state before the first iteration.
    pub fn new() -> (r: Self)
        ensures
            r == (RunState { first_iteration: true, random_shift: None, interval: 0 }),
    {
        RunState { first_iteration: true, random_shift: None, interval: 0 }
    }

    /// Begins an iteration: says whether it is a repetition, which means that the
    /// one before went well, and how long to pause first.
    pub fn begin(&mut self) -> (r: (bool, u32))
        ensures
            r.0 == !old(self).first_iteration,
            r.1 == final(self).interval,
            *final(self) == (RunState {
                first_iteration: false,
                random_shift: old(self).random_shift,
                interval: if old(self).interval < MIN_INTERVAL {
                    MIN_INTERVAL
                } else {
                    old(self).interval
                },
            }),
    {
        let repeated = !self.first_iteration;
        self.first_iteration = false;
        if self.interval < MIN_INTERVAL {
            self.interval = MIN_INTERVAL;
        }
        (repeated, self.interval)
    }

    /// The range from which a random delay has to be drawn, if it has to.
    pub fn range_to_draw(&self, config: &RunConfig, timeline: &Timeline) -> (r: Option<u32>)
        requires
            needs_shift(*config, *self, *timeline) ==> (*timeline)->since_elections_start + (
            *timeline)->until_elections_end <= u32::MAX,
        ensures
            match *timeline {
                Timeline::Elections { since_elections_start, until_elections_end, .. } => r == (
                if needs_shift(*config, *self, *timeline) {
                    Some(shift_range(*config, since_elections_start, until_elections_end))
                } else {
                    None::<u32>
                }),
                _ => r is None,
            },
    {
        if self.random_shift.is_some() || config.disable_random_shift {
            return None;
        }
        match timeline {
            Timeline::Elections { since_elections_start, until_elections_end, .. } => {
                let whole: u32 = *since_elections_start + *until_elections_end;
                Some(
                    whole.saturating_sub(config.elections_end_offset).saturating_sub(
                        config.elections_start_offset,
                    ) / 4,
                )
            },
            _ => None,
        }
    }

    /// Decides what to do in the course of elections. `drawn` is the random
    /// delay, where one had to be drawn.
    pub fn on_observed(&mut self, config: &RunConfig, seen: &Observed, drawn: u32) -> (r: Step)
        requires
            sums_fit(*config, *old(self), *seen, drawn),
        ensures
            final(self).first_iteration == old(self).first_iteration,
            final(self).random_shift == (match seen.timeline {
                Timeline::BeforeElections { .. } => None::<u32>,
                Timeline::Elections { .. } => Some(shift_of(*config, *old(self), drawn)),
                Timeline::AfterElections { .. } => old(self).random_shift,
            }),
            match course(*config, *old(self), *seen, drawn) {
                Err(pause) => r == Step::Wait && final(self).interval == pause,
                Ok(elections_end) => if seen.has_elections {
                    r == (Step::Participate { elections_end }) && final(self).interval == old(
                        self,
                    ).interval
                } else {
                    r == Step::Wait && final(self).interval == (if time_diff(
                        seen.now,
                        seen.gen_utime,
                    ) > EMPTY_ELECTIONS_INTERVAL {
                        time_diff(seen.now, seen.gen_utime)
                    } else {
                        EMPTY_ELECTIONS_INTERVAL
                    })
                },
            },
    {
        let diff: u32 = compute_time_diff(seen.now, seen.gen_utime);
        let elections_end: u32 = match seen.timeline {
            Timeline::BeforeElections { until_elections_start } => {
                self.random_shift = None;
                self.interval = until_elections_start + config.elections_start_offset;
                return Step::Wait;
            },
            Timeline::Elections { since_elections_start, until_elections_end, elections_end } => {
                let shift: u32 = match self.random_shift {
                    Some(shift) => shift,
                    None => if config.disable_random_shift {
                        0
                    } else {
                        drawn
                    },
                };
                self.random_shift = Some(shift);
                let start_offset: u32 = config.elections_start_offset + shift;
                if let Some(offset) = start_offset.checked_sub(since_elections_start) {
                    if offset > 0 {
                        self.interval = offset;
                        return Step::Wait;
                    }
                } else if let Some(offset) = config.elections_end_offset.checked_sub(
                    until_elections_end,
                ) {
                    self.interval = offset;
                    return Step::Wait;
                }
                elections_end
            },
            Timeline::AfterElections { until_round_end } => {
                if !(seen.has_elections && until_round_end == 0) {
                    self.interval = until_round_end;
                    return Step::Wait;
                }
                seen.gen_utime + diff + FAILED_ELECTIONS_INTERVAL
            },
        };
        if !seen.has_elections {
            self.interval = if diff > EMPTY_ELECTIONS_INTERVAL {
                diff
            } else {
                EMPTY_ELECTIONS_INTERVAL
            };
            return Step::Wait;
        }
        Step::Participate { elections_end }
    }

    /// Decides whether stakes that are frozen have to be waited for. It is of no
    /// use if they unfreeze after the time for sending one.
    pub fn on_frozen(
        &mut self,
        config: &RunConfig,
        elections_end: u32,
        unfreeze_at: Option<u32>,
        now: u32,
        diff: u32,
    ) -> (r: Step)
        requires
            unfreeze_at matches Some(at) ==> at + config.stake_unfreeze_offset <= u32::MAX && at
                + config.stake_unfreeze_offset - now + diff <= u32::MAX,
        ensures
            final(self).first_iteration == old(self).first_iteration,
            final(self).random_shift == old(self).random_shift,
            ({
                let at = unfreeze_at->0 + config.stake_unfreeze_offset;
                if unfreeze_at is Some && now < at <= crate::elect::config::minus(
                    elections_end,
                    config.elections_end_offset,
                ) {
                    r == Step::Wait && final(self).interval == at - now + diff
                } else {
                    r == (Step::Participate { elections_end }) && final(self).interval == old(
                        self,
                    ).interval
                }
            }),
    {
        if let Some(at) = unfreeze_at {
            let at: u32 = at + config.stake_unfreeze_offset;
            if at <= elections_end.saturating_sub(config.elections_end_offset) {
                if let Some(until_unfreeze) = at.checked_sub(now) {
                    if until_unfreeze > 0 {
                        self.interval = until_unfreeze + diff;
                        return Step::Wait;
                    }
                }
            }
        }
        Step::Participate { elections_end }
    }

    /// The pause after an attempt: until the elections end, but not too short.
    pub fn finish(&mut self, elections_end: u32, now: u32)
        ensures
            final(self).first_iteration == old(self).first_iteration,
            final(self).random_shift == old(self).random_shift,
            final(self).interval == (if crate::elect::config::minus(elections_end, now)
                > MIN_ELECTION_INTERVAL {
                crate::elect::config::minus(elections_end, now)
            } else {
                MIN_ELECTION_INTERVAL
            }),
    {
        let left: u32 = elections_end.saturating_sub(now);
        self.interval = if left > MIN_ELECTION_INTERVAL {
            left
        } else {
            MIN_ELECTION_INTERVAL
        };
    }
}

/// How old the last known state is, within limits.
pub fn compute_time_diff(now: u32, gen_utime: u32) -> (r: u32)
    ensures
        r == time_diff(now, gen_utime),
{
    let diff: u32 = now.saturating_sub(gen_utime);
    if diff < MAX_TIME_DIFF {
        diff
    } else {
        MAX_TIME_DIFF
    }
}

/// How long an attempt may take: until shortly before the elections end, but not
/// too short.
pub fn compute_deadline(config: &RunConfig, elections_end: u32, now: u32) -> (r: u32)
    ensures
        ({
            let left = crate::elect::config::minus(
                crate::elect::config::minus(elections_end, config.elections_end_offset),
                now,
            );
            r == (if left > MIN_ELECTION_DEADLINE {
                left
            } else {
                MIN_ELECTION_DEADLINE
            })
        }),
{
    let left: u32 = elections_end.saturating_sub(config.elections_end_offset).saturating_sub(now);
    if left > MIN_ELECTION_DEADLINE {
        left
    } else {
        MIN_ELECTION_DEADLINE
    }
}

/// While elections are on, stakes are sent only after the pause at their start
/// with the random delay. Where that pause is just over, their end does not
/// matter; later it is respected.
pub proof fn law_no_stake_too_early(config: RunConfig, state: RunState, seen: Observed, drawn: u32)
    requires
        sums_fit(config, state, seen, drawn),
        seen.timeline is Elections,
        course(config, state, seen, drawn) is Ok,
    ensures
        seen.timeline->since_elections_start >= config.elections_start_offset + shift_of(
            config,
            state,
            drawn,
        ),
        seen.timeline->since_elections_start > config.elections_start_offset + shift_of(
            config,
            state,
            drawn,
        ) ==> seen.timeline->until_elections_end > config.elections_end_offset,
        course(config, state, seen, drawn) == Ok::<u32, u32>(seen.timeline->elections_end),
{
}

/// The random delay is drawn once for each election: during one it stays.
pub proof fn law_shift_stays(config: RunConfig, state: RunState, next: RunState, drawn: u32, again: u32)
    requires
        next.random_shift == Some(shift_of(config, state, drawn)),
    ensures
        shift_of(config, next, again) == shift_of(config, state, drawn),
{
}

/// The last known state counts as old as it is, though not older than ten minutes,
/// and not younger than now.
pub proof fn law_age_is_bounded(now: u32, gen_utime: u32)
    ensures
        gen_utime <= now <= gen_utime + 600 ==> gen_utime + time_diff(now, gen_utime) == now,
        now > gen_utime + 600 ==> time_diff(now, gen_utime) == 600,
        now < gen_utime ==> time_diff(now, gen_utime) == 0,
{
}

/// Random delays come from the first quarter of the elections without what is left
/// out at their start and their end.
pub proof fn law_shift_range_is_a_quarter(config: RunConfig, since: u32, until: u32)
    requires
        since + until <= u32::MAX,
    ensures
        config.elections_start_offset + config.elections_end_offset <= since + until ==> {
            let free = since + until - config.elections_start_offset - config.elections_end_offset;
            shift_range(config, since, until) * 4 <= free < shift_range(config, since, until) * 4
                + 4
        },
        config.elections_start_offset + config.elections_end_offset > since + until ==> shift_range(
            config,
            since,
            until,
        ) == 0,
{
}

/// A delay that is drawn holds exactly where one has to be drawn. Without one, and
/// without random delays, there is none.
pub proof fn law_drawn_shift_holds(config: RunConfig, state: RunState, seen: Observed, drawn: u32)
    ensures
        needs_shift(config, state, seen.timeline) ==> shift_of(config, state, drawn) == drawn,
        seen.timeline is Elections && !needs_shift(config, state, seen.timeline) ==> shift_of(
            config,
            state,
            drawn,
        ) == shift_of(config, state, 0),
        state.random_shift is None ==> shift_of(config, state, 0) == 0,
        state.random_shift is Some ==> shift_of(config, state, drawn) == state.random_shift->0,
        config.disable_random_shift ==> !needs_shift(config, state, seen.timeline),
        !(seen.timeline is Elections) ==> !needs_shift(config, state, seen.timeline),
{
}

/// A pause before elections is over when stakes can first be sent, and so is one at
/// their start. A pause at their end makes up what is left out there. After them it
/// lasts until the end of the round, unless they have failed: these are taken to last
/// five minutes from now on.
pub proof fn law_pause_ends_in_time(config: RunConfig, state: RunState, seen: Observed, drawn: u32)
    requires
        sums_fit(config, state, seen, drawn),
    ensures
        seen.timeline is BeforeElections ==> course(config, state, seen, drawn) == Err::<u32, u32>(
            (seen.timeline->until_elections_start + config.elections_start_offset) as u32,
        ),
        seen.timeline is Elections && course(config, state, seen, drawn) is Err ==> ({
            let pause = course(config, state, seen, drawn)->Err_0;
            let start = config.elections_start_offset + shift_of(config, state, drawn);
            let since = seen.timeline->since_elections_start;
            let until = seen.timeline->until_elections_end;
            if since < start {
                since + pause == start
            } else {
                since > start && until + pause == config.elections_end_offset
            }
        }),
        seen.timeline is Elections && seen.timeline->until_elections_end
            > config.elections_end_offset && seen.timeline->since_elections_start
            >= config.elections_start_offset + shift_of(config, state, drawn) ==> course(
            config,
            state,
            seen,
            drawn,
        ) == Ok::<u32, u32>(seen.timeline->elections_end),
        seen.timeline is AfterElections && !(seen.has_elections && seen.timeline->until_round_end
            == 0) ==> course(config, state, seen, drawn) == Err::<u32, u32>(
            seen.timeline->until_round_end,
        ),
        seen.timeline is AfterElections && seen.has_elections && seen.timeline->until_round_end == 0
            && seen.gen_utime <= seen.now <= seen.gen_utime + 600 ==> course(
            config,
            state,
            seen,
            drawn,
        ) is Ok && course(config, state, seen, drawn)->Ok_0 == seen.now + 300,
{
}

/// An attempt has at least a minute, and so has the pause after it; no pause is shorter
/// than ten seconds. Without elections a minute is waited.
pub proof fn law_pauses_have_lower_bounds()
    ensures
        MIN_ELECTION_DEADLINE == 60,
        MIN_ELECTION_INTERVAL == 60,
        EMPTY_ELECTIONS_INTERVAL == 60,
        MIN_INTERVAL == 10,
{
}

} // verus!
