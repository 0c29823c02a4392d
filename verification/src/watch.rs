//! The health watchdog: repeated failed health checks of an applied gateway
//! lead to a rollback.

use vstd::prelude::*;

use crate::model::strs_view;
use crate::text::{decimal, from_chars, join_with, push_decimal, push_str, to_chars};

verus! {

/// How many failed checks in a row trigger the rollback.
pub const STRIKE_LIMIT: u8 = 3;

/// What one round of the watchdog found.
#[derive(Debug, Clone, Copy, PartialEq, Eq, Structural)]
pub enum WatchObservation {
    /// The configuration or the state store could not be read; nothing is
    /// decided this round.
    Unreadable,
    /// The gateway is in observe mode.
    NotGateway,
    /// No generation was ever applied.
    NoGeneration,
    /// The applied data plane is healthy.
    Healthy,
    /// The health check failed.
    Unhealthy,
}

/// What the watchdog does after a round.
#[derive(Debug, Clone, Copy, PartialEq, Eq, Structural)]
pub enum WatchAction {
    Nothing,
    /// Record the failed check as the given strike.
    Strike(u8),
    /// Record the strike, then roll back (bypassing when that fails).
    StrikeAndRollback(u8),
}

/// The strike count and action after a round.
pub open spec fn spec_watch_step(strikes: u8, obs: WatchObservation) -> (u8, WatchAction) {
    match obs {
        WatchObservation::Unreadable => (strikes, WatchAction::Nothing),
        WatchObservation::Unhealthy => {
            let s: u8 = if strikes == 255 {
                255
            } else {
                (strikes + 1) as u8
            };
            if s >= STRIKE_LIMIT {
                (0, WatchAction::StrikeAndRollback(s))
            } else {
                (s, WatchAction::Strike(s))
            }
        },
        _ => (0, WatchAction::Nothing),
    }
}

/// One round of the watchdog.
pub fn watch_step(strikes: u8, obs: WatchObservation) -> (r: (u8, WatchAction))
    ensures
        r == spec_watch_step(strikes, obs),
{
    match obs {
        WatchObservation::Unreadable => (strikes, WatchAction::Nothing),
        WatchObservation::Unhealthy => {
            let s = strikes.saturating_add(1);
            if s >= STRIKE_LIMIT {
                (0, WatchAction::StrikeAndRollback(s))
            } else {
                (s, WatchAction::Strike(s))
            }
        },
        _ => (0, WatchAction::Nothing),
    }
}

/// The strike count after a series of rounds.
pub open spec fn strikes_after(strikes: u8, obs: Seq<WatchObservation>) -> u8
    decreases obs.len(),
{
    if obs.len() == 0 {
        strikes
    } else {
        spec_watch_step(strikes_after(strikes, obs.drop_last()), obs.last()).0
    }
}

/// The count stays below the limit: a round never leaves more than two
/// strikes behind when it started below the limit.
pub proof fn lemma_strikes_stay_below_limit(strikes: u8, obs: WatchObservation)
    requires
        strikes < STRIKE_LIMIT,
    ensures
        spec_watch_step(strikes, obs).0 < STRIKE_LIMIT,
{
}

/// Whatever the watchdog has seen since it started, its count is below the
/// limit.
pub proof fn lemma_strikes_after_below_limit(obs: Seq<WatchObservation>)
    ensures
        strikes_after(0, obs) < STRIKE_LIMIT,
    decreases obs.len(),
{
    if obs.len() > 0 {
        lemma_strikes_after_below_limit(obs.drop_last());
        lemma_strikes_stay_below_limit(strikes_after(0, obs.drop_last()), obs.last());
    }
}

/// Whatever came before, three failed checks in a row lead to a rollback in
/// one of those three rounds.
pub proof fn lemma_three_failures_force_rollback(obs: Seq<WatchObservation>)
    ensures
        ({
            let u = WatchObservation::Unhealthy;
            let first = spec_watch_step(strikes_after(0, obs), u);
            let second = spec_watch_step(first.0, u);
            let third = spec_watch_step(second.0, u);
            first.1 is StrikeAndRollback || second.1 is StrikeAndRollback
                || third.1 is StrikeAndRollback
        }),
{
    lemma_strikes_after_below_limit(obs);
}

/// A healthy round, observe mode, or no applied generation clears the
/// strikes.
pub proof fn lemma_good_round_resets(strikes: u8, obs: WatchObservation)
    requires
        obs == WatchObservation::Healthy || obs == WatchObservation::NotGateway || obs
            == WatchObservation::NoGeneration,
    ensures
        spec_watch_step(strikes, obs) == (0u8, WatchAction::Nothing),
{
}

/// From a clean start, the first two failed checks only count, and the
/// third in a row triggers the rollback and clears the count.
pub proof fn lemma_third_failure_rolls_back()
    ensures
        spec_watch_step(0, WatchObservation::Unhealthy) == (1u8, WatchAction::Strike(1)),
        spec_watch_step(1, WatchObservation::Unhealthy) == (2u8, WatchAction::Strike(2)),
        spec_watch_step(2, WatchObservation::Unhealthy) == (0u8, WatchAction::StrikeAndRollback(3)),
{
}

/// A rollback happens on a round exactly when two failed checks were
/// counted before it and this one failed too.
pub proof fn lemma_rollback_iff_third(strikes: u8, obs: WatchObservation)
    requires
        strikes < STRIKE_LIMIT,
    ensures
        spec_watch_step(strikes, obs).1 is StrikeAndRollback <==> (strikes == 2
            && obs == WatchObservation::Unhealthy),
{
}

/// The event text of a strike: its number and the failed checks.
pub fn strike_message(strike: u8, failed: &Vec<String>) -> (r: String)
    ensures
        r@ == "strike "@ + decimal(strike as nat) + ": "@ + join_with(strs_view(failed@), "; "@),
{
    let mut m = to_chars("strike ");
    push_decimal(&mut m, strike as u64);
    push_str(&mut m, ": ");
    let ghost head = m@;
    let n = failed.len();
    assert(strs_view(failed@).take(0) =~= Seq::<Seq<char>>::empty());
    for i in 0..n
        invariant
            n == failed@.len(),
            m@ == head + join_with(strs_view(failed@).take(i as int), "; "@),
    {
        let ghost t = strs_view(failed@).take((i + 1) as int);
        assert(t.drop_last() =~= strs_view(failed@).take(i as int));
        if i > 0 {
            push_str(&mut m, "; ");
        }
        push_str(&mut m, failed[i].as_str());
        assert(m@ =~= head + join_with(t, "; "@));
    }
    assert(strs_view(failed@).take(n as int) =~= strs_view(failed@));
    from_chars(m.as_slice())
}

} // verus!
