//! The two selection modes, run on the lookups under way and against the
//! clock.
//!
//! The functions here take each signal as it comes, hand it to the rule and
//! return what the rule concluded. Their contracts speak of the signals that
//! were taken, of the time that each wait was given, and of the deadline that
//! the waits were held to.

use crate::consensus::{ends_race, replies_in, standing, Outcome, Signal};
use crate::error::ResolveError;
use crate::lookups::SpawnedRequests;
use crate::resolver::{outcome_of, ConsensusState, Recv, Step};
use std::time::{Duration, Instant};
use vstd::prelude::*;

verus! {

/// A point in time of the monotonic clock, `std::time::Instant`.
#[verifier::external_type_specification]
#[verifier::external_body]
pub struct ExInstant(Instant);

/// `Instant::now` reads the clock. Nothing is claimed of the result.
pub assume_specification[ Instant::now ]() -> (now: Instant);

/// What `Instant::checked_add` makes of an instant and a duration: the
/// instant that lies the duration after the other, or nothing where the clock
/// cannot represent it.
pub uninterp spec fn instant_after(instant: Instant, duration: Duration) -> Option<Instant>;

/// What `Instant::saturating_duration_since` makes of two instants: the time
/// from `earlier` to `later`, and no time at all where `earlier` is the later
/// one.
pub uninterp spec fn time_from(earlier: Instant, later: Instant) -> Duration;

/// What `Duration::is_zero` makes of a duration: whether it is no time at
/// all.
pub uninterp spec fn no_time(duration: Duration) -> bool;

/// `Instant::checked_add` is a function of its arguments alone: its result is
/// what [`instant_after`] names.
pub assume_specification[ Instant::checked_add ](instant: &Instant, duration: Duration) -> (sum:
    Option<Instant>)
    ensures
        sum == instant_after(*instant, duration),
;

/// `Instant::saturating_duration_since` is a function of its arguments alone:
/// its result is what [`time_from`] names.
pub assume_specification[ Instant::saturating_duration_since ](
    instant: &Instant,
    earlier: Instant,
) -> (elapsed: Duration)
    ensures
        elapsed == time_from(earlier, *instant),
;

/// `Duration::is_zero` is a function of its argument alone: its result is
/// what [`no_time`] names.
pub assume_specification[ Duration::is_zero ](duration: &Duration) -> (zero: bool)
    ensures
        zero == no_time(*duration),
;

/// What first-reply mode concludes from the one signal that it waits for.
pub open spec fn first_after(signal: Signal) -> Outcome {
    match signal {
        Signal::Reply(zone) => Outcome::Decided(zone),
        Signal::Timeout => Outcome::Failed(ResolveError::TimedOut),
        Signal::Disconnected => Outcome::Failed(ResolveError::AllFailed),
    }
}

/// First-reply mode, given what the wait for the first reply gave: the reply
/// is the result, a timeout and a disconnection are the two failures.
pub fn first_reply(event: Recv) -> (result: Result<String, ResolveError>)
    ensures
        outcome_of(result) == first_after(event@),
{
    match event {
        Recv::Reply(zone) => Ok(zone),
        Recv::Timeout => Err(ResolveError::TimedOut),
        Recv::Disconnected => Err(ResolveError::AllFailed),
    }
}

/// What `log` holds behind its first `before` entries.
pub open spec fn since<T>(log: Seq<T>, before: nat) -> Seq<T> {
    log.skip(before as int)
}

/// The time that is left at `now` until `deadline`. A deadline that the clock
/// cannot represent is always the whole `timeout` away.
pub open spec fn time_left(deadline: Option<Instant>, timeout: Duration, now: Instant) -> Duration {
    match deadline {
        Some(deadline) => time_from(now, deadline),
        None => timeout,
    }
}

/// `wait` is the time that was left until `deadline` at some reading of the
/// clock, and is some time.
pub open spec fn waits_until(deadline: Option<Instant>, timeout: Duration, wait: Duration) -> bool {
    exists|now: Instant| #[trigger] time_left(deadline, timeout, now) == wait && !no_time(wait)
}

/// At some reading of the clock no time was left until `deadline`.
pub open spec fn has_passed(deadline: Option<Instant>, timeout: Duration) -> bool {
    exists|now: Instant| no_time(#[trigger] time_left(deadline, timeout, now))
}

/// The signals `taken` came under `deadline`: each from a wait on the channel
/// for the time that was then left, one wait of `waits` for each signal in
/// turn; but for a last timeout that was taken without a wait, once no time
/// was left.
pub open spec fn keeps_deadline(
    deadline: Option<Instant>,
    timeout: Duration,
    taken: Seq<Signal>,
    waits: Seq<Duration>,
) -> bool {
    &&& forall|i: int| 0 <= i < waits.len() ==> waits_until(deadline, timeout, #[trigger] waits[i])
    &&& taken.len() != waits.len() ==> {
        &&& taken.len() == waits.len() + 1
        &&& taken.last() == Signal::Timeout
        &&& has_passed(deadline, timeout)
    }
}

/// The signals `taken` came under one deadline, which was fixed once:
/// `timeout` after some reading of the clock.
pub open spec fn paced(timeout: Duration, taken: Seq<Signal>, waits: Seq<Duration>) -> bool {
    exists|start: Instant|
        keeps_deadline(#[trigger] instant_after(start, timeout), timeout, taken, waits)
}

/// Returns the first timezone that any service reports within `timeout`.
///
/// One signal is taken, from one wait on the channel for `timeout`, and it
/// decides: a reply is the result, and the call fails with
/// [`ResolveError::TimedOut`] where none arrives in time, and with
/// [`ResolveError::AllFailed`] where every worker gave up first.
pub fn get_timezone_first(requests: &mut SpawnedRequests, timeout: Duration) -> (result: Result<
    String,
    ResolveError,
>)
    ensures
        final(requests).services() == old(requests).services(),
        final(requests).waited() == old(requests).waited().push(timeout),
        old(requests).heard().is_prefix_of(final(requests).heard()),
        since(final(requests).heard(), old(requests).heard().len()).len() == 1,
        outcome_of(result) == first_after(
            since(final(requests).heard(), old(requests).heard().len())[0],
        ),
{
    let event = requests.listen(timeout);
    first_reply(event)
}

/// Collects the reports of the services and chooses by consensus.
///
/// The deadline is fixed once, `timeout` after the clock is first read; a
/// deadline too far off for the clock to represent never passes. Before each
/// signal the clock is read again: where time is left, the channel is waited
/// on for that time, and where none is left, a timeout is taken at once.
/// Signals are taken until one ends the race, and no further: a reply that
/// gives its value a majority of the services, the last of the expected
/// replies, a timeout, or the end of the last worker. The result is what
/// consensus mode concludes from the signals taken: the value of the
/// majority, else the value reported most often, the one reported soonest
/// among equals; and without any reply [`ResolveError::TimedOut`] after the
/// deadline and [`ResolveError::AllFailed`] before it.
pub fn get_timezone_consensus(requests: &mut SpawnedRequests, timeout: Duration) -> (result:
    Result<String, ResolveError>)
    ensures
        final(requests).services() == old(requests).services(),
        old(requests).heard().is_prefix_of(final(requests).heard()),
        old(requests).waited().is_prefix_of(final(requests).waited()),
        ends_race(
            since(final(requests).heard(), old(requests).heard().len()),
            old(requests).services(),
        ),
        paced(
            timeout,
            since(final(requests).heard(), old(requests).heard().len()),
            since(final(requests).waited(), old(requests).waited().len()),
        ),
        outcome_of(result) == standing(
            since(final(requests).heard(), old(requests).heard().len()),
            old(requests).services(),
        ),
{
    let svc_count = requests.svc_count();
    let ghost before = requests.heard();
    let ghost waited_before = requests.waited();
    let start = Instant::now();
    let deadline = start.checked_add(timeout);
    let mut state = ConsensusState::new(svc_count);
    assert(since(before, before.len()) =~= Seq::<Signal>::empty());
    assert(since(waited_before, waited_before.len()) =~= Seq::<Duration>::empty());
    loop
        invariant
            requests.services() == svc_count,
            old(requests).services() == svc_count,
            before == old(requests).heard(),
            before.is_prefix_of(requests.heard()),
            waited_before == old(requests).waited(),
            waited_before.is_prefix_of(requests.waited()),
            deadline == instant_after(start, timeout),
            since(requests.waited(), waited_before.len()).len() == since(
                requests.heard(),
                before.len(),
            ).len(),
            forall|i: int|
                0 <= i < since(requests.waited(), waited_before.len()).len() ==> waits_until(
                    deadline,
                    timeout,
                    #[trigger] since(requests.waited(), waited_before.len())[i],
                ),
            state@.svc_count == svc_count,
            state@.replies == replies_in(since(requests.heard(), before.len())),
            state@.replies.len() <= svc_count,
            forall|taken: int|
                0 <= taken <= since(requests.heard(), before.len()).len() ==> #[trigger] standing(
                    since(requests.heard(), before.len()).take(taken),
                    svc_count as nat,
                ) is Pending,
        decreases svc_count - state@.replies.len(),
    {
        let ghost earlier = since(requests.heard(), before.len());
        let ghost earlier_waits = since(requests.waited(), waited_before.len());
        let now = Instant::now();
        let wait = match deadline {
            Some(deadline) => deadline.saturating_duration_since(now),
            None => timeout,
        };
        assert(time_left(deadline, timeout, now) == wait);
        let lapsed = wait.is_zero();
        let event = if lapsed {
            requests.lapse()
        } else {
            requests.listen(wait)
        };
        let ghost taken = since(requests.heard(), before.len());
        let ghost waits = since(requests.waited(), waited_before.len());
        proof {
            assert(taken =~= earlier.push(event@));
            assert(taken.drop_last() =~= earlier);
            assert forall|upto: int| 0 <= upto < taken.len() implies #[trigger] standing(
                taken.take(upto),
                svc_count as nat,
            ) is Pending by {
                assert(taken.take(upto) =~= earlier.take(upto));
            }
            if lapsed {
                assert(waits =~= earlier_waits);
                assert(has_passed(deadline, timeout));
            } else {
                assert(waits =~= earlier_waits.push(wait));
                assert(waits_until(deadline, timeout, wait));
            }
            assert(keeps_deadline(deadline, timeout, taken, waits));
        }
        match state.observe(event) {
            Step::Pending(next) => {
                proof {
                    assert(taken.take(taken.len() as int) =~= taken);
                }
                state = next;
            },
            Step::Finished(result) => {
                return result;
            },
        }
    }
}

/// How a timezone is selected from what the services report.
#[derive(Clone, Copy, Debug, PartialEq, Eq, Structural)]
pub enum Mode {
    /// The first reply is the result.
    FirstReply,
    /// The result is the value of a majority, or else of a plurality, of the
    /// services.
    Consensus,
}

/// `taken` are the signals that a resolution in `mode` takes, no more and no
/// less.
pub open spec fn resolves(mode: Mode, taken: Seq<Signal>, svc_count: nat) -> bool {
    match mode {
        Mode::FirstReply => taken.len() == 1,
        Mode::Consensus => ends_race(taken, svc_count),
    }
}

/// A resolution in `mode` that is given `timeout` takes the signals `taken`
/// from the waits `waits`: in first-reply mode from one wait for `timeout`,
/// in consensus mode from waits under one deadline.
pub open spec fn timed(
    mode: Mode,
    timeout: Duration,
    taken: Seq<Signal>,
    waits: Seq<Duration>,
) -> bool {
    match mode {
        Mode::FirstReply => waits == seq![timeout],
        Mode::Consensus => paced(timeout, taken, waits),
    }
}

/// What a resolution in `mode` concludes from the signals `taken`.
pub open spec fn concluded(mode: Mode, taken: Seq<Signal>, svc_count: nat) -> Outcome {
    match mode {
        Mode::FirstReply => first_after(taken[0]),
        Mode::Consensus => standing(taken, svc_count),
    }
}

/// Resolves the timezone from the lookups under way, in the given mode and
/// within `timeout`.
pub fn resolve(requests: &mut SpawnedRequests, timeout: Duration, mode: Mode) -> (result: Result<
    String,
    ResolveError,
>)
    ensures
        final(requests).services() == old(requests).services(),
        old(requests).heard().is_prefix_of(final(requests).heard()),
        old(requests).waited().is_prefix_of(final(requests).waited()),
        resolves(
            mode,
            since(final(requests).heard(), old(requests).heard().len()),
            old(requests).services(),
        ),
        timed(
            mode,
            timeout,
            since(final(requests).heard(), old(requests).heard().len()),
            since(final(requests).waited(), old(requests).waited().len()),
        ),
        outcome_of(result) == concluded(
            mode,
            since(final(requests).heard(), old(requests).heard().len()),
            old(requests).services(),
        ),
{
    match mode {
        Mode::FirstReply => {
            let result = get_timezone_first(requests, timeout);
            assert(since(requests.waited(), old(requests).waited().len()) =~= seq![timeout]);
            result
        },
        Mode::Consensus => get_timezone_consensus(requests, timeout),
    }
}

} // verus!
