//! The selection rule of consensus mode, as mathematics.
//!
//! Replies are modelled as a sequence of timezone identifiers in the order in
//! which they arrived. Everything here is ghost code: the definitions that the
//! contracts of the resolver speak of, and the laws that hold of them.

use crate::error::ResolveError;
use vstd::prelude::*;

verus! {

/// What one wait for the services gave.
pub enum Signal {
    /// A service reported this timezone.
    Reply(Seq<char>),
    /// The deadline passed first.
    Timeout,
    /// No service is left that could still reply.
    Disconnected,
}

/// Where a resolution stands.
pub enum Outcome {
    /// Nothing is decided: the next signal is awaited.
    Pending,
    /// This timezone is the result.
    Decided(Seq<char>),
    /// The resolution failed.
    Failed(ResolveError),
}

/// The number of equal replies that decides a race among `svc_count` services
/// at once: more than half of them.
pub open spec fn majority(svc_count: nat) -> nat {
    svc_count / 2 + 1
}

/// How many of `replies` are `zone`.
pub open spec fn count(replies: Seq<Seq<char>>, zone: Seq<char>) -> nat
    decreases replies.len(),
{
    if replies.len() == 0 {
        0
    } else {
        count(replies.drop_last(), zone) + if replies.last() == zone {
            1nat
        } else {
            0nat
        }
    }
}

/// The ordinal, counted from 1 in arrival order, of the first reply that is
/// `zone`; 0 if no reply is.
pub open spec fn first_seen(replies: Seq<Seq<char>>, zone: Seq<char>) -> nat
    decreases replies.len(),
{
    if replies.len() == 0 {
        0
    } else if first_seen(replies.drop_last(), zone) != 0 {
        first_seen(replies.drop_last(), zone)
    } else if replies.last() == zone {
        replies.len()
    } else {
        0
    }
}

/// `a` is preferred to `b`: it was reported more often, or as often and
/// sooner.
pub open spec fn outranks(replies: Seq<Seq<char>>, a: Seq<char>, b: Seq<char>) -> bool {
    count(replies, a) > count(replies, b) || (count(replies, a) == count(replies, b)
        && first_seen(replies, a) < first_seen(replies, b))
}

/// `zone` was reported, and is preferred to every other reported value.
pub open spec fn is_winner(replies: Seq<Seq<char>>, zone: Seq<char>) -> bool {
    &&& replies.contains(zone)
    &&& forall|other: Seq<char>| #[trigger]
        replies.contains(other) && other != zone ==> outranks(replies, zone, other)
}

/// The value that the plurality rule selects from `replies`. It is meaningful
/// when there is at least one reply; see [`lemma_winner_exists`].
pub open spec fn winner(replies: Seq<Seq<char>>) -> Seq<char> {
    choose|zone: Seq<char>| is_winner(replies, zone)
}

/// One more reply adds one to the count of its value and leaves the others.
pub proof fn lemma_count_push(replies: Seq<Seq<char>>, reply: Seq<char>, zone: Seq<char>)
    ensures
        count(replies.push(reply), zone) == count(replies, zone) + if reply == zone {
            1nat
        } else {
            0nat
        },
{
    assert(replies.push(reply).drop_last() =~= replies);
}

/// One more reply gives its value an ordinal if it had none, and changes no
/// ordinal that was given.
pub proof fn lemma_first_seen_push(replies: Seq<Seq<char>>, reply: Seq<char>, zone: Seq<char>)
    ensures
        first_seen(replies.push(reply), zone) == if first_seen(replies, zone) != 0 {
            first_seen(replies, zone)
        } else if reply == zone {
            replies.len() + 1
        } else {
            0
        },
{
    assert(replies.push(reply).drop_last() =~= replies);
}

/// A value's count is positive exactly when it was reported, and so is its
/// ordinal; neither exceeds the number of replies, and the ordinal points at
/// the first reply with that value.
pub proof fn lemma_count_and_first_seen(replies: Seq<Seq<char>>, zone: Seq<char>)
    ensures
        count(replies, zone) <= replies.len(),
        first_seen(replies, zone) <= replies.len(),
        count(replies, zone) > 0 <==> replies.contains(zone),
        first_seen(replies, zone) > 0 <==> replies.contains(zone),
        first_seen(replies, zone) > 0 ==> replies[first_seen(replies, zone) - 1] == zone,
        forall|i: int| 0 <= i < first_seen(replies, zone) - 1 ==> replies[i] != zone,
    decreases replies.len(),
{
    if replies.len() > 0 {
        let before = replies.drop_last();
        lemma_count_and_first_seen(before, zone);
        assert(forall|i: int| 0 <= i < before.len() ==> before[i] == replies[i]);
        if before.contains(zone) {
            let i = choose|i: int| 0 <= i < before.len() && before[i] == zone;
            assert(replies[i] == zone);
        }
        if replies.contains(zone) && !before.contains(zone) {
            let i = choose|i: int| 0 <= i < replies.len() && replies[i] == zone;
            if i < before.len() {
                assert(before[i] == zone);
            }
        }
        if replies.last() == zone {
            assert(replies[replies.len() - 1] == zone);
        }
    }
}

/// Two different values share the replies between them.
pub proof fn lemma_counts_disjoint(replies: Seq<Seq<char>>, a: Seq<char>, b: Seq<char>)
    requires
        a != b,
    ensures
        count(replies, a) + count(replies, b) <= replies.len(),
    decreases replies.len(),
{
    if replies.len() > 0 {
        lemma_counts_disjoint(replies.drop_last(), a, b);
    }
}

/// Two different reported values never have the same ordinal.
pub proof fn lemma_first_seen_distinct(replies: Seq<Seq<char>>, a: Seq<char>, b: Seq<char>)
    requires
        a != b,
        replies.contains(a),
    ensures
        first_seen(replies, a) != first_seen(replies, b),
{
    lemma_count_and_first_seen(replies, a);
    lemma_count_and_first_seen(replies, b);
}

/// Preference is a strict order on the reported values: of two different
/// ones, exactly one is preferred to the other.
pub proof fn lemma_outranks_total(replies: Seq<Seq<char>>, a: Seq<char>, b: Seq<char>)
    requires
        a != b,
        replies.contains(a),
        replies.contains(b),
    ensures
        outranks(replies, a, b) != outranks(replies, b, a),
{
    lemma_first_seen_distinct(replies, a, b);
}

/// Preference is transitive.
pub proof fn lemma_outranks_transitive(
    replies: Seq<Seq<char>>,
    a: Seq<char>,
    b: Seq<char>,
    c: Seq<char>,
)
    requires
        outranks(replies, a, b),
        outranks(replies, b, c),
    ensures
        outranks(replies, a, c),
{
}

/// The plurality rule selects at most one value.
pub proof fn lemma_winner_unique(replies: Seq<Seq<char>>, a: Seq<char>, b: Seq<char>)
    requires
        is_winner(replies, a),
        is_winner(replies, b),
    ensures
        a == b,
{
    if a != b {
        lemma_outranks_total(replies, a, b);
    }
}

/// Among the first `upto` replies there is one whose value is preferred to the
/// values of all the others of them.
proof fn lemma_best_of_prefix(replies: Seq<Seq<char>>, upto: int) -> (best: int)
    requires
        0 < upto <= replies.len(),
    ensures
        0 <= best < upto,
        forall|i: int|
            0 <= i < upto && replies[i] != replies[best] ==> outranks(
                replies,
                replies[best],
                #[trigger] replies[i],
            ),
    decreases upto,
{
    if upto == 1 {
        0
    } else {
        let before = lemma_best_of_prefix(replies, upto - 1);
        let last = upto - 1;
        if replies[last] == replies[before] || outranks(replies, replies[before], replies[last]) {
            before
        } else {
            assert(replies.contains(replies[last]));
            assert(replies.contains(replies[before]));
            lemma_outranks_total(replies, replies[last], replies[before]);
            assert forall|i: int|
                0 <= i < upto && replies[i] != replies[last] implies outranks(
                replies,
                replies[last],
                #[trigger] replies[i],
            ) by {
                if replies[i] != replies[before] {
                    lemma_outranks_transitive(
                        replies,
                        replies[last],
                        replies[before],
                        replies[i],
                    );
                }
            }
            last
        }
    }
}

/// Whenever there is a reply, the plurality rule selects a value.
pub proof fn lemma_winner_exists(replies: Seq<Seq<char>>)
    requires
        replies.len() > 0,
    ensures
        is_winner(replies, winner(replies)),
{
    let best = lemma_best_of_prefix(replies, replies.len() as int);
    let zone = replies[best];
    assert(replies.contains(zone));
    assert forall|other: Seq<char>| #[trigger]
        replies.contains(other) && other != zone implies outranks(replies, zone, other) by {
        let i = choose|i: int| 0 <= i < replies.len() && replies[i] == other;
        assert(replies[i] != replies[best]);
    }
    assert(is_winner(replies, zone));
}

/// To decide at once on a majority never changes the result: a value that
/// holds a majority among `svc_count` services, when no more than `svc_count`
/// replies have arrived, is the one that the plurality rule selects.
pub proof fn law_majority_is_plurality(replies: Seq<Seq<char>>, svc_count: nat, zone: Seq<char>)
    requires
        replies.len() <= svc_count,
        count(replies, zone) >= majority(svc_count),
    ensures
        is_winner(replies, zone),
        winner(replies) == zone,
{
    lemma_count_and_first_seen(replies, zone);
    assert forall|other: Seq<char>| #[trigger]
        replies.contains(other) && other != zone implies outranks(replies, zone, other) by {
        lemma_counts_disjoint(replies, zone, other);
    }
    lemma_winner_exists(replies);
    lemma_winner_unique(replies, zone, winner(replies));
}

/// What consensus mode concludes when `signal` arrives after `replies`, among
/// `svc_count` services.
///
/// A reply whose value thereby holds a majority decides at once. Otherwise
/// the last of the `svc_count` replies, a timeout or a disconnection ends the
/// race for the plurality rule to decide; without any reply they end it in
/// failure.
pub open spec fn after(replies: Seq<Seq<char>>, svc_count: nat, signal: Signal) -> Outcome {
    match signal {
        Signal::Reply(zone) => {
            let now = replies.push(zone);
            if count(now, zone) >= majority(svc_count) {
                Outcome::Decided(zone)
            } else if now.len() == svc_count {
                Outcome::Decided(winner(now))
            } else {
                Outcome::Pending
            }
        },
        Signal::Timeout => if replies.len() == 0 {
            Outcome::Failed(ResolveError::TimedOut)
        } else {
            Outcome::Decided(winner(replies))
        },
        Signal::Disconnected => if replies.len() == 0 {
            Outcome::Failed(ResolveError::AllFailed)
        } else {
            Outcome::Decided(winner(replies))
        },
    }
}

/// The signal that ends a race in which no further reply arrives.
pub open spec fn closing(timed_out: bool) -> Signal {
    if timed_out {
        Signal::Timeout
    } else {
        Signal::Disconnected
    }
}

/// What consensus mode concludes from the replies `replies[seen..]`, arriving
/// in this order after `replies[..seen]` left the race pending, and followed
/// by a timeout or by a disconnection.
pub open spec fn run_from(
    replies: Seq<Seq<char>>,
    svc_count: nat,
    timed_out: bool,
    seen: nat,
) -> Outcome
    decreases replies.len() - seen,
{
    if seen >= replies.len() {
        after(replies, svc_count, closing(timed_out))
    } else {
        match after(replies.take(seen as int), svc_count, Signal::Reply(replies[seen as int])) {
            Outcome::Pending => run_from(replies, svc_count, timed_out, seen + 1),
            decided => decided,
        }
    }
}

/// What consensus mode concludes from a race among `svc_count` services in
/// which `replies` arrive in this order, followed by a timeout or by a
/// disconnection. Replies behind the one that decides are not looked at.
pub open spec fn run(replies: Seq<Seq<char>>, svc_count: nat, timed_out: bool) -> Outcome {
    run_from(replies, svc_count, timed_out, 0)
}

/// A value is counted no more often in the first replies than in all.
pub proof fn lemma_count_of_prefix(replies: Seq<Seq<char>>, upto: int, zone: Seq<char>)
    requires
        0 <= upto <= replies.len(),
    ensures
        count(replies.take(upto), zone) <= count(replies, zone),
    decreases replies.len() - upto,
{
    if upto < replies.len() {
        lemma_count_of_prefix(replies, upto + 1, zone);
        lemma_count_push(replies.take(upto), replies[upto], zone);
        assert(replies.take(upto).push(replies[upto]) =~= replies.take(upto + 1));
    } else {
        assert(replies.take(upto) =~= replies);
    }
}

proof fn lemma_run_reaches_majority(
    early: Seq<Seq<char>>,
    later: Seq<Seq<char>>,
    svc_count: nat,
    timed_out: bool,
    seen: nat,
)
    requires
        seen < early.len() <= svc_count,
        count(early, early.last()) >= majority(svc_count),
    ensures
        run_from(early + later, svc_count, timed_out, seen) == Outcome::Decided(early.last()),
    decreases early.len() - seen,
{
    let replies = early + later;
    let zone = replies[seen as int];
    let now = replies.take(seen as int).push(zone);
    assert(now =~= early.take(seen as int + 1));
    if seen + 1 == early.len() {
        assert(now =~= early);
    } else {
        lemma_count_of_prefix(early, seen as int + 1, zone);
        if zone != early.last() {
            lemma_counts_disjoint(early, zone, early.last());
        }
        if count(now, zone) < majority(svc_count) {
            lemma_run_reaches_majority(early, later, svc_count, timed_out, seen + 1);
        }
    }
}

/// In consensus mode a value wins as soon as a reply gives it a majority:
/// whatever would arrive later, and however the race would end, plays no part.
pub proof fn law_majority_decides_at_once(
    early: Seq<Seq<char>>,
    later: Seq<Seq<char>>,
    svc_count: nat,
    timed_out: bool,
)
    requires
        0 < early.len() <= svc_count,
        count(early, early.last()) >= majority(svc_count),
    ensures
        run(early + later, svc_count, timed_out) == Outcome::Decided(early.last()),
{
    lemma_run_reaches_majority(early, later, svc_count, timed_out, 0);
}

proof fn lemma_run_without_majority(
    replies: Seq<Seq<char>>,
    svc_count: nat,
    timed_out: bool,
    seen: nat,
)
    requires
        0 < replies.len() <= svc_count,
        seen <= replies.len(),
        forall|zone: Seq<char>| count(replies, zone) < majority(svc_count),
    ensures
        run_from(replies, svc_count, timed_out, seen) == Outcome::Decided(winner(replies)),
    decreases replies.len() - seen,
{
    if seen < replies.len() {
        let zone = replies[seen as int];
        let now = replies.take(seen as int).push(zone);
        assert(now =~= replies.take(seen as int + 1));
        lemma_count_of_prefix(replies, seen as int + 1, zone);
        if seen + 1 == replies.len() {
            assert(now =~= replies);
        }
        lemma_run_without_majority(replies, svc_count, timed_out, seen + 1);
    }
}

/// Where no value reaches a majority, consensus mode returns the value that
/// was reported most often, and among the values reported as often the one
/// whose first report came soonest. Only counts and first ordinals play a
/// part, and it makes no difference how the race ended.
pub proof fn law_plurality_without_majority(
    replies: Seq<Seq<char>>,
    svc_count: nat,
    timed_out: bool,
)
    requires
        0 < replies.len() <= svc_count,
        forall|zone: Seq<char>| count(replies, zone) < majority(svc_count),
    ensures
        run(replies, svc_count, timed_out) == Outcome::Decided(winner(replies)),
        replies.contains(winner(replies)),
        forall|other: Seq<char>| #[trigger]
            replies.contains(other) && other != winner(replies) ==> {
                ||| count(replies, other) < count(replies, winner(replies))
                ||| (count(replies, other) == count(replies, winner(replies)) && first_seen(
                    replies,
                    winner(replies),
                ) < first_seen(replies, other))
            },
{
    lemma_run_without_majority(replies, svc_count, timed_out, 0);
    lemma_winner_exists(replies);
}

/// Without any reply consensus mode fails: with a timeout where the deadline
/// passed, and else because every service failed.
pub proof fn law_silence_fails(svc_count: nat, timed_out: bool)
    ensures
        run(Seq::empty(), svc_count, timed_out) == Outcome::Failed(
            if timed_out {
                ResolveError::TimedOut
            } else {
                ResolveError::AllFailed
            },
        ),
{
}

/// Whatever consensus mode decides was reported by some service.
pub proof fn law_decision_was_reported(
    replies: Seq<Seq<char>>,
    svc_count: nat,
    timed_out: bool,
    zone: Seq<char>,
)
    requires
        run(replies, svc_count, timed_out) == Outcome::Decided(zone),
    ensures
        replies.contains(zone),
{
    lemma_run_decides_reported(replies, svc_count, timed_out, 0, zone);
}

proof fn lemma_run_decides_reported(
    replies: Seq<Seq<char>>,
    svc_count: nat,
    timed_out: bool,
    seen: nat,
    zone: Seq<char>,
)
    requires
        seen <= replies.len(),
        run_from(replies, svc_count, timed_out, seen) == Outcome::Decided(zone),
    ensures
        replies.contains(zone),
    decreases replies.len() - seen,
{
    if seen < replies.len() {
        let reply = replies[seen as int];
        let now = replies.take(seen as int).push(reply);
        assert(now =~= replies.take(seen as int + 1));
        match after(replies.take(seen as int), svc_count, Signal::Reply(reply)) {
            Outcome::Pending => {
                lemma_run_decides_reported(replies, svc_count, timed_out, seen + 1, zone);
            },
            _ => {
                if count(now, reply) >= majority(svc_count) {
                    assert(replies[seen as int] == zone);
                } else {
                    lemma_winner_exists(now);
                    let k = choose|k: int| 0 <= k < now.len() && now[k] == zone;
                    assert(replies[k] == zone);
                }
            },
        }
    } else {
        lemma_winner_exists(replies);
    }
}

/// The replies among `signals`, in their order.
pub open spec fn replies_in(signals: Seq<Signal>) -> Seq<Seq<char>>
    decreases signals.len(),
{
    if signals.len() == 0 {
        Seq::empty()
    } else {
        match signals.last() {
            Signal::Reply(zone) => replies_in(signals.drop_last()).push(zone),
            _ => replies_in(signals.drop_last()),
        }
    }
}

/// Where consensus mode stands when the last of `signals` arrives after the
/// others: pending before any signal, and then as [`after`] says.
pub open spec fn standing(signals: Seq<Signal>, svc_count: nat) -> Outcome {
    if signals.len() == 0 {
        Outcome::Pending
    } else {
        after(replies_in(signals.drop_last()), svc_count, signals.last())
    }
}

/// `signals` are what consensus mode takes in one race, no more and no less:
/// each but the last leaves the race pending, and the last ends it.
pub open spec fn ends_race(signals: Seq<Signal>, svc_count: nat) -> bool {
    &&& signals.len() > 0
    &&& !(standing(signals, svc_count) is Pending)
    &&& forall|taken: int|
        0 <= taken < signals.len() ==> #[trigger] standing(signals.take(taken), svc_count)
            is Pending
}

proof fn lemma_pending_signals_are_replies(signals: Seq<Signal>, svc_count: nat, upto: int)
    requires
        0 <= upto <= signals.len(),
        forall|taken: int|
            0 <= taken <= upto ==> #[trigger] standing(signals.take(taken), svc_count) is Pending,
    ensures
        replies_in(signals.take(upto)).len() == upto,
        forall|i: int|
            0 <= i < upto ==> signals[i] == Signal::Reply(
                #[trigger] replies_in(signals.take(upto))[i],
            ),
    decreases upto,
{
    if upto > 0 {
        lemma_pending_signals_are_replies(signals, svc_count, upto - 1);
        let prefix = signals.take(upto);
        assert(prefix.drop_last() =~= signals.take(upto - 1));
        assert(prefix.last() == signals[upto - 1]);
        assert(standing(prefix, svc_count) is Pending);
    }
}

proof fn lemma_run_follows_pending(
    replies: Seq<Seq<char>>,
    svc_count: nat,
    timed_out: bool,
    pending: int,
    seen: nat,
)
    requires
        0 <= seen <= pending <= replies.len(),
        forall|k: int|
            0 <= k < pending ==> after(replies.take(k), svc_count, Signal::Reply(replies[k]))
                is Pending,
    ensures
        run_from(replies, svc_count, timed_out, seen) == run_from(
            replies,
            svc_count,
            timed_out,
            pending as nat,
        ),
    decreases pending - seen,
{
    if seen < pending {
        lemma_run_follows_pending(replies, svc_count, timed_out, pending, seen + 1);
    }
}

/// A race as it is run, one signal after the other, ends as [`run`] says of
/// its replies: the laws that hold of the one hold of the other.
pub proof fn law_race_is_run(signals: Seq<Signal>, svc_count: nat, timed_out: bool)
    requires
        ends_race(signals, svc_count),
        signals.last() is Timeout ==> timed_out,
        signals.last() is Disconnected ==> !timed_out,
    ensures
        standing(signals, svc_count) == run(replies_in(signals), svc_count, timed_out),
{
    let before = signals.drop_last();
    let upto = signals.len() - 1;
    assert(before =~= signals.take(upto));
    lemma_pending_signals_are_replies(signals, svc_count, upto);
    let early = replies_in(before);
    let replies = replies_in(signals);
    assert forall|k: int| 0 <= k < upto implies after(
        replies.take(k),
        svc_count,
        Signal::Reply(replies[k]),
    ) is Pending by {
        lemma_pending_signals_are_replies(signals, svc_count, k);
        let prefix = signals.take(k + 1);
        assert(prefix.drop_last() =~= signals.take(k));
        assert(standing(prefix, svc_count) is Pending);
        assert(signals[k] == Signal::Reply(early[k]));
        assert(replies_in(signals.take(k)) =~= early.take(k)) by {
            assert forall|i: int| 0 <= i < k implies replies_in(signals.take(k))[i]
                == early.take(k)[i] by {
                assert(signals[i] == Signal::Reply(replies_in(signals.take(k))[i]));
                assert(signals[i] == Signal::Reply(early[i]));
            }
        }
        assert(replies.take(k) =~= early.take(k));
        assert(replies[k] == early[k]);
    }
    lemma_run_follows_pending(replies, svc_count, timed_out, upto, 0);
    match signals.last() {
        Signal::Reply(zone) => {
            assert(replies =~= early.push(zone));
            assert(replies.take(upto) =~= early);
        },
        _ => {
            assert(replies =~= early);
        },
    }
}

} // verus!
