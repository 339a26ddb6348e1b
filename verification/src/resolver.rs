//! Consensus mode, one signal at a time.
//!
//! A [`ConsensusState`] holds the tallies of a race that is still undecided.
//! [`ConsensusState::observe`] takes what the next wait gave and says whether
//! the race goes on or how it ended.

use crate::consensus::{
    after, closing, count, first_seen, is_winner, lemma_count_and_first_seen, lemma_count_push,
    lemma_first_seen_distinct, lemma_first_seen_push, lemma_outranks_transitive,
    lemma_winner_exists, lemma_winner_unique, majority, outranks, run, run_from, winner, Outcome,
    Signal,
};
use crate::error::ResolveError;
use vstd::hash_map::StringHashMap;
use vstd::prelude::*;

verus! {

/// What one wait for the services gave.
pub enum Recv {
    /// A service reported this timezone.
    Reply(String),
    /// The deadline passed first.
    Timeout,
    /// No service is left that could still reply.
    Disconnected,
}

impl View for Recv {
    type V = Signal;

    open spec fn view(&self) -> Signal {
        match self {
            Recv::Reply(zone) => Signal::Reply(zone@),
            Recv::Timeout => Signal::Timeout,
            Recv::Disconnected => Signal::Disconnected,
        }
    }
}

/// What is known of one reported value while a race is undecided.
#[derive(Clone, Copy, Debug, PartialEq, Eq, Structural)]
pub struct Tally {
    /// How many services reported the value.
    pub count: usize,
    /// The ordinal, from 1 in arrival order, of the first reply with it.
    pub first_seen: usize,
}

/// The values in `zones`, as the contracts see them.
pub open spec fn zones_of(zones: Seq<String>) -> Seq<Seq<char>> {
    Seq::new(zones.len(), |i: int| zones[i]@)
}

/// `tallies` holds, under each value among `replies`, its count and its
/// ordinal, and `order` names every such value.
spec fn tracks(
    order: Seq<String>,
    tallies: Map<Seq<char>, Tally>,
    replies: Seq<Seq<char>>,
) -> bool {
    &&& forall|zone: Seq<char>| #[trigger] tallies.contains_key(zone) <==> replies.contains(zone)
    &&& forall|zone: Seq<char>| #[trigger]
        tallies.contains_key(zone) ==> {
            &&& tallies[zone].count == count(replies, zone)
            &&& tallies[zone].first_seen == first_seen(replies, zone)
        }
    &&& forall|i: int| 0 <= i < order.len() ==> replies.contains((#[trigger] order[i])@)
    &&& forall|k: int|
        0 <= k < replies.len() ==> exists|i: int|
            0 <= i < order.len() && (#[trigger] order[i])@ == #[trigger] replies[k]
}

/// A race in consensus mode that is not decided yet.
///
/// The tallies stand in a hash map under the values they belong to. The map
/// cannot be walked, so the values are also kept in a list, in the order of
/// their first reports.
pub struct ConsensusState {
    svc_count: usize,
    seen: usize,
    tallies: StringHashMap<Tally>,
    order: Vec<String>,
    replies: Ghost<Seq<Seq<char>>>,
}

/// A race as the contracts see it.
pub struct Race {
    /// How many services were asked.
    pub svc_count: nat,
    /// The replies so far, in arrival order.
    pub replies: Seq<Seq<char>>,
}

impl View for ConsensusState {
    type V = Race;

    closed spec fn view(&self) -> Race {
        Race { svc_count: self.svc_count as nat, replies: self.replies@ }
    }
}

/// A race after one more signal.
pub enum Step {
    /// The race goes on from this state.
    Pending(ConsensusState),
    /// The race is over, with this result.
    Finished(Result<String, ResolveError>),
}

impl Step {
    /// The step as the contracts see it.
    pub open spec fn outcome(&self) -> Outcome {
        match self {
            Step::Pending(_) => Outcome::Pending,
            Step::Finished(result) => outcome_of(*result),
        }
    }
}

/// The number of equal replies that decides a race among `svc_count` services
/// at once.
pub fn majority_of(svc_count: usize) -> (needed: usize)
    ensures
        needed == majority(svc_count as nat),
{
    svc_count / 2 + 1
}

/// A result as the contracts see it.
pub open spec fn outcome_of(result: Result<String, ResolveError>) -> Outcome {
    match result {
        Ok(zone) => Outcome::Decided(zone@),
        Err(error) => Outcome::Failed(error),
    }
}

/// The value in `order` that the plurality rule selects.
fn pick(
    order: &Vec<String>,
    tallies: &StringHashMap<Tally>,
    Ghost(replies): Ghost<Seq<Seq<char>>>,
) -> (zone: String)
    requires
        tracks(order@, tallies@, replies),
        replies.len() > 0,
    ensures
        is_winner(replies, zone@),
        zone@ == winner(replies),
{
    assert(order.len() > 0) by {
        let i = choose|i: int| 0 <= i < order.len() && (#[trigger] order[i])@ == replies[0];
    }
    let mut best: usize = 0;
    let mut held: Tally = *tallies.get(order[0].as_str()).unwrap();
    let mut i: usize = 1;
    while i < order.len()
        invariant
            tracks(order@, tallies@, replies),
            0 <= best < i <= order.len(),
            held == tallies@[order[best as int]@],
            forall|j: int|
                0 <= j < i && (#[trigger] order[j])@ != order[best as int]@ ==> outranks(
                    replies,
                    order[best as int]@,
                    order[j]@,
                ),
        decreases order.len() - i,
    {
        let tried: Tally = *tallies.get(order[i].as_str()).unwrap();
        proof {
            assert(tallies@.contains_key(order[best as int]@));
            assert(tallies@.contains_key(order[i as int]@));
            if order[i as int]@ != order[best as int]@ {
                lemma_first_seen_distinct(replies, order[best as int]@, order[i as int]@);
            }
        }
        if tried.count > held.count || (tried.count == held.count && tried.first_seen
            < held.first_seen) {
            proof {
                let ghost last = order[best as int]@;
                assert forall|j: int|
                    0 <= j < i + 1 && (#[trigger] order[j])@ != order[i as int]@ implies outranks(
                    replies,
                    order[i as int]@,
                    order[j]@,
                ) by {
                    if order[j]@ != last {
                        lemma_outranks_transitive(replies, order[i as int]@, last, order[j]@);
                    }
                }
            }
            best = i;
            held = tried;
        }
        i += 1;
    }
    let zone = order[best].clone();
    proof {
        assert forall|other: Seq<char>| #[trigger]
            replies.contains(other) && other != zone@ implies outranks(replies, zone@, other) by {
            let k = choose|k: int| 0 <= k < replies.len() && replies[k] == other;
            let j = choose|j: int| 0 <= j < order.len() && (#[trigger] order[j])@ == replies[k];
        }
        lemma_winner_exists(replies);
        lemma_winner_unique(replies, zone@, winner(replies));
    }
    zone
}

impl ConsensusState {
    #[verifier::type_invariant]
    spec fn wf(&self) -> bool {
        &&& self.seen == self.replies@.len()
        &&& (self.seen == 0 || self.seen < self.svc_count)
        &&& tracks(self.order@, self.tallies@, self.replies@)
    }

    /// A race among `svc_count` services, before any reply.
    pub fn new(svc_count: usize) -> (state: Self)
        ensures
            state@.svc_count == svc_count,
            state@.replies == Seq::<Seq<char>>::empty(),
    {
        ConsensusState {
            svc_count,
            seen: 0,
            tallies: StringHashMap::new(),
            order: Vec::new(),
            replies: Ghost(Seq::empty()),
        }
    }

    /// What the race has noted of `zone`: how often it was reported, and the
    /// ordinal of its first report. There is nothing where no reply was
    /// `zone`.
    pub fn tally(&self, zone: &str) -> (tally: Option<Tally>)
        ensures
            tally is Some <==> self@.replies.contains(zone@),
            tally matches Some(noted) ==> noted.count == count(self@.replies, zone@)
                && noted.first_seen == first_seen(self@.replies, zone@),
    {
        proof {
            use_type_invariant(self);
        }
        match self.tallies.get(zone) {
            Some(noted) => Some(*noted),
            None => None,
        }
    }

    /// Records one more reply.
    ///
    /// The race ends with `zone` if the reply gives it a majority, and with the
    /// plurality rule's choice if it is the last of the expected replies.
    /// Otherwise it goes on.
    pub fn record(self, zone: String) -> (step: Step)
        ensures
            step.outcome() == after(self@.replies, self@.svc_count, Signal::Reply(zone@)),
            match step {
                Step::Pending(next) => next@ == (Race {
                    svc_count: self@.svc_count,
                    replies: self@.replies.push(zone@),
                }) && next@.replies.len() < next@.svc_count,
                Step::Finished(_) => true,
            },
    {
        proof {
            use_type_invariant(&self);
        }
        let ghost before = self.replies@;
        let ConsensusState { svc_count, seen, mut tallies, mut order, replies: _ } = self;
        let ghost now = before.push(zone@);
        let ghost old_order = order@;
        let ghost old_tallies = tallies@;
        proof {
            lemma_count_and_first_seen(before, zone@);
        }
        let noted: Option<Tally> = match tallies.get(zone.as_str()) {
            Some(noted) => Some(*noted),
            None => None,
        };
        let reached: usize = match noted {
            Some(noted) => noted.count + 1,
            None => 1,
        };
        let ordinal: usize = match noted {
            Some(noted) => noted.first_seen,
            None => seen + 1,
        };
        tallies.insert(zone.clone(), Tally { count: reached, first_seen: ordinal });
        if noted.is_none() {
            order.push(zone.clone());
        }
        proof {
            assert(now[now.len() - 1] == zone@);
            lemma_count_push(before, zone@, zone@);
            assert(noted is Some <==> old_tallies.contains_key(zone@));
            assert(reached == count(now, zone@));
            assert forall|other: Seq<char>| #[trigger]
                tallies@.contains_key(other) <==> now.contains(other) by {
                lemma_count_push(before, zone@, other);
                lemma_count_and_first_seen(before, other);
                lemma_count_and_first_seen(now, other);
            }
            assert forall|other: Seq<char>| #[trigger] tallies@.contains_key(other) implies {
                &&& tallies@[other].count == count(now, other)
                &&& tallies@[other].first_seen == first_seen(now, other)
            } by {
                lemma_count_push(before, zone@, other);
                lemma_first_seen_push(before, zone@, other);
                lemma_count_and_first_seen(before, other);
            }
            assert forall|i: int| 0 <= i < order.len() implies now.contains(
                (#[trigger] order[i])@,
            ) by {
                if i < old_order.len() {
                    let k = choose|k: int| 0 <= k < before.len() && before[k] == old_order[i]@;
                    assert(now[k] == order[i]@);
                }
            }
            assert forall|k: int| 0 <= k < now.len() implies exists|i: int|
                0 <= i < order.len() && (#[trigger] order[i])@ == #[trigger] now[k] by {
                if old_tallies.contains_key(now[k]) {
                    let at = choose|at: int| 0 <= at < before.len() && before[at] == now[k];
                    let i = choose|i: int|
                        0 <= i < old_order.len() && (#[trigger] old_order[i])@ == before[at];
                    assert(order[i]@ == now[k]);
                } else {
                    if k < before.len() {
                        assert(before.contains(before[k]));
                    }
                    assert(order[order.len() - 1]@ == now[k]);
                }
            }
            assert(tracks(order@, tallies@, now));
        }
        if reached >= majority_of(svc_count) {
            Step::Finished(Ok(zone))
        } else if seen + 1 == svc_count {
            Step::Finished(Ok(pick(&order, &tallies, Ghost(now))))
        } else {
            Step::Pending(
                ConsensusState {
                    svc_count,
                    seen: seen + 1,
                    tallies,
                    order,
                    replies: Ghost(now),
                },
            )
        }
    }

    /// Ends the race where no further reply will be taken: after a timeout, or
    /// after a disconnection.
    ///
    /// The result is the plurality rule's choice among the replies so far.
    /// Without any reply it is the error that tells the two endings apart.
    pub fn conclude(self, timed_out: bool) -> (result: Result<String, ResolveError>)
        ensures
            outcome_of(result) == after(self@.replies, self@.svc_count, closing(timed_out)),
    {
        proof {
            use_type_invariant(&self);
        }
        if self.seen == 0 {
            if timed_out {
                Err(ResolveError::TimedOut)
            } else {
                Err(ResolveError::AllFailed)
            }
        } else {
            Ok(pick(&self.order, &self.tallies, Ghost(self.replies@)))
        }
    }

    /// Takes the next signal of the race: a reply is recorded, a timeout or a
    /// disconnection ends the race.
    pub fn observe(self, event: Recv) -> (step: Step)
        ensures
            step.outcome() == after(self@.replies, self@.svc_count, event@),
            match step {
                Step::Pending(next) => event matches Recv::Reply(zone) && next@ == (Race {
                    svc_count: self@.svc_count,
                    replies: self@.replies.push(zone@),
                }) && next@.replies.len() < next@.svc_count,
                Step::Finished(_) => true,
            },
    {
        match event {
            Recv::Reply(zone) => self.record(zone),
            Recv::Timeout => Step::Finished(self.conclude(true)),
            Recv::Disconnected => Step::Finished(self.conclude(false)),
        }
    }
}

/// Consensus mode on a race that is already over: `replies` arrived in this
/// order from among `svc_count` services, and then the deadline passed or the
/// services were exhausted.
///
/// The replies are taken one by one, and those behind the one that decides
/// are not looked at.
pub fn consensus_of(replies: &[String], svc_count: usize, timed_out: bool) -> (result: Result<
    String,
    ResolveError,
>)
    ensures
        outcome_of(result) == run(zones_of(replies@), svc_count as nat, timed_out),
{
    let ghost all = zones_of(replies@);
    let mut state = ConsensusState::new(svc_count);
    let mut taken: usize = 0;
    assert(all.take(0) =~= Seq::<Seq<char>>::empty());
    while taken < replies.len()
        invariant
            taken <= replies.len(),
            all == zones_of(replies@),
            state@ == (Race { svc_count: svc_count as nat, replies: all.take(taken as int) }),
            run(all, svc_count as nat, timed_out) == run_from(
                all,
                svc_count as nat,
                timed_out,
                taken as nat,
            ),
        decreases replies.len() - taken,
    {
        let zone = replies[taken].clone();
        assert(all.take(taken as int).push(zone@) =~= all.take(taken + 1));
        match state.record(zone) {
            Step::Pending(next) => {
                state = next;
            },
            Step::Finished(result) => {
                return result;
            },
        }
        taken += 1;
    }
    assert(all.take(taken as int) =~= all);
    state.conclude(timed_out)
}

} // verus!
