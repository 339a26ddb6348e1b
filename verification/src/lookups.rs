//! The lookups that are under way: the channel on which their workers
//! report, and the record of what was taken from it.
//!
//! The workers are started by the caller, one per service, and each sends at
//! most one timezone identifier. What arrives, and when, no contract can say.
//! What was waited for and what came of it is written down here, in two logs
//! that nothing outside this module can write, so that the contracts of the
//! selection modes can speak of it.

use crate::consensus::Signal;
use crate::resolver::Recv;
use std::sync::mpsc::{Receiver, RecvTimeoutError};
use std::time::Duration;
use vstd::prelude::*;

verus! {

/// The receiving end of a channel of the standard library,
/// `std::sync::mpsc::Receiver`. Nothing is known of what it will deliver.
#[verifier::external_type_specification]
#[verifier::external_body]
#[verifier::reject_recursive_types(T)]
pub struct ExReceiver<T>(Receiver<T>);

/// Waits on the channel with `Receiver::recv_timeout`, for `wait` at most, and
/// reports a delivered value, the timeout or the disconnection that the call
/// returned. Nothing is claimed of which of them it is.
#[verifier::external_body]
fn wait_for_reply(receiver: &Receiver<String>, wait: Duration) -> (event: Recv) {
    match receiver.recv_timeout(wait) {
        Ok(zone) => Recv::Reply(zone),
        Err(RecvTimeoutError::Timeout) => Recv::Timeout,
        Err(RecvTimeoutError::Disconnected) => Recv::Disconnected,
    }
}

/// The lookups that are under way, and the channel on which their workers
/// report: each worker sends the timezone that its service gave, and a worker
/// that fails sends nothing.
pub struct SpawnedRequests {
    receiver: Receiver<String>,
    svc_count: usize,
    heard: Ghost<Seq<Signal>>,
    waited: Ghost<Seq<Duration>>,
}

impl SpawnedRequests {
    /// Every signal that a resolution on these lookups took so far, in order:
    /// what a wait on the channel gave, and the timeout that a resolution
    /// takes, without a wait, for a deadline that has passed.
    pub closed spec fn heard(&self) -> Seq<Signal> {
        self.heard@
    }

    /// The time allowed to each wait on the channel so far, in order.
    pub closed spec fn waited(&self) -> Seq<Duration> {
        self.waited@
    }

    /// How many services were asked.
    pub closed spec fn services(&self) -> nat {
        self.svc_count as nat
    }

    /// The lookups of `svc_count` services whose workers report to
    /// `receiver`, before any signal is taken.
    pub fn new(receiver: Receiver<String>, svc_count: usize) -> (requests: Self)
        ensures
            requests.services() == svc_count,
            requests.heard() == Seq::<Signal>::empty(),
            requests.waited() == Seq::<Duration>::empty(),
    {
        SpawnedRequests {
            receiver,
            svc_count,
            heard: Ghost(Seq::empty()),
            waited: Ghost(Seq::empty()),
        }
    }

    /// How many services were asked.
    pub fn svc_count(&self) -> (svc_count: usize)
        ensures
            svc_count == self.services(),
    {
        self.svc_count
    }

    /// Takes the next signal from the workers, waiting on the channel for
    /// `wait` at most.
    pub fn listen(&mut self, wait: Duration) -> (event: Recv)
        ensures
            final(self).services() == old(self).services(),
            final(self).heard() == old(self).heard().push(event@),
            final(self).waited() == old(self).waited().push(wait),
    {
        let event = wait_for_reply(&self.receiver, wait);
        proof {
            self.heard@ = self.heard@.push(event@);
            self.waited@ = self.waited@.push(wait);
        }
        event
    }

    /// Takes a timeout as the next signal, without a wait on the channel: the
    /// deadline has passed.
    pub(crate) fn lapse(&mut self) -> (event: Recv)
        ensures
            final(self).services() == old(self).services(),
            final(self).heard() == old(self).heard().push(Signal::Timeout),
            final(self).waited() == old(self).waited(),
            event@ == Signal::Timeout,
    {
        proof {
            self.heard@ = self.heard@.push(Signal::Timeout);
        }
        Recv::Timeout
    }
}

} // verus!
