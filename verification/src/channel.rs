//! The channels between the actors, from `crossbeam::channel`.
//!
//! The library reaches the channels only through `Outbox` and `Inbox`, which
//! carry two pieces of ghost bookkeeping: the channel an end belongs to (named
//! by the sending end the channel was opened with), and, for a sending end,
//! every message handed to `send` through it, in order, with whether the
//! channel took it. Only the trusted `Outbox::send` extends these records.
use vstd::prelude::*;
use crossbeam::channel::{Receiver, SendError, Sender};

verus! {

#[verifier::external_type_specification]
#[verifier::external_body]
#[verifier::reject_recursive_types(T)]
pub struct ExSender<T>(Sender<T>);

#[verifier::external_type_specification]
#[verifier::external_body]
#[verifier::reject_recursive_types(T)]
pub struct ExReceiver<T>(Receiver<T>);

/// `crossbeam::channel::unbounded`: a new channel. Nothing is stated of the
/// two ends beyond their types.
#[verifier::external_body]
pub(crate) fn new_channel<T>() -> (Sender<T>, Receiver<T>) {
    crossbeam::channel::unbounded()
}

/// `Sender::clone`: another sending end of the same channel (not stated).
#[verifier::external_body]
pub(crate) fn clone_sender<T>(tx: &Sender<T>) -> Sender<T> {
    tx.clone()
}

/// `Receiver::clone`: another receiving end of the same channel (not stated).
#[verifier::external_body]
pub(crate) fn clone_receiver<T>(rx: &Receiver<T>) -> Receiver<T> {
    rx.clone()
}

/// A sending end of a channel.
#[verifier::reject_recursive_types(T)]
pub struct Outbox<T> {
    tx: Sender<T>,
    origin: Ghost<Sender<T>>,
    log: Ghost<Seq<T>>,
    outcomes: Ghost<Seq<bool>>,
}

/// A receiving end of a channel.
#[verifier::reject_recursive_types(T)]
pub struct Inbox<T> {
    rx: Receiver<T>,
    origin: Ghost<Sender<T>>,
}

/// Opens a channel: both ends belong to it, and nothing was handed yet.
pub fn open_channel<T>() -> (ends: (Outbox<T>, Inbox<T>))
    ensures
        ends.0.channel() == ends.1.channel(),
        ends.0.handed() == Seq::<T>::empty(),
        ends.0.delivered() == Seq::<bool>::empty(),
{
    let (tx, rx) = new_channel::<T>();
    let ghost origin = tx;
    (Outbox { tx, origin: Ghost(origin), log: Ghost(Seq::empty()), outcomes: Ghost(Seq::empty()) }, Inbox { rx, origin: Ghost(origin) })
}

impl<T> Outbox<T> {
    /// The channel this end sends on.
    pub closed spec fn channel(&self) -> Sender<T> {
        self.origin@
    }

    /// Every message handed to `send` through this end, in order.
    pub closed spec fn handed(&self) -> Seq<T> {
        self.log@
    }

    /// For every message handed to `send`, whether the channel took it.
    pub closed spec fn delivered(&self) -> Seq<bool> {
        self.outcomes@
    }

    /// `Sender::send`: hands the message to crossbeam. The records of this end
    /// grow by the message and by whether crossbeam took it; a refused message
    /// comes back unchanged. Whether it is taken depends on whether a
    /// receiving end is still connected, which this contract leaves open.
    #[verifier::external_body]
    pub(crate) fn send(&mut self, msg: T) -> (r: Result<(), T>)
        ensures
            final(self).channel() == old(self).channel(),
            final(self).handed() == old(self).handed().push(msg),
            final(self).delivered() == old(self).delivered().push(r is Ok),
            r matches Err(back) ==> back == msg,
    {
        match self.tx.send(msg) {
            Ok(()) => Ok(()),
            Err(SendError(back)) => Err(back),
        }
    }

    /// Another sending end of the same channel, with nothing handed through it yet.
    pub fn duplicate(&self) -> (other: Outbox<T>)
        ensures
            other.channel() == self.channel(),
            other.handed() == Seq::<T>::empty(),
            other.delivered() == Seq::<bool>::empty(),
    {
        Outbox {
            tx: clone_sender(&self.tx),
            origin: self.origin,
            log: Ghost(Seq::empty()),
            outcomes: Ghost(Seq::empty()),
        }
    }
}

impl<T> Inbox<T> {
    /// The channel this end receives from.
    pub closed spec fn channel(&self) -> Sender<T> {
        self.origin@
    }

    /// The crossbeam end itself.
    pub closed spec fn end(&self) -> Receiver<T> {
        self.rx
    }

    /// Another receiving end of the same channel.
    pub fn duplicate(&self) -> (other: Inbox<T>)
        ensures
            other.channel() == self.channel(),
    {
        Inbox { rx: clone_receiver(&self.rx), origin: self.origin }
    }

    /// The crossbeam end, to wait on.
    pub fn receiver(&self) -> (rx: &Receiver<T>)
        ensures
            *rx == self.end(),
    {
        &self.rx
    }
}

} // verus!
