//! Signals: the shared broadcast medium, with its publisher and subscriber
//! handles.
//!
//! A signal is a tokio broadcast channel that keeps one pending value. A
//! [`Sender`] publishes on it and may be cloned; the signal closes when the
//! last clone is dropped. A [`Receiver`] is one subscriber: the channel's
//! receive position plus the subscriber's own [`Cursor`].

use crate::cursor::{
    absorbed, answers, blocking_step, edge_done, fresh, nonblocking_read, poll_answer, polled, Cursor,
    Delivery, Edge,
};
use crate::error::{BReadError, NBReadError, WriteError};
use crate::port::{In, Out};
use tokio::sync::broadcast;
use tokio::sync::broadcast::Receiver as ChannelRx;
use tokio::sync::broadcast::Sender as ChannelTx;
use vstd::prelude::*;

verus! {

/// tokio's `broadcast::Sender`, carried as an opaque value.
#[verifier::external_type_specification]
#[verifier::external_body]
#[verifier::reject_recursive_types(T)]
pub struct ExBroadcastSender<T>(ChannelTx<T>);

/// tokio's `broadcast::Receiver`, carried as an opaque value.
#[verifier::external_type_specification]
#[verifier::external_body]
#[verifier::reject_recursive_types(T)]
pub struct ExBroadcastReceiver<T>(ChannelRx<T>);

/// How many published values a signal holds for subscribers that have not
/// read them yet.
pub const DEPTH: usize = 1;

/// How many lag reports in a row one non-blocking read skips before it
/// answers from the cursor alone. Each report means publishers overwrote the
/// buffer again while the read was draining it.
pub const MAX_SKIPS: u32 = 64;

/// Relies on tokio's `broadcast::channel`, which panics on a capacity of
/// zero or above `usize::MAX / 2`. The receiver it also makes is dropped.
#[verifier::external_body]
fn open_channel<T: Clone>(capacity: usize) -> ChannelTx<T>
    requires
        0 < capacity <= usize::MAX / 2,
{
    broadcast::channel(capacity).0
}

/// Relies on tokio's `broadcast::Sender::subscribe`: a new receive position
/// at the end of the channel.
#[verifier::external_body]
fn subscribe_to<T>(tx: &ChannelTx<T>) -> ChannelRx<T> {
    tx.subscribe()
}

/// Relies on tokio's `broadcast::Sender::clone`: one more live sender on the
/// same channel.
#[verifier::external_body]
fn share<T>(tx: &ChannelTx<T>) -> ChannelTx<T> {
    tx.clone()
}

/// Relies on tokio's `broadcast::Sender::send`: it succeeds with the number
/// of receivers, at least one, or fails with the value it was handed when
/// there is no receiver.
#[verifier::external_body]
fn send_value<T>(tx: &ChannelTx<T>, v: T) -> (r: Result<usize, T>)
    ensures
        r matches Ok(n) ==> n >= 1,
        r matches Err(w) ==> w == v,
{
    tx.send(v).map_err(|e| e.0)
}

/// Relies on tokio's `broadcast::Receiver::try_recv`; the lag count it
/// reports is not kept.
#[verifier::external_body]
fn try_receive<T: Clone>(rx: &mut ChannelRx<T>) -> Delivery<T> {
    match rx.try_recv() {
        Ok(v) => Delivery::Value(v),
        Err(broadcast::error::TryRecvError::Empty) => Delivery::Empty,
        Err(broadcast::error::TryRecvError::Lagged(_)) => Delivery::Lagged,
        Err(broadcast::error::TryRecvError::Closed) => Delivery::Closed,
    }
}

/// Reading from a signal, as one subscriber.
pub trait SignalRead {
    /// Type of the payload.
    type T: Clone + PartialEq;

    /// What this subscriber has observed so far.
    spec fn state(&self) -> Cursor<Self::T>;

    /// Reads without waiting: the next pending value; with nothing pending
    /// the last value observed, or `Empty` before any; `Closed` once the
    /// signal is closed and drained, and from then on.
    fn nb_read(&mut self) -> (r: Result<Self::T, NBReadError>)
        ensures
            nonblocking_read(old(self).state(), final(self).state(), r),
    ;

    /// One step of a blocking read, on what the channel delivered: the read
    /// returns the first value that differs from the last one observed, or
    /// `Closed`; `None` means it keeps waiting.
    fn b_read_step(&mut self, d: Delivery<Self::T>) -> (r: Option<Result<Self::T, BReadError>>)
        ensures
            blocking_step(old(self).state(), d, final(self).state(), r),
    ;
}

/// Writing to a signal.
pub trait SignalWrite {
    /// Type of the payload.
    type T;

    /// Publishes `val` to every current subscriber and returns at once.
    /// Fails with `NoSubscribers`, publishing nothing, when there is none.
    fn nb_write(&self, val: Self::T) -> Result<(), WriteError>;
}

/// Making ports on a signal.
pub trait Connect: Sized {
    /// Type of the payload.
    type T: Clone + PartialEq;

    /// A reading port with a subscriber of its own, which has observed
    /// nothing yet.
    fn connect_in(&mut self) -> (r: In<Self::T>)
        ensures
            r.signal.cursor == fresh::<Self::T>(),
            *final(self) == *old(self),
    ;

    /// A writing port that shares this publisher.
    fn connect_out(&mut self) -> (r: Out<Self::T>)
        ensures
            *final(self) == *old(self),
    ;
}

/// Edge events of a boolean signal.
pub trait BoolEvent {
    /// What this subscriber has observed so far.
    spec fn edge_state(&self) -> Cursor<bool>;

    /// One step of a wait for a rising edge, `false` then `true`; `true` when
    /// the wait is over.
    fn posedge_step(&mut self, d: Delivery<bool>) -> (done: bool)
        ensures
            final(self).edge_state() == absorbed(old(self).edge_state(), d),
            done == edge_done(old(self).edge_state(), Edge::Rising, d),
    ;

    /// One step of a wait for a falling edge, `true` then `false`; `true` when
    /// the wait is over.
    fn negedge_step(&mut self, d: Delivery<bool>) -> (done: bool)
        ensures
            final(self).edge_state() == absorbed(old(self).edge_state(), d),
            done == edge_done(old(self).edge_state(), Edge::Falling, d),
    ;
}

/// The publishing handle of a signal.
#[verifier::reject_recursive_types(T)]
pub struct Sender<T> {
    /// The channel's sending half.
    pub tx: ChannelTx<T>,
}

/// One subscriber of a signal.
#[verifier::reject_recursive_types(T)]
pub struct Receiver<T> {
    /// The channel's receive position for this subscriber.
    pub rx: ChannelRx<T>,
    /// What this subscriber observed so far.
    pub cursor: Cursor<T>,
}

/// Makes a new signal and returns its first publisher.
pub fn signal<T: Clone>() -> Sender<T> {
    Sender { tx: open_channel(DEPTH) }
}

impl<T: Clone + PartialEq> Sender<T> {
    /// A new subscriber. It starts out having observed nothing and sees only
    /// values published from now on.
    pub fn subscribe(&self) -> (r: Receiver<T>)
        ensures
            r.cursor == fresh::<T>(),
    {
        Receiver { rx: subscribe_to(&self.tx), cursor: Cursor::new() }
    }
}

impl<T: Clone + PartialEq> SignalWrite for Sender<T> {
    type T = T;

    fn nb_write(&self, val: T) -> Result<(), WriteError> {
        match send_value(&self.tx, val) {
            Ok(_) => Ok(()),
            Err(_) => Err(WriteError::NoSubscribers),
        }
    }
}

impl<T: Clone + PartialEq> Connect for Sender<T> {
    type T = T;

    fn connect_in(&mut self) -> (r: In<T>) {
        In::connect(self.subscribe())
    }

    fn connect_out(&mut self) -> (r: Out<T>) {
        Out::connect(self.clone())
    }
}

impl<T> Clone for Sender<T> {
    /// One more publisher on the same signal.
    fn clone(&self) -> Self {
        Sender { tx: share(&self.tx) }
    }
}

impl<T: Clone + PartialEq> SignalRead for Receiver<T> {
    type T = T;

    open spec fn state(&self) -> Cursor<T> {
        self.cursor
    }

    /// Lag reports are skipped: the channel has already moved this
    /// subscriber on to the oldest value it still holds. After `MAX_SKIPS`
    /// reports in a row the read answers as one that found nothing new.
    fn nb_read(&mut self) -> (r: Result<T, NBReadError>) {
        let mut skips: u32 = 0;
        while skips < MAX_SKIPS
            invariant
                self.cursor == old(self).cursor,
            decreases MAX_SKIPS - skips,
        {
            let d = try_receive(&mut self.rx);
            let ghost got = d;
            if let Some(r) = self.cursor.poll(d) {
                proof {
                    let w = if got is Lagged { Delivery::Empty } else { got };
                    assert(polled(old(self).cursor, w) == self.cursor);
                    assert(answers(Some(r), poll_answer(old(self).cursor, w)));
                }
                return r;
            }
            skips = skips + 1;
        }
        // Publishers kept overwriting the buffer: answer as a poll that found
        // nothing new.
        let r = self.cursor.poll(Delivery::Empty);
        assert(polled(old(self).cursor, Delivery::Empty) == self.cursor);
        match r {
            Some(r) => r,
            None => Err(NBReadError::Empty),
        }
    }

    fn b_read_step(&mut self, d: Delivery<T>) -> (r: Option<Result<T, BReadError>>) {
        self.cursor.absorb(d)
    }
}

impl BoolEvent for Receiver<bool> {
    open spec fn edge_state(&self) -> Cursor<bool> {
        self.cursor
    }

    fn posedge_step(&mut self, d: Delivery<bool>) -> (done: bool) {
        self.cursor.edge(Edge::Rising, d)
    }

    fn negedge_step(&mut self, d: Delivery<bool>) -> (done: bool) {
        self.cursor.edge(Edge::Falling, d)
    }
}

} // verus!
