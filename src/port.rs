//! Ports: the directional views of a signal that module code works with.
//!
//! An [`In`] port owns one subscriber of a signal, an [`Out`] port one
//! publisher. A module touches signals only through its ports.

use crate::cursor::{blocking_step, nonblocking_read, Cursor, Delivery};
use crate::error::{BReadError, NBReadError, WriteError};
use crate::signal::{BoolEvent, Receiver, Sender, SignalRead, SignalWrite};
use vstd::prelude::*;

verus! {

/// Reading from an incoming port.
pub trait Read {
    /// Type of the data transported by the signal.
    type T: Clone + PartialEq;

    /// What the port has observed so far.
    spec fn state(&self) -> Cursor<Self::T>;

    /// Reads without waiting: the next pending value; with nothing pending
    /// the last value observed, or `Empty` before any; `Closed` once the
    /// signal is closed and drained, and from then on.
    fn nb_read(&mut self) -> (r: Result<Self::T, NBReadError>)
        ensures
            nonblocking_read(old(self).state(), final(self).state(), r),
    ;

    /// One step of a blocking read, on what the channel delivered: the read
    /// returns the first value that differs from the last one observed, or
    /// `Closed`; `None` means it keeps waiting.
    fn b_read_step(&mut self, d: Delivery<Self::T>) -> (r: Option<Result<Self::T, BReadError>>)
        ensures
            blocking_step(old(self).state(), d, final(self).state(), r),
    ;
}

/// Writing to an outgoing port.
pub trait Write {
    /// Type of the data transported by the signal.
    type T;

    /// Writes a value to the signal and returns at once; subscribers see it
    /// when they next read. Fails with `NoSubscribers` when the signal has
    /// no subscriber.
    fn nb_write(&self, val: Self::T) -> Result<(), WriteError>;
}

/// Waiting for a change on an incoming port, without its value.
pub trait Wait: Read {
    /// One step of a wait for a change: as a blocking read, with the value
    /// dropped.
    fn wait_step(&mut self, d: Delivery<Self::T>) -> (r: Option<Result<(), BReadError>>)
        ensures
            exists|b: Option<Result<Self::T, BReadError>>|
                {
                    &&& blocking_step(old(self).state(), d, final(self).state(), b)
                    &&& r == #[trigger] changed(b)
                },
    ;
}

/// The answer of a blocking read with its value dropped.
pub open spec fn changed<T>(b: Option<Result<T, BReadError>>) -> Option<Result<(), BReadError>> {
    match b {
        Some(Ok(_)) => Some(Ok(())),
        Some(Err(e)) => Some(Err(e)),
        None => None,
    }
}

/// A port for an incoming signal.
#[verifier::reject_recursive_types(T)]
pub struct In<T> {
    /// The subscriber this port reads through.
    pub signal: Receiver<T>,
}

/// A port for an outgoing signal.
#[verifier::reject_recursive_types(T)]
pub struct Out<T> {
    /// The publisher this port writes through.
    pub signal: Sender<T>,
}

impl<T: Clone + PartialEq> In<T> {
    /// The port that reads through subscriber `rx`.
    pub fn connect(rx: Receiver<T>) -> (r: Self)
        ensures
            r.signal == rx,
    {
        In { signal: rx }
    }
}

impl<T: Clone + PartialEq> Out<T> {
    /// The port that writes through publisher `tx`.
    pub fn connect(tx: Sender<T>) -> (r: Self)
        ensures
            r.signal == tx,
    {
        Out { signal: tx }
    }
}

impl<T: Clone + PartialEq> Read for In<T> {
    type T = T;

    open spec fn state(&self) -> Cursor<T> {
        self.signal.cursor
    }

    fn nb_read(&mut self) -> (r: Result<T, NBReadError>) {
        self.signal.nb_read()
    }

    fn b_read_step(&mut self, d: Delivery<T>) -> (r: Option<Result<T, BReadError>>) {
        self.signal.b_read_step(d)
    }
}

impl<T: Clone + PartialEq> Wait for In<T> {
    fn wait_step(&mut self, d: Delivery<T>) -> (r: Option<Result<(), BReadError>>) {
        let b = self.signal.b_read_step(d);
        let r = match b {
            Some(Ok(_)) => Some(Ok(())),
            Some(Err(e)) => Some(Err(e)),
            None => None,
        };
        assert(blocking_step(old(self).state(), d, self.state(), b) && r == changed(b));
        r
    }
}

impl<T: Clone + PartialEq> Write for Out<T> {
    type T = T;

    fn nb_write(&self, val: T) -> Result<(), WriteError> {
        self.signal.nb_write(val)
    }
}

impl BoolEvent for In<bool> {
    open spec fn edge_state(&self) -> Cursor<bool> {
        self.signal.cursor
    }

    fn posedge_step(&mut self, d: Delivery<bool>) -> (done: bool) {
        self.signal.posedge_step(d)
    }

    fn negedge_step(&mut self, d: Delivery<bool>) -> (done: bool) {
        self.signal.negedge_step(d)
    }
}

} // verus!
