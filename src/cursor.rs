//! The per-subscriber read state and the decisions every read makes.
//!
//! A subscriber owns a [`Cursor`]: the last value it observed and whether it
//! has seen its signal close. Each read hands the cursor one [`Delivery`],
//! what the channel answered, and the cursor decides what the read returns
//! and whether the read must ask the channel again.

use crate::error::{BReadError, NBReadError};
use vstd::prelude::*;
use vstd::std_specs::cmp::PartialEqSpec;

verus! {

/// What one receive on the channel answered.
pub enum Delivery<T> {
    /// The next value published on the signal.
    Value(T),
    /// Nothing is pending, and publishers are still alive.
    Empty,
    /// Values were overwritten before this subscriber read them; the
    /// channel has moved the subscriber on to the oldest value it still holds.
    Lagged,
    /// Every publisher is gone and nothing is left to drain.
    Closed,
}

/// The private read state of one subscriber.
pub struct Cursor<T> {
    /// The last value the subscriber observed, if any.
    pub last: Option<T>,
    /// Whether the subscriber has observed its signal close.
    pub closed: bool,
}

/// The transition a boolean signal is awaited for.
#[derive(Debug, Clone, Copy, PartialEq, Eq, Structural)]
pub enum Edge {
    /// From `false` to `true`.
    Rising,
    /// From `true` to `false`.
    Falling,
}

/// The cursor of a subscriber that has observed nothing yet.
pub open spec fn fresh<T>() -> Cursor<T> {
    Cursor { last: None, closed: false }
}

/// Whether `v` counts as a change against the last observed value.
pub open spec fn is_new<T: PartialEq>(last: Option<T>, v: T) -> bool {
    match last {
        Some(c) => !v.eq_spec(&c),
        None => true,
    }
}

/// The cursor after a non-blocking read received `d`.
pub open spec fn polled<T>(c: Cursor<T>, d: Delivery<T>) -> Cursor<T> {
    if c.closed {
        c
    } else {
        match d {
            Delivery::Value(v) => Cursor { last: Some(v), closed: false },
            Delivery::Closed => Cursor { last: c.last, closed: true },
            _ => c,
        }
    }
}

/// What a non-blocking read answers after receiving `d`; `None` when the
/// read must ask the channel again.
pub open spec fn poll_answer<T>(c: Cursor<T>, d: Delivery<T>) -> Option<Result<T, NBReadError>> {
    if c.closed {
        Some(Err(NBReadError::Closed))
    } else {
        match d {
            Delivery::Value(v) => Some(Ok(v)),
            Delivery::Empty => match c.last {
                Some(v) => Some(Ok(v)),
                None => Some(Err(NBReadError::Empty)),
            },
            Delivery::Lagged => None,
            Delivery::Closed => Some(Err(NBReadError::Closed)),
        }
    }
}

/// The cursor after a blocking read received `d`.
pub open spec fn absorbed<T: PartialEq>(c: Cursor<T>, d: Delivery<T>) -> Cursor<T> {
    if c.closed {
        c
    } else {
        match d {
            Delivery::Value(v) => if is_new(c.last, v) {
                Cursor { last: Some(v), closed: false }
            } else {
                c
            },
            Delivery::Closed => Cursor { last: c.last, closed: true },
            _ => c,
        }
    }
}

/// What a blocking read answers after receiving `d`; `None` when it keeps
/// waiting.
pub open spec fn absorb_answer<T: PartialEq>(c: Cursor<T>, d: Delivery<T>) -> Option<
    Result<T, BReadError>,
> {
    if c.closed {
        Some(Err(BReadError::Closed))
    } else {
        match d {
            Delivery::Value(v) => if is_new(c.last, v) {
                Some(Ok(v))
            } else {
                None
            },
            Delivery::Closed => Some(Err(BReadError::Closed)),
            _ => None,
        }
    }
}

/// Whether a wait for edge `e` is over after receiving `d`.
pub open spec fn edge_done(c: Cursor<bool>, e: Edge, d: Delivery<bool>) -> bool {
    match absorb_answer(c, d) {
        Some(Ok(v)) => v == (e == Edge::Rising) && c.last == Some(e == Edge::Falling),
        Some(Err(_)) => true,
        None => false,
    }
}

/// `r` is the answer `a`, up to cloning the value it carries.
pub open spec fn answers<T: Clone, E>(r: Option<Result<T, E>>, a: Option<Result<T, E>>) -> bool {
    match a {
        Some(Ok(v)) => r matches Some(Ok(x)) && cloned(v, x),
        _ => r == a,
    }
}

/// One blocking-read step took the cursor from `c` to `c2` with answer `r`
/// on delivery `d`. Where `==` of `T` is the one its specification
/// describes this is exactly `absorbed` and `absorb_answer`; in any case a
/// closed cursor answers `Closed` and stays, a `Closed` delivery closes it,
/// and the cursor moves only when a value is returned.
pub open spec fn blocking_step<T: Clone + PartialEq>(
    c: Cursor<T>,
    d: Delivery<T>,
    c2: Cursor<T>,
    r: Option<Result<T, BReadError>>,
) -> bool {
    &&& T::obeys_eq_spec() ==> c2 == absorbed(c, d)
    &&& T::obeys_eq_spec() ==> answers(r, absorb_answer(c, d))
    &&& c.closed ==> r == Some(Err::<T, BReadError>(BReadError::Closed)) && c2 == c
    &&& !c.closed && d is Closed ==> r == Some(Err::<T, BReadError>(BReadError::Closed)) && c2
        == absorbed(c, d)
    &&& !c.closed && !(d is Value) && !(d is Closed) ==> r is None && c2 == c
    &&& r is None ==> c2 == c
    &&& r matches Some(Ok(x)) ==> c2.last matches Some(v) && cloned(v, x)
}

/// A whole non-blocking read took the cursor from `c` to `c2` with result
/// `r`: a closed cursor answers `Closed` and stays; otherwise the read is one
/// step on some delivery that is not a lag report (lag reports are skipped).
pub open spec fn nonblocking_read<T: Clone>(
    c: Cursor<T>,
    c2: Cursor<T>,
    r: Result<T, NBReadError>,
) -> bool {
    &&& c.closed ==> r == Err::<T, NBReadError>(NBReadError::Closed) && c2 == c
    &&& exists|d: Delivery<T>|
        {
            &&& !(d is Lagged)
            &&& c2 == #[trigger] polled(c, d)
            &&& answers(Some(r), poll_answer(c, d))
        }
}

impl<T: Clone + PartialEq> Cursor<T> {
    /// A cursor that has observed nothing.
    pub fn new() -> (c: Self)
        ensures
            c == fresh::<T>(),
    {
        Cursor { last: None, closed: false }
    }

    /// One step of a non-blocking read: take what the channel answered.
    ///
    /// A new value replaces the last one and is returned; with nothing
    /// pending the last value is returned again, or `Empty` before any;
    /// after the signal closed every read is `Closed`.
    pub fn poll(&mut self, d: Delivery<T>) -> (r: Option<Result<T, NBReadError>>)
        ensures
            *final(self) == polled(*old(self), d),
            answers(r, poll_answer(*old(self), d)),
    {
        if self.closed {
            return Some(Err(NBReadError::Closed));
        }
        match d {
            Delivery::Value(v) => {
                let x = v.clone();
                self.last = Some(v);
                Some(Ok(x))
            },
            Delivery::Empty => match &self.last {
                Some(v) => Some(Ok(v.clone())),
                None => Some(Err(NBReadError::Empty)),
            },
            Delivery::Lagged => None,
            Delivery::Closed => {
                self.closed = true;
                Some(Err(NBReadError::Closed))
            },
        }
    }

    /// One step of a blocking read: take what the channel answered.
    ///
    /// A value that differs from the last one observed is kept and returned;
    /// a repeated value, a lag report or an empty channel keep the read
    /// waiting; once the signal closed the read ends with `Closed`.
    pub fn absorb(&mut self, d: Delivery<T>) -> (r: Option<Result<T, BReadError>>)
        ensures
            blocking_step(*old(self), d, *final(self), r),
    {
        if self.closed {
            return Some(Err(BReadError::Closed));
        }
        match d {
            Delivery::Value(v) => {
                let fresh_value = match &self.last {
                    Some(c) => !v.eq(c),
                    None => true,
                };
                if fresh_value {
                    let x = v.clone();
                    self.last = Some(v);
                    Some(Ok(x))
                } else {
                    None
                }
            },
            Delivery::Closed => {
                self.closed = true;
                Some(Err(BReadError::Closed))
            },
            _ => None,
        }
    }
}

impl Cursor<bool> {
    /// One step of a wait for edge `e`: take what the channel answered and
    /// say whether the wait is over.
    ///
    /// The wait ends when a blocking read would return the edge's target
    /// value and the value observed before it is the opposite one, or when
    /// the signal is closed. A first value, with none observed before it,
    /// is no transition and does not end the wait.
    pub fn edge(&mut self, e: Edge, d: Delivery<bool>) -> (done: bool)
        ensures
            *final(self) == absorbed(*old(self), d),
            done == edge_done(*old(self), e, d),
    {
        let was_true = match &self.last {
            Some(b) => *b,
            None => false,
        };
        let was_false = match &self.last {
            Some(b) => !*b,
            None => false,
        };
        match self.absorb(d) {
            Some(Ok(v)) => match e {
                Edge::Rising => v && was_false,
                Edge::Falling => !v && was_true,
            },
            Some(Err(_)) => true,
            None => false,
        }
    }
}

} // verus!
