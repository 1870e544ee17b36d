//! Simulation of networks of concurrently scheduled modules that talk only
//! through typed broadcast signals, in the style of a hardware description
//! simulator.
//!
//! The read side of a signal is a small state machine, [`cursor::Cursor`]:
//! the last value a subscriber observed and whether it has seen the signal
//! close. Every decision a read makes is a verified step of that machine;
//! the channel underneath is tokio's broadcast channel. Waiting itself is
//! left to the caller: a blocking read receives from the channel and hands
//! each delivery to a step until the step returns an answer.
//!
//! A network is described by a connection manifest, read by
//! [`manifest::parse_connections`], and one port-set manifest per module,
//! read by [`manifest::parse_ports`]. [`wiring::connections`] groups the
//! bindings into one unit per module, [`wiring::ports`] checks a unit's
//! bindings against its port set, and [`wiring::attach`] makes each port.

pub mod cursor;
pub mod error;
pub mod laws;
pub mod manifest;
pub mod port;
pub mod signal;
pub mod wiring;

pub use cursor::{Cursor, Delivery, Edge};
pub use error::{BReadError, NBReadError, WriteError};
pub use manifest::{parse_connections, parse_ports, ManifestError};
pub use port::{In, Out, Read, Wait, Write};
pub use signal::{signal, BoolEvent, Connect, Receiver, Sender, SignalRead, SignalWrite};
pub use wiring::{
    attach, connections, ports, terminals, Binding, PortDecl, PortSetError, Terminal, Unit, Way, WiringError,
};
