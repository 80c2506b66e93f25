//! Driver core for a sixteen-pin GPIO expander (MCP23017 family) spoken to
//! over a register-oriented serial bus.
//!
//! The driver is written as a pure transaction engine.  Every operation is
//! given the transport's answers so far (a list of [`Reply`] values) and
//! returns the bus commands it wants issued (a list of [`Cmd`] values)
//! together with its outcome.  A caller that owns a real bus runs a small
//! loop: call the operation, perform the next unanswered command on the
//! wire, append the answer, and call the operation again, until the outcome
//! is [`Progress::Complete`].  Everything the driver decides — which
//! registers to touch, which bits to flip, when to give up on a stuck
//! interrupt — is therefore ordinary verified code.

pub mod device;
pub mod pin;
pub mod transport;

pub use device::MCP23017;
pub use pin::{Bank, Compare, Feature, INTPOL, Mode, Pin, State};
pub use transport::{Cmd, Error, Progress, Reply, Step};
