//! Decision logic of a small networked departure board.
//!
//! The crate holds the rules of the device and none of its I/O: the
//! firmware-transfer state machine, the routing of inbound broker messages,
//! the supervisory pipeline that brings the network, the clock and the broker
//! session up in turn, and the snapshot that the display folds events into.
//! Every function is a total function from plain values to plain values, so a
//! driver performs the commands it is handed and reports back what happened.

pub mod bus;
pub mod clock;
pub mod command;
pub mod display;
pub mod ota;
pub mod pipeline;
pub mod router;
pub mod state;
pub mod text;
