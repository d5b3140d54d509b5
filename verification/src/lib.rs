//! A stream correlation engine.
//!
//! Incoming log messages are grouped into live correlation contexts,
//! each governed by an immutable set of closing conditions: an overall
//! timeout, an optional cap on the number of accepted messages, and an
//! optional renew timeout measured from the last accepted message, all
//! combined with a logical OR and driven by an external logical clock.
//! A registry owns the live contexts, routes messages and timer ticks
//! to them, and reaps each context exactly once when a closing
//! condition fires, at which point an optional action renders a
//! correlated output message.  A single-threaded reactor demultiplexes
//! incoming requests to the handler registered for their kind.

pub mod action;
pub mod conditions;
pub mod context;
pub mod dispatcher;
pub mod error;
pub mod laws;
pub mod message;
pub mod parsers;
pub mod registry;
pub mod state;
pub mod timer;
