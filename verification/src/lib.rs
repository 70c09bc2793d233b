//! A minimal event-dispatch abstraction: sinks that process events and
//! dispatchers that route one payload to one bound sink. Beside it stands the
//! rule by which a field is appended to the syntax tree of a structure.

pub mod basic;
pub mod events;
pub mod fields;
