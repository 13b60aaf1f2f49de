//! Verified core of a sandboxed worker that talks to its host through a
//! shared-memory region holding two byte rings.
pub mod ring;
pub mod channel;
pub mod layout;
pub mod os;
pub mod linux;
pub mod kernel;
