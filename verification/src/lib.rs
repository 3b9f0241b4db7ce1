//! Verified building blocks for a small database front end.
//!
//! The core is the error bridge to a foreign caller that sees only status
//! codes and byte buffers: a closed taxonomy of errors ([`taxonomy`]), the
//! rendering of an error into a terminated buffer that the caller owns
//! ([`description`]), and a last-error channel through which messages
//! travel in a buffer of bounded size ([`channel`]), all resting on the
//! foreign convention that text ends at the first zero byte
//! ([`terminator`]).
//!
//! Beside it stand a schema that runs its migrations as command objects
//! ([`migration`]) and a builder ([`builder`]).

pub mod builder;
pub mod channel;
pub mod description;
pub mod migration;
pub mod taxonomy;
pub mod terminator;
mod trusted;
