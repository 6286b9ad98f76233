//! Launching FreeRDP: which client, and what it is told.

pub mod detect;
pub mod ephemeral_args;
pub mod cert;
