//! Vault credential logic: backend selection, lookup-key derivation, key
//! migrations and credential transfers between backends.

pub mod backend;
pub mod model;
pub mod keys;
pub mod migration;
pub mod transfer;
pub mod flows;
pub mod group_change;
pub mod notices;
