//! Request handling: who may do what, and what it changes.

pub mod audit;
pub mod guards;
pub mod health;
pub mod keys;
pub mod resources;
pub mod sources;
pub mod support;
pub mod sync_logs;
pub mod sync_tasks;
pub mod vaults;
