//! Core logic of a per-account scheduled task runner for a remote game
//! service: eligibility rules for claim and conversion actions, selection of
//! claimable quests and premium picks, a per-job state machine that never
//! overlaps executions of the same job, and the account registry with its
//! login-link handling.

pub mod login;
pub mod numfmt;
pub mod registry;
pub mod scheduler;
pub mod session;
pub mod utils;
