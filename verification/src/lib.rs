//! Staking-backed accountability challenges.
//!
//! Participants lock a fixed stake to enroll in a challenge, are credited for
//! days on which they meet a daily step goal, and when the challenge window
//! closes the stakes of participants who did not fully complete the challenge
//! are redistributed to those who did.
//!
//! The library holds the challenge lifecycle state machine and its reward
//! economics: enrollment, per-day progress tracking, end-of-challenge
//! tallying, and payout computation. Durable storage, identity
//! authentication, the value-transfer primitive and the wall clock are
//! external collaborators: identities arrive as plain values already
//! authenticated, the current time is supplied per call, and handlers report
//! the amount to move so the custody layer can perform the transfer.

pub mod challenge;
pub mod challenges;
pub mod errors;
pub mod participant;
pub mod rewards;
pub mod verification;
