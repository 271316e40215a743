//! A two-party, multi-round commit-reveal game (an iterated Prisoner's-Dilemma
//! variant) with proof-gated reveals, deterministic scoring and one-time fund
//! settlement.
//!
//! The core protocol, scoring and settlement arithmetic live here and are
//! verified. External collaborators — the payment rail, the match registry and
//! the proof-verification oracle — are reached through ports: the [`hub::GameHub`]
//! trait and the [`verification::ProofVerifier`] trait. The embedding host wires
//! those ports to the real services and persists the session records.

pub mod errors;
pub mod game;
pub mod scoring;
pub mod verification;
pub mod settlement;
pub mod hub;
pub mod contract;
