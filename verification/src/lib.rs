//! Planning rules of the Dayweave service.
pub mod admission;
pub mod documents;
pub mod ground_rules;
pub mod habits;
pub mod hashing;
pub mod idempotency;
pub mod ids;
pub mod items;
pub mod json;
pub mod numbers;
pub mod outbox;
pub mod outside;
pub mod proposals;
pub mod review;
pub mod routines;
pub mod sequences;
pub mod text;
pub mod time;
pub mod words;
