//! The review of change sets, and their application and undoing.
pub mod applications;
pub mod asking;
pub mod attention;
pub mod conflicts;
pub mod decisions;
pub mod diffs;
pub mod errors;
pub mod hashes;
pub mod previews;
pub mod requests;
pub mod reviewing;
pub mod risks;
pub mod showing;
pub mod simulation;
pub mod standing;
pub mod taking_back;
pub mod undoing;
