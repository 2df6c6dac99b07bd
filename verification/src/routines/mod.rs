//! Occurrences of routines: their cursors, pages, evidence and admission.
pub mod admission;
pub mod cursors;
pub mod evidence;
pub mod model;
pub mod pages;
pub mod planning;
pub mod reliance;
