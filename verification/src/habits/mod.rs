//! Habits: occurrences and their outcomes, pauses, and what becomes of missed
//! occurrences.
pub mod model;
pub mod names;
pub mod receipts;
pub mod outcomes;
pub mod passes;
pub mod pauses;
pub mod columns;
pub mod conduct;
pub mod history;
pub mod missed;
pub mod reconcile;
pub mod steps;
pub mod zones;
pub mod recurrence;
pub mod rows;
pub mod publication;
pub mod publishing;
