//! Items: their content, their stored names and the rules of changing them.
pub mod batch;
pub mod bootstrap;
pub mod columns;
pub mod commands;
pub mod completion;
pub mod deltas;
pub mod delivery;
pub mod dependencies;
pub mod foresight;
pub mod hierarchy;
pub mod model;
pub mod names;
pub mod ordering;
pub mod progress;
pub mod projection;
pub mod safety;
pub mod storage;
pub mod visits;
pub mod workable;
