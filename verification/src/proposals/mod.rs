//! Proposals and the change sets that they carry.
pub mod application;
pub mod domain;
pub mod keeping;
pub mod lifecycle;
pub mod names;
pub mod reading;
pub mod repository;
pub mod service;
pub mod storage;
