//! Profile management for an external coding-assistant executable: a store of
//! named configuration profiles kept under one configuration directory, and a
//! merge engine that reconciles locally created profiles with profiles
//! imported from the CC-Switch database.
//!
//! The store and the merge engine are verified: every operation carries a
//! contract that pins down the resulting state. Reading and writing the
//! configuration directory itself, prompting the user, and launching the
//! executable are left to the surrounding binary, which hands this library
//! plain values and persists what the contracts describe.

pub mod completions;
pub mod error;
pub mod jsontext;
pub mod launcher;
pub mod merge;
pub mod profile;
pub mod storage;
pub mod views;
