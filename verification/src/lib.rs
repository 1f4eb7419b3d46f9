//! The logic of a batch job that claims encrypted records, has them transformed and stores what
//! comes of them.
pub mod aggregate;
pub mod args;
pub mod database;
pub mod fragments;
pub mod job;
pub mod json;
pub mod key;
pub mod registry;
pub mod report;
pub mod rules;
pub mod scheduler;
pub mod store;
pub mod text;
