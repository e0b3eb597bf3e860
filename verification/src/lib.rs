//! Latest-version lookup for named packages of a registry: the names of one
//! invocation are reduced to a batch without repeats, one lookup per name is
//! scheduled under a cap on simultaneous requests, every answer is classified,
//! and the classified outcomes are gathered into a report that holds each name
//! of the batch exactly once.

pub mod cli;
pub mod controller;
pub mod names;
pub mod outcome;
pub mod registry;
pub mod render;
pub mod report;
pub mod schedule;

pub use crate::outcome::{Crate, Error};
