//! Clilint checks the behavior of command-line programs: it scores each
//! expectation of a check bundle from 0.0 through 4.0 and explains what
//! could improve.
use vstd::prelude::*;

pub mod assessment;
pub mod check_bundle;
pub mod engine;
pub mod evidence;
pub mod help_checker;
pub mod model;
pub mod project_config;
pub mod report;
pub mod runner;
pub mod cli;
pub mod text;

verus! {

/// The version of Clilint.
pub const VERSION: &'static str = "0.0.2";

} // verus!
