//! A profile switcher for a coding assistant: named profiles of model names,
//! an API provider and extra variables, the environment each one launches
//! with, and the state machine of the terminal profile manager.

use vstd::prelude::*;

pub mod config;
pub mod launch;
pub mod strmap;
pub mod text;
pub mod tui;

verus! {

} // verus!
