//! Code generation for the polyplug plugin runtime: from a validated API
//! description to host and guest bindings in several languages.
use vstd::prelude::*;

pub mod cli;
pub mod error;
pub mod generators;
pub mod ir;
pub mod output;
pub mod text;

pub use crate::output::{parse_lang, WriteSummary};

verus! {
} // verus!
