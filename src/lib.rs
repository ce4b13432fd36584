use vstd::prelude::*;

pub mod classifier;
pub mod conversation;
pub mod host;
pub mod instrumentation;
pub mod json;
pub mod pipeline;
pub mod prompts;
pub mod scanner;
pub mod text;
pub mod validation;

verus! {

} // verus!
