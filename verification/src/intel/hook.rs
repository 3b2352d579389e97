//! The intel plugin's state hook (its attach step runs at the edge: it
//! opens the ingest channel and starts the worker).
use vstd::prelude::*;

verus! {

#[derive(Clone, Copy, Default, Debug)]
pub struct StateHook;

} // verus!
