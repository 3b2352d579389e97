//! The OpenSky plugin's state hook (its attach step runs at the edge: it
//! starts the poller).
use vstd::prelude::*;

verus! {

#[derive(Clone, Copy, Default, Debug)]
pub struct StateHook;

} // verus!
