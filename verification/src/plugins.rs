//! Marker types of the four plugins and their state hooks.
use vstd::prelude::*;

verus! {

/// Marker of the intel plugin.
pub struct SeerIntelTag;

/// Marker of the node fleet plugin.
pub struct SeerNodeFleetTag;

/// Marker of the OpenSky plugin.
pub struct SeerOpenskyTag;

/// Marker of the Reddit plugin.
pub struct SeerRedditTag;

} // verus!
