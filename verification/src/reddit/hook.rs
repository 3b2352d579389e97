//! The Reddit plugin's hooks.
use vstd::prelude::*;
use crate::intel::kind::KindRegistry;

verus! {

/// Attaches the Reddit state: registers the `reddit` intel kind (runner
/// pools are started at the edge).
#[derive(Clone, Copy, Default, Debug)]
pub struct StateHook;

impl StateHook {
    pub fn register_kinds(registry: &mut KindRegistry)
        ensures
            final(registry)@ == old(registry)@.insert("reddit"@),
    {
        crate::reddit::intel_kind::register(registry);
    }
}

/// Registers the Reddit helpers of the assistant's script environment.
#[derive(Clone, Copy, Default, Debug)]
pub struct Hook;

} // verus!
