//! Runtime OpenSky settings (loaded from the preferences row).
use vstd::prelude::*;

verus! {

#[derive(Debug, Clone)]
pub struct SeerOpenskyConfig {
    pub client_id: String,
    pub client_secret: String,
}

impl Default for SeerOpenskyConfig {
    fn default() -> (c: Self)
        ensures
            c.client_id@ == Seq::<char>::empty(),
            c.client_secret@ == Seq::<char>::empty(),
    {
        SeerOpenskyConfig { client_id: String::new(), client_secret: String::new() }
    }
}

} // verus!
