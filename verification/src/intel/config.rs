//! Runtime intel settings (loaded from the preferences row).
use vstd::prelude::*;

verus! {

/// Name of the default model for titles and summaries.
pub open spec fn default_generate_model() -> Seq<char> {
    "gemini-2.0-flash"@
}

/// Name of the default embedding model.
pub open spec fn default_embed_model() -> Seq<char> {
    "gemini-embedding-001"@
}

#[derive(Debug, Clone)]
pub struct SeerIntelConfig {
    pub geocoding_api_key: String,
    pub title_model: String,
    pub summary_model: String,
    pub embedding_model: String,
    /// Optional Gemini API key (falls back to `GOOGLE_API_KEY` / `GEMINI_API_KEY`).
    pub api_key: String,
}

impl Default for SeerIntelConfig {
    fn default() -> (c: Self)
        ensures
            c.geocoding_api_key@ == Seq::<char>::empty(),
            c.title_model@ == default_generate_model(),
            c.summary_model@ == default_generate_model(),
            c.embedding_model@ == default_embed_model(),
            c.api_key@ == Seq::<char>::empty(),
    {
        SeerIntelConfig {
            geocoding_api_key: String::new(),
            title_model: default_title_model(),
            summary_model: default_summary_model(),
            embedding_model: default_embedding_model(),
            api_key: String::new(),
        }
    }
}

pub fn default_title_model() -> (r: String)
    ensures
        r@ == default_generate_model(),
{
    String::from_str("gemini-2.0-flash")
}

pub fn default_summary_model() -> (r: String)
    ensures
        r@ == default_generate_model(),
{
    String::from_str("gemini-2.0-flash")
}

pub fn default_embedding_model() -> (r: String)
    ensures
        r@ == default_embed_model(),
{
    String::from_str("gemini-embedding-001")
}

/// The default model names are not empty.
pub proof fn lemma_default_models_nonempty()
    ensures
        default_generate_model().len() > 0,
        default_embed_model().len() > 0,
{
    reveal_strlit("gemini-2.0-flash");
    reveal_strlit("gemini-embedding-001");
}

} // verus!
