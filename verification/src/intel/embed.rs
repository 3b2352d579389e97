//! Embedding requests and similarity search limits.
use vstd::prelude::*;
use crate::text::{has_prefix, trim, trim_str, chars_of, starts_with_vec, string_of, u64_digits, decimal};
use crate::intel::config::SeerIntelConfig;
use crate::intel::preferences::{api_key_from_prefs_or_env, key_in_force, EnvKeys};

verus! {

/// Width of stored embeddings.
pub const SEER_INTEL_EMBEDDING_DIM: usize = 3072;

/// Why no embedding can be requested.
#[derive(Debug, Clone, Copy, PartialEq, Eq, Structural)]
pub enum EmbedSetupError {
    EmptyText,
    MissingApiKey,
    EmptyModel,
}

impl EmbedSetupError {
    pub fn message(&self) -> (r: String)
        ensures
            *self == EmbedSetupError::EmptyText ==> r@ == "empty text"@,
            *self == EmbedSetupError::MissingApiKey ==> r@
                == "missing Gemini API key (Intel preferences or GOOGLE_API_KEY)"@,
            *self == EmbedSetupError::EmptyModel ==> r@ == "embeddingModel is empty"@,
    {
        match self {
            EmbedSetupError::EmptyText => String::from_str("empty text"),
            EmbedSetupError::MissingApiKey => String::from_str(
                "missing Gemini API key (Intel preferences or GOOGLE_API_KEY)",
            ),
            EmbedSetupError::EmptyModel => String::from_str("embeddingModel is empty"),
        }
    }
}

/// An embedContent request: where it goes and the text it embeds.
#[derive(Debug, Clone)]
pub struct EmbedRequest {
    pub url: String,
    pub text: String,
}

pub open spec fn models_slash() -> Seq<char> {
    seq!['m', 'o', 'd', 'e', 'l', 's', '/']
}

/// The model path: the trimmed name, prefixed with `models/` unless it has it.
pub open spec fn model_path(model: Seq<char>) -> Seq<char> {
    if has_prefix(trim(model), models_slash()) {
        trim(model)
    } else {
        models_slash() + trim(model)
    }
}

/// The embedding request for `text`: the trimmed text must not be empty, a
/// key must be in force and the embedding model must be named.
pub fn embed_request(config: &SeerIntelConfig, text: &str, env: &EnvKeys) -> (r: Result<
    EmbedRequest,
    EmbedSetupError,
>)
    ensures
        trim(text@).len() == 0 ==> r == Err::<EmbedRequest, _>(EmbedSetupError::EmptyText),
        trim(text@).len() > 0 && key_in_force(config.api_key@, *env).len() == 0 ==> r == Err::<
            EmbedRequest,
            _,
        >(EmbedSetupError::MissingApiKey),
        trim(text@).len() > 0 && key_in_force(config.api_key@, *env).len() > 0 && trim(
            config.embedding_model@,
        ).len() == 0 ==> r == Err::<EmbedRequest, _>(EmbedSetupError::EmptyModel),
        r is Ok <==> trim(text@).len() > 0 && key_in_force(config.api_key@, *env).len() > 0 && trim(
            config.embedding_model@,
        ).len() > 0,
        r matches Ok(q) ==> q.text@ == trim(text@) && q.url@
            == "https://generativelanguage.googleapis.com/v1beta/"@ + model_path(
            config.embedding_model@,
        ) + ":embedContent?key="@ + key_in_force(config.api_key@, *env),
{
    let t = trim_str(text);
    if t.as_str().is_empty() {
        return Err(EmbedSetupError::EmptyText);
    }
    let key = api_key_from_prefs_or_env(config.api_key.as_str(), env);
    if key.as_str().is_empty() {
        return Err(EmbedSetupError::MissingApiKey);
    }
    let m = trim_str(config.embedding_model.as_str());
    if m.as_str().is_empty() {
        return Err(EmbedSetupError::EmptyModel);
    }
    let mv = chars_of(m.as_str());
    let p: Vec<char> = vec!['m', 'o', 'd', 'e', 'l', 's', '/'];
    let mut url = String::from_str("https://generativelanguage.googleapis.com/v1beta/");
    if !starts_with_vec(&mv, &p) {
        proof {
            reveal_strlit("models/");
            assert("models/"@ =~= models_slash());
        }
        url.append("models/");
    }
    url.append(m.as_str());
    url.append(":embedContent?key=");
    url.append(key.as_str());
    Ok(EmbedRequest { url, text: t })
}

/// Rows returned by a similarity search: 10 when no limit is given (0), at most 100.
pub fn similarity_limit(limit: u64) -> (r: u64)
    ensures
        r == similarity_rows(limit),
{
    if limit == 0 {
        10
    } else if limit <= 100 {
        limit
    } else {
        100
    }
}

/// Rows a similarity search returns for a requested limit.
pub open spec fn similarity_rows(limit: u64) -> u64 {
    if limit == 0 {
        10
    } else if limit <= 100 {
        limit
    } else {
        100
    }
}

/// The nearest-neighbour query for the pgvector literal `literal`.
pub open spec fn similarity_sql(literal: Seq<char>, limit: u64) -> Seq<char> {
    "SELECT id FROM seer_intels WHERE embedding IS NOT NULL ORDER BY embedding <=> '"@ + literal
        + "'::vector ASC LIMIT "@ + decimal(similarity_rows(limit) as nat)
}

/// The ids of the intel rows nearest to an embedding, best first.
pub fn similarity_query(literal: &str, limit: u64) -> (r: String)
    ensures
        r@ == similarity_sql(literal@, limit),
{
    let n = similarity_limit(limit);
    let digits = string_of(&u64_digits(n));
    let mut q = String::from_str(
        "SELECT id FROM seer_intels WHERE embedding IS NOT NULL ORDER BY embedding <=> '",
    );
    q.append(literal);
    q.append("'::vector ASC LIMIT ");
    q.append(digits.as_str());
    q
}

/// Message when the store cannot search by vector.
pub fn vector_search_unavailable_message() -> (r: String)
    ensures
        r@ == "vector search requires postgres"@,
{
    String::from_str("vector search requires postgres")
}

} // verus!
