//! Reddit posts as intel.
use vstd::prelude::*;
use crate::text::{i64_to_string, int_decimal};
use crate::intel::kind::{IntelKind, KindRegistry};
use crate::reddit::fetch::RedditPost;

verus! {

/// The part of a post that intel is made from.
#[derive(Debug, Clone)]
pub struct RedditIntelKind {
    pub id: i64,
    pub title: String,
    pub selftext: String,
    pub subreddit: String,
    pub permalink: String,
}

impl vstd::std_specs::convert::FromSpecImpl<RedditPost> for RedditIntelKind {
    open spec fn obeys_from_spec() -> bool {
        true
    }

    open spec fn from_spec(p: RedditPost) -> Self {
        RedditIntelKind {
            id: p.id,
            title: p.title,
            selftext: p.selftext,
            subreddit: p.subreddit,
            permalink: p.permalink,
        }
    }
}

impl From<RedditPost> for RedditIntelKind {
    fn from(p: RedditPost) -> (k: Self) {
        RedditIntelKind {
            id: p.id,
            title: p.title,
            selftext: p.selftext,
            subreddit: p.subreddit,
            permalink: p.permalink,
        }
    }
}

/// The text a post is summarized from.
pub open spec fn reddit_content(k: RedditIntelKind) -> Seq<char> {
    "r/"@ + k.subreddit@ + ": "@ + k.title@ + "\n\n"@ + k.selftext@ + "\n\n"@ + k.permalink@
}

impl IntelKind for RedditIntelKind {
    fn content(&self) -> (r: String)
        ensures
            r@ == reddit_content(*self),
    {
        let mut c = String::from_str("r/");
        c.append(self.subreddit.as_str());
        c.append(": ");
        c.append(self.title.as_str());
        c.append("\n\n");
        c.append(self.selftext.as_str());
        c.append("\n\n");
        c.append(self.permalink.as_str());
        c
    }

    fn kind(&self) -> (r: String)
        ensures
            r@ == "reddit"@,
    {
        String::from_str("reddit")
    }

    fn intel_id(&self) -> (r: i64)
        ensures
            r == self.id,
    {
        self.id
    }

    fn intel_detail(&self) -> (r: Result<String, String>)
        ensures
            r matches Ok(p) && p@ == "/seer-reddit/posts/"@ + int_decimal(self.id as int) + "/"@,
    {
        let mut p = String::from_str("/seer-reddit/posts/");
        let n = i64_to_string(self.id);
        p.append(n.as_str());
        p.append("/");
        Ok(p)
    }
}

/// Registers the `reddit` kind.
pub fn register(registry: &mut KindRegistry)
    ensures
        final(registry)@ == old(registry)@.insert("reddit"@),
{
    registry.register_intel_kind("reddit");
}

} // verus!
