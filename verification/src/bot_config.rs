//! The settings of the bot: who owns it and which feeds it forwards.

use teloxide::types::UserId;
use vstd::prelude::*;

verus! {

/// `teloxide::types::UserId`, the number of a user. Nothing is known of a
/// value of it: the settings only hold it for their reader.
#[verifier::external_type_specification]
#[verifier::external_body]
pub struct ExUserId(UserId);

/// Settings that hold for all feeds.
#[derive(Debug)]
pub struct General {
    /// The user who is told of items that could not be handled.
    pub owner_id: UserId,
}

/// One feed and where its items go.
#[derive(Debug, PartialEq, Eq)]
pub struct Feed {
    /// Where the feed is fetched from.
    pub url: String,
    /// The chat that its items are posted to.
    pub chat_id: String,
    /// The template of a post.
    pub post_format: String,
    /// How many identities the feed's cache holds.
    pub url_cache_size: usize,
}

/// All settings.
#[derive(Debug)]
pub struct BotConfig {
    pub general: General,
    pub feeds: Vec<Feed>,
}

/// The template of a post where a feed names none: the title, an empty line,
/// the link.
pub fn default_post_format() -> (format: String)
    ensures
        format@ == "$title\n\n$url"@,
{
    "$title\n\n$url".to_owned()
}

/// How many identities a cache holds where a feed names no number.
pub fn default_cache_size() -> (size: usize)
    ensures
        size == 1000,
{
    1000
}

} // verus!
