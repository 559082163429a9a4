//! Forwarding the items of feeds to chats, each item once.
//!
//! The heart of the crate is the cache of a feed: it knows by their canonical
//! identities the items that were forwarded already, holds a bounded number
//! of them, forgets the oldest first and is stored as plain text between
//! runs. Around it stand the rule that gives a URL its identity, the template
//! that makes a post of an item, and the judgement of a fetched feed, item by
//! item.
//!
//! Nothing here touches a file or the network: texts come in and go out as
//! values, and the caller reads, fetches, sends and writes.

pub mod bot_config;
pub mod cache;
pub mod cache_laws;
pub mod errors;
pub mod feed;
pub mod lines;
pub mod normalize;
pub mod storage;
pub mod text;
