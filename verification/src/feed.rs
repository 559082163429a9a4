//! What to do with the items of a fetched feed.
//!
//! Nothing is fetched or sent here. The items come in as plain values, and
//! what goes out is, for each item, what the caller has to do with it.

use vstd::prelude::*;
use crate::bot_config::Feed;
use crate::cache::{CacheState, UrlCache};
use crate::errors::{BotError, BotErrorView};
use crate::normalize::normalized;
use crate::text::{chars_of, option_text, replace_all, replace_chars, string_of};

verus! {

/// What a feed tells of one of its items.
#[derive(Debug, PartialEq, Eq)]
pub struct FeedItem {
    pub title: Option<String>,
    pub link: Option<String>,
    pub pub_date: Option<String>,
    pub author: Option<String>,
}

/// A `FeedItem` with its texts as character sequences.
pub struct FeedItemView {
    pub title: Option<Seq<char>>,
    pub link: Option<Seq<char>>,
    pub pub_date: Option<Seq<char>>,
    pub author: Option<Seq<char>>,
}

impl View for FeedItem {
    type V = FeedItemView;

    open spec fn view(&self) -> FeedItemView {
        FeedItemView {
            title: option_text(self.title),
            link: option_text(self.link),
            pub_date: option_text(self.pub_date),
            author: option_text(self.author),
        }
    }
}

/// What is to be done with one item of a feed.
#[derive(Debug, PartialEq, Eq)]
pub enum ItemAction {
    /// The item has no link: the owner is told.
    ReportMissingLink,
    /// The item's link has no identity: the owner is told.
    ReportBadLink { url: String, error: BotError },
    /// The item was seen before: nothing is done.
    Skip,
    /// The item is new, but nothing is sent in a dry run.
    Withhold,
    /// The item is new: the text goes to the chat.
    Post { chat_id: String, text: String },
}

/// An `ItemAction` with its texts as character sequences.
pub enum ItemActionView {
    ReportMissingLink,
    ReportBadLink { url: Seq<char>, error: BotErrorView },
    Skip,
    Withhold,
    Post { chat_id: Seq<char>, text: Seq<char> },
}

impl View for ItemAction {
    type V = ItemActionView;

    open spec fn view(&self) -> ItemActionView {
        match self {
            ItemAction::ReportMissingLink => ItemActionView::ReportMissingLink,
            ItemAction::ReportBadLink { url, error } => ItemActionView::ReportBadLink {
                url: url@,
                error: error@,
            },
            ItemAction::Skip => ItemActionView::Skip,
            ItemAction::Withhold => ItemActionView::Withhold,
            ItemAction::Post { chat_id, text } => ItemActionView::Post {
                chat_id: chat_id@,
                text: text@,
            },
        }
    }
}

/// What stands for `c` in a message: the entity for `&`, `<` and `>`, else
/// `c` itself.
pub open spec fn escaped_char(c: char) -> Seq<char> {
    if c == '&' {
        seq!['&', 'a', 'm', 'p', ';']
    } else if c == '<' {
        seq!['&', 'l', 't', ';']
    } else if c == '>' {
        seq!['&', 'g', 't', ';']
    } else {
        seq![c]
    }
}

/// `s` as it is written in a message: each character by what stands for it.
pub open spec fn escaped(s: Seq<char>) -> Seq<char>
    decreases s.len(),
{
    if s.len() == 0 {
        s
    } else {
        escaped(s.drop_last()) + escaped_char(s.last())
    }
}

/// `teloxide::utils::html::escape`: goes through the characters of `s` in
/// order and writes `&amp;` for `&`, `&lt;` for `<`, `&gt;` for `>` and every
/// other character as it is.
#[verifier::external_body]
fn escape_html(s: &str) -> (r: String)
    ensures
        r@ == escaped(s@),
{
    teloxide::utils::html::escape(s)
}

/// The text of a field, or the empty text for a field that is not there.
pub open spec fn text_or_empty(field: Option<Seq<char>>) -> Seq<char> {
    match field {
        Some(text) => text,
        None => Seq::empty(),
    }
}

/// The post for `item` after the template `post_format`: first each line
/// feed that is written out as a backslash and an `n` becomes a line feed,
/// then `$title`, `$url`, `$date` and `$author` are replaced, in this order,
/// by the escaped fields of the item. A field that is not there is empty.
pub open spec fn formatted(item: FeedItemView, post_format: Seq<char>) -> Seq<char> {
    let broken = replace_all(post_format, "\\n"@, "\n"@);
    let titled = replace_all(broken, "$title"@, escaped(text_or_empty(item.title)));
    let linked = replace_all(titled, "$url"@, escaped(text_or_empty(item.link)));
    let dated = replace_all(linked, "$date"@, escaped(text_or_empty(item.pub_date)));
    replace_all(dated, "$author"@, escaped(text_or_empty(item.author)))
}

/// `text` with each `placeholder` replaced by the escaped `field`.
fn fill(text: &Vec<char>, placeholder: &str, field: &Option<String>) -> (out: Vec<char>)
    requires
        placeholder@.len() > 0,
    ensures
        out@ == replace_all(text@, placeholder@, escaped(text_or_empty(option_text(*field)))),
{
    let value = match field {
        Some(f) => escape_html(f.as_str()),
        None => {
            proof {
                reveal_strlit("");
            }
            assert(""@ == Seq::<char>::empty());
            escape_html("")
        },
    };
    replace_chars(text, &chars_of(placeholder), &chars_of(value.as_str()))
}

/// Writes the post for an item that has a link, after a template.
pub fn format_item(item: &FeedItem, post_format: &str) -> (text: String)
    requires
        item.link is Some,
    ensures
        text@ == formatted(item@, post_format@),
{
    proof {
        reveal_strlit("\\n");
        reveal_strlit("$title");
        reveal_strlit("$url");
        reveal_strlit("$date");
        reveal_strlit("$author");
    }
    let text = replace_chars(&chars_of(post_format), &chars_of("\\n"), &chars_of("\n"));
    let text = fill(&text, "$title", &item.title);
    let text = fill(&text, "$url", &item.link);
    let text = fill(&text, "$date", &item.pub_date);
    let text = fill(&text, "$author", &item.author);
    string_of(&text, 0, text.len())
}

/// What becomes of the cache and what is to be done when `item` comes in.
///
/// An item without a link, or with a link that has no identity, is reported
/// and leaves the cache as it is. An item that the cache knows is skipped.
/// A new item enters the cache and is posted to the feed's chat, or withheld
/// in a dry run.
pub open spec fn planned(
    state: CacheState,
    chat_id: Seq<char>,
    post_format: Seq<char>,
    item: FeedItemView,
    dry_run: bool,
) -> (CacheState, ItemActionView) {
    match item.link {
        None => (state, ItemActionView::ReportMissingLink),
        Some(url) => match normalized(url) {
            Err(error) => (state, ItemActionView::ReportBadLink { url, error }),
            Ok(id) => if state.knows(id) {
                (state, ItemActionView::Skip)
            } else if dry_run {
                (state.inserted(id), ItemActionView::Withhold)
            } else {
                (
                    state.inserted(id),
                    ItemActionView::Post { chat_id, text: formatted(item, post_format) },
                )
            },
        },
    }
}

/// What becomes of the cache and what is to be done when `items` come in,
/// one after the other.
pub open spec fn planned_all(
    state: CacheState,
    chat_id: Seq<char>,
    post_format: Seq<char>,
    items: Seq<FeedItemView>,
    dry_run: bool,
) -> (CacheState, Seq<ItemActionView>)
    decreases items.len(),
{
    if items.len() == 0 {
        (state, Seq::empty())
    } else {
        let (mid, actions) = planned_all(state, chat_id, post_format, items.drop_last(), dry_run);
        let (end, action) = planned(mid, chat_id, post_format, items.last(), dry_run);
        (end, actions.push(action))
    }
}

/// The items as mathematical values.
pub open spec fn item_views(items: Seq<FeedItem>) -> Seq<FeedItemView> {
    items.map_values(|item: FeedItem| item@)
}

/// The actions as mathematical values.
pub open spec fn action_views(actions: Seq<ItemAction>) -> Seq<ItemActionView> {
    actions.map_values(|action: ItemAction| action@)
}

/// Judges one item of a feed against the feed's cache.
pub fn plan_item(cache: &mut UrlCache, feed: &Feed, item: &FeedItem, dry_run: bool) -> (action:
    ItemAction)
    ensures
        (final(cache)@, action@) == planned(
            old(cache)@,
            feed.chat_id@,
            feed.post_format@,
            item@,
            dry_run,
        ),
        final(cache).location() == old(cache).location(),
        final(cache)@.valid(),
{
    let url = match &item.link {
        Some(url) => url,
        None => {
            proof {
                use_type_invariant(&*cache);
            }
            return ItemAction::ReportMissingLink;
        },
    };
    match cache.insert(url.as_str()) {
        Err(error) => ItemAction::ReportBadLink { url: url.clone(), error },
        Ok(false) => ItemAction::Skip,
        Ok(true) => {
            if dry_run {
                ItemAction::Withhold
            } else {
                ItemAction::Post {
                    chat_id: feed.chat_id.clone(),
                    text: format_item(item, feed.post_format.as_str()),
                }
            }
        },
    }
}

/// Judges the items of a feed, in order, against the feed's cache.
pub fn plan_feed(cache: &mut UrlCache, feed: &Feed, items: &Vec<FeedItem>, dry_run: bool) -> (actions:
    Vec<ItemAction>)
    ensures
        (final(cache)@, action_views(actions@)) == planned_all(
            old(cache)@,
            feed.chat_id@,
            feed.post_format@,
            item_views(items@),
            dry_run,
        ),
        actions.len() == items.len(),
        final(cache).location() == old(cache).location(),
        final(cache)@.valid(),
{
    let mut actions: Vec<ItemAction> = Vec::new();
    let n = items.len();
    let mut i: usize = 0;
    proof {
        use_type_invariant(&*cache);
    }
    while i < n
        invariant
            n == items.len(),
            i <= n,
            actions.len() == i,
            cache.location() == old(cache).location(),
            cache@.valid(),
            (cache@, action_views(actions@)) == planned_all(
                old(cache)@,
                feed.chat_id@,
                feed.post_format@,
                item_views(items@).take(i as int),
                dry_run,
            ),
        decreases n - i,
    {
        let action = plan_item(cache, feed, &items[i], dry_run);
        actions.push(action);
        proof {
            let views = item_views(items@);
            assert(views.take(i + 1).drop_last() == views.take(i as int));
        }
        i += 1;
    }
    assert(item_views(items@).take(n as int) == item_views(items@));
    actions
}

} // verus!
