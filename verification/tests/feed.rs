use std::path::PathBuf;

use feedbot::bot_config::{default_cache_size, default_post_format, Feed};
use feedbot::cache::UrlCache;
use feedbot::errors::BotError;
use feedbot::feed::{format_item, plan_feed, plan_item, FeedItem, ItemAction};

fn feed() -> Feed {
    Feed {
        url: String::from("https://example.com/feed.xml"),
        chat_id: String::from("@news"),
        post_format: default_post_format(),
        url_cache_size: 3,
    }
}

fn item(title: Option<&str>, link: Option<&str>) -> FeedItem {
    FeedItem {
        title: title.map(String::from),
        link: link.map(String::from),
        pub_date: None,
        author: None,
    }
}

fn post(text: &str) -> ItemAction {
    ItemAction::Post { chat_id: String::from("@news"), text: String::from(text) }
}

#[test]
fn defaults() {
    assert_eq!(default_post_format(), "$title\n\n$url");
    assert_eq!(default_cache_size(), 1000);
}

#[test]
fn default_format_gives_title_and_link() {
    let item = item(Some("Hello"), Some("http://a.com/1"));
    assert_eq!(format_item(&item, &default_post_format()), "Hello\n\nhttp://a.com/1");
}

#[test]
fn all_placeholders_are_filled() {
    let item = FeedItem {
        title: Some(String::from("T")),
        link: Some(String::from("http://a.com/1")),
        pub_date: Some(String::from("Mon, 01 Jan 2024")),
        author: Some(String::from("me")),
    };
    assert_eq!(
        format_item(&item, "$author: $title ($date) $url $title"),
        "me: T (Mon, 01 Jan 2024) http://a.com/1 T"
    );
}

#[test]
fn missing_fields_are_empty() {
    let item = item(None, Some("http://a.com/1"));
    assert_eq!(format_item(&item, "[$title][$date][$author] $url"), "[][][] http://a.com/1");
}

#[test]
fn fields_are_escaped() {
    let item = item(Some("Q&A <b>bold</b> \"quoted\""), Some("http://a.com/?a=1&b=2"));
    assert_eq!(
        format_item(&item, "$title\n$url"),
        "Q&amp;A &lt;b&gt;bold&lt;/b&gt; \"quoted\"\nhttp://a.com/?a=1&amp;b=2"
    );
}

#[test]
fn template_itself_is_not_escaped() {
    let item = item(Some("T"), Some("http://a.com/1"));
    assert_eq!(
        format_item(&item, "<a href=\"$url\">$title</a>"),
        "<a href=\"http://a.com/1\">T</a>"
    );
}

#[test]
fn written_line_feeds_become_line_feeds() {
    let item = item(Some("T"), Some("http://a.com/1"));
    assert_eq!(format_item(&item, "$title\\n\\n$url"), "T\n\nhttp://a.com/1");
    assert_eq!(format_item(&item, "\\\\n"), "\\\n");
}

#[test]
fn placeholders_in_earlier_fields_are_filled_by_later_ones() {
    let item = item(Some("see $url and $title"), Some("http://a.com/1"));
    assert_eq!(format_item(&item, "$title"), "see http://a.com/1 and $title");
}

#[test]
fn template_without_placeholders_stays() {
    let item = item(Some("T"), Some("http://a.com/1"));
    assert_eq!(format_item(&item, "plain $ text $titl"), "plain $ text $titl");
    assert_eq!(format_item(&item, ""), "");
}

#[test]
fn item_without_link_is_reported() {
    let mut cache = UrlCache::new(PathBuf::from("c.txt"), 3);
    let action = plan_item(&mut cache, &feed(), &item(Some("T"), None), false);
    assert_eq!(action, ItemAction::ReportMissingLink);
    assert_eq!(cache.save(), "");
}

#[test]
fn item_with_bad_link_is_reported() {
    let mut cache = UrlCache::new(PathBuf::from("c.txt"), 3);
    let action = plan_item(&mut cache, &feed(), &item(Some("T"), Some("/relative")), false);
    assert_eq!(
        action,
        ItemAction::ReportBadLink {
            url: String::from("/relative"),
            error: BotError::InvalidUrl { url: String::from("/relative") },
        }
    );
    let action =
        plan_item(&mut cache, &feed(), &item(Some("T"), Some("mailto:rms@example.net")), false);
    assert_eq!(
        action,
        ItemAction::ReportBadLink {
            url: String::from("mailto:rms@example.net"),
            error: BotError::NoDomain { url: String::from("mailto:rms@example.net") },
        }
    );
    assert_eq!(cache.save(), "");
}

#[test]
fn new_item_is_posted_once() {
    let mut cache = UrlCache::new(PathBuf::from("c.txt"), 3);
    let first = item(Some("T"), Some("http://www.a.com/1.html"));
    assert_eq!(plan_item(&mut cache, &feed(), &first, false), post("T\n\nhttp://www.a.com/1.html"));
    assert_eq!(plan_item(&mut cache, &feed(), &first, false), ItemAction::Skip);
    let again = item(Some("T again"), Some("https://a.com/1"));
    assert_eq!(plan_item(&mut cache, &feed(), &again, false), ItemAction::Skip);
    assert_eq!(cache.save(), "a.com/1");
}

#[test]
fn dry_run_withholds_but_remembers() {
    let mut cache = UrlCache::new(PathBuf::from("c.txt"), 3);
    let first = item(Some("T"), Some("http://a.com/1"));
    assert_eq!(plan_item(&mut cache, &feed(), &first, true), ItemAction::Withhold);
    assert_eq!(plan_item(&mut cache, &feed(), &first, true), ItemAction::Skip);
    assert_eq!(cache.save(), "a.com/1");
}

#[test]
fn feed_is_judged_item_by_item() {
    let mut cache = UrlCache::new(PathBuf::from("c.txt"), 2);
    assert_eq!(cache.insert("http://a.com/0"), Ok(true));
    let items = vec![
        item(Some("zero"), Some("http://a.com/0")),
        item(Some("one"), Some("http://a.com/1")),
        item(Some("none"), None),
        item(Some("one again"), Some("http://www.a.com/1/")),
        item(Some("bad"), Some("nonsense")),
        item(Some("two"), Some("http://a.com/2")),
        item(Some("zero is forgotten"), Some("http://a.com/0")),
    ];
    let actions = plan_feed(&mut cache, &feed(), &items, false);
    assert_eq!(
        actions,
        vec![
            ItemAction::Skip,
            post("one\n\nhttp://a.com/1"),
            ItemAction::ReportMissingLink,
            ItemAction::Skip,
            ItemAction::ReportBadLink {
                url: String::from("nonsense"),
                error: BotError::InvalidUrl { url: String::from("nonsense") },
            },
            post("two\n\nhttp://a.com/2"),
            post("zero is forgotten\n\nhttp://a.com/0"),
        ]
    );
    assert_eq!(cache.save(), "a.com/2\na.com/0");
}

#[test]
fn empty_feed_changes_nothing() {
    let mut cache = UrlCache::new(PathBuf::from("c.txt"), 2);
    assert_eq!(cache.insert("http://a.com/0"), Ok(true));
    assert_eq!(plan_feed(&mut cache, &feed(), &Vec::new(), false), Vec::new());
    assert_eq!(cache.save(), "a.com/0");
}
