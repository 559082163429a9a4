use std::path::PathBuf;

use feedbot::cache::{ReadOutcome, UrlCache, WriteOutcome};
use feedbot::storage::make_cache_filename;
use feedbot::errors::BotError;

fn cache(cache_size: usize) -> UrlCache {
    UrlCache::new(PathBuf::from("cache/feed.txt"), cache_size)
}

fn contents(text: &str) -> ReadOutcome {
    ReadOutcome::Contents { text: String::from(text) }
}

#[test]
fn evicts_oldest_and_recognises_variants() {
    let mut cache = cache(2);
    assert_eq!(cache.insert("http://a.com/1"), Ok(true));
    assert_eq!(cache.insert("http://a.com/2"), Ok(true));
    assert_eq!(cache.insert("http://a.com/3"), Ok(true));
    assert_eq!(cache.save(), "a.com/2\na.com/3");
    assert_eq!(cache.insert("http://www.a.com/2.html"), Ok(false));
    assert_eq!(cache.save(), "a.com/2\na.com/3");
    assert_eq!(cache.insert("http://a.com/1"), Ok(true));
    assert_eq!(cache.save(), "a.com/3\na.com/1");
}

#[test]
fn new_cache_is_empty() {
    let cache = cache(5);
    assert_eq!(cache.save(), "");
    assert_eq!(cache.filename(), &PathBuf::from("cache/feed.txt"));
}

#[test]
fn first_insert_is_new_and_later_ones_are_not() {
    let mut cache = cache(3);
    assert_eq!(cache.load(ReadOutcome::Missing), Ok(()));
    assert_eq!(cache.insert("https://a.com/post"), Ok(true));
    assert_eq!(cache.insert("https://a.com/post"), Ok(false));
    assert_eq!(cache.insert("http://www.a.com/post/"), Ok(false));
    assert_eq!(cache.insert("http://a.com/post.htm?ref=feed"), Ok(false));
    assert_eq!(cache.save(), "a.com/post");
}

#[test]
fn cache_without_room_knows_nothing() {
    let mut cache = cache(0);
    assert_eq!(cache.insert("http://a.com/1"), Ok(true));
    assert_eq!(cache.insert("http://a.com/1"), Ok(true));
    assert_eq!(cache.save(), "");
    assert_eq!(cache.load(contents("a.com/1\na.com/2")), Ok(()));
    assert_eq!(cache.save(), "");
}

#[test]
fn holds_the_last_of_many_distinct_identities() {
    let mut cache = cache(3);
    for n in 0..10 {
        assert_eq!(cache.insert(&format!("http://a.com/{}", n)), Ok(true));
    }
    assert_eq!(cache.save(), "a.com/7\na.com/8\na.com/9");
}

#[test]
fn cache_of_one() {
    let mut cache = cache(1);
    assert_eq!(cache.insert("http://a.com/1"), Ok(true));
    assert_eq!(cache.insert("http://a.com/1"), Ok(false));
    assert_eq!(cache.insert("http://a.com/2"), Ok(true));
    assert_eq!(cache.insert("http://a.com/1"), Ok(true));
    assert_eq!(cache.save(), "a.com/1");
}

#[test]
fn seen_identity_does_not_move_to_the_end() {
    let mut cache = cache(2);
    assert_eq!(cache.insert("http://a.com/1"), Ok(true));
    assert_eq!(cache.insert("http://a.com/2"), Ok(true));
    assert_eq!(cache.insert("http://a.com/1"), Ok(false));
    assert_eq!(cache.insert("http://a.com/3"), Ok(true));
    assert_eq!(cache.save(), "a.com/2\na.com/3");
}

#[test]
fn invalid_url_leaves_the_cache_alone() {
    let mut cache = cache(2);
    assert_eq!(cache.insert("http://a.com/1"), Ok(true));
    assert_eq!(
        cache.insert("not a url"),
        Err(BotError::InvalidUrl { url: String::from("not a url") })
    );
    assert_eq!(
        cache.insert("mailto:rms@example.net"),
        Err(BotError::NoDomain { url: String::from("mailto:rms@example.net") })
    );
    assert_eq!(cache.save(), "a.com/1");
}

#[test]
fn missing_storage_gives_an_empty_cache() {
    let mut cache = cache(2);
    assert_eq!(cache.insert("http://a.com/1"), Ok(true));
    assert_eq!(cache.load(ReadOutcome::Missing), Ok(()));
    assert_eq!(cache.save(), "");
    assert_eq!(cache.insert("http://a.com/1"), Ok(true));
}

#[test]
fn unreadable_storage_is_an_error() {
    let mut cache = cache(2);
    assert_eq!(cache.insert("http://a.com/1"), Ok(true));
    assert_eq!(
        cache.load(ReadOutcome::Failed { detail: String::from("permission denied") }),
        Err(BotError::StorageRead { detail: String::from("permission denied") })
    );
    assert_eq!(cache.save(), "a.com/1");
}

#[test]
fn load_takes_the_stored_lines() {
    let mut cache = cache(5);
    assert_eq!(cache.load(contents("a.com/1\na.com/2\nb.org/x")), Ok(()));
    assert_eq!(cache.save(), "a.com/1\na.com/2\nb.org/x");
    assert_eq!(cache.insert("http://a.com/2"), Ok(false));
    assert_eq!(cache.insert("http://b.org/x.html"), Ok(false));
    assert_eq!(cache.insert("http://b.org/y"), Ok(true));
}

#[test]
fn load_drops_empty_lines() {
    let mut cache = cache(5);
    assert_eq!(cache.load(contents("\n\na.com/1\n\na.com/2\n")), Ok(()));
    assert_eq!(cache.save(), "a.com/1\na.com/2");
    assert_eq!(cache.load(contents("")), Ok(()));
    assert_eq!(cache.save(), "");
    assert_eq!(cache.load(contents("\n")), Ok(()));
    assert_eq!(cache.save(), "");
}

#[test]
fn load_takes_a_repeated_line_once() {
    let mut cache = cache(2);
    assert_eq!(cache.load(contents("a.com/1\na.com/1")), Ok(()));
    assert_eq!(cache.save(), "a.com/1");
    assert_eq!(cache.insert("http://a.com/2"), Ok(true));
    assert_eq!(cache.insert("http://a.com/3"), Ok(true));
    assert_eq!(cache.save(), "a.com/2\na.com/3");
    assert_eq!(cache.insert("http://a.com/1"), Ok(true));
}

#[test]
fn load_keeps_the_newest_of_a_repeated_line() {
    let mut cache = cache(5);
    assert_eq!(cache.load(contents("a.com/1\na.com/2\na.com/1\na.com/3\na.com/2\n")), Ok(()));
    assert_eq!(cache.save(), "a.com/1\na.com/3\na.com/2");
    assert_eq!(cache.insert("http://a.com/1"), Ok(false));
    assert_eq!(cache.insert("http://a.com/2"), Ok(false));
    assert_eq!(cache.insert("http://a.com/3"), Ok(false));
}

#[test]
fn load_counts_each_line_once_before_it_cuts_down() {
    let mut cache = cache(2);
    assert_eq!(cache.load(contents("a.com/1\na.com/2\na.com/3\na.com/3\na.com/3")), Ok(()));
    assert_eq!(cache.save(), "a.com/2\na.com/3");
    assert_eq!(cache.load(contents("a.com/1\na.com/2\na.com/1\na.com/2\na.com/1")), Ok(()));
    assert_eq!(cache.save(), "a.com/2\na.com/1");
}

#[test]
fn load_keeps_the_newest_that_fit() {
    let mut cache = cache(2);
    assert_eq!(cache.load(contents("a.com/1\na.com/2\na.com/3\na.com/4")), Ok(()));
    assert_eq!(cache.save(), "a.com/3\na.com/4");
    assert_eq!(cache.insert("http://a.com/1"), Ok(true));
    assert_eq!(cache.save(), "a.com/4\na.com/1");
}

#[test]
fn load_of_exactly_the_capacity_keeps_all() {
    let mut cache = cache(3);
    assert_eq!(cache.load(contents("a.com/1\na.com/2\na.com/3\n")), Ok(()));
    assert_eq!(cache.save(), "a.com/1\na.com/2\na.com/3");
}

#[test]
fn load_replaces_what_was_held() {
    let mut cache = cache(3);
    assert_eq!(cache.insert("http://a.com/old"), Ok(true));
    assert_eq!(cache.load(contents("a.com/new")), Ok(()));
    assert_eq!(cache.save(), "a.com/new");
    assert_eq!(cache.insert("http://a.com/old"), Ok(true));
}

#[test]
fn stored_lines_are_not_normalized_again() {
    let mut cache = cache(3);
    assert_eq!(cache.load(contents("www.a.com/post.html")), Ok(()));
    assert_eq!(cache.save(), "www.a.com/post.html");
    assert_eq!(cache.insert("http://www.a.com/post.html"), Ok(true));
    assert_eq!(cache.save(), "www.a.com/post.html\na.com/post");
}

#[test]
fn non_ascii_lines_are_kept() {
    let mut cache = cache(3);
    assert_eq!(cache.load(contents("a.com/caf\u{e9}\n\u{4f8b}.jp/x")), Ok(()));
    assert_eq!(cache.save(), "a.com/caf\u{e9}\n\u{4f8b}.jp/x");
}

#[test]
fn save_then_load_gives_the_same_cache() {
    let mut first = cache(4);
    for url in ["http://a.com/1", "http://b.org/?p=2", "https://www.c.net/x/y.html"] {
        assert_eq!(first.insert(url), Ok(true));
    }
    let text = first.save();
    assert_eq!(text, "a.com/1\nb.org/?p=2\nc.net/x/y");

    let mut second = cache(4);
    assert_eq!(second.load(ReadOutcome::Contents { text: text.clone() }), Ok(()));
    assert_eq!(second.save(), text);
    for url in ["http://a.com/1", "http://b.org/?p=2", "https://www.c.net/x/y.html"] {
        assert_eq!(second.insert(url), Ok(false));
    }
    assert_eq!(second.insert("http://d.com/new"), Ok(true));
    assert_eq!(second.insert("http://e.com/new"), Ok(true));
    assert_eq!(second.save(), "b.org/?p=2\nc.net/x/y\nd.com/new\ne.com/new");
}

#[test]
fn save_then_load_into_a_larger_cache() {
    let mut first = cache(3);
    for n in 0..5 {
        assert_eq!(first.insert(&format!("http://a.com/{}", n)), Ok(true));
    }
    let text = first.save();
    let mut second = cache(10);
    assert_eq!(second.load(ReadOutcome::Contents { text: text.clone() }), Ok(()));
    assert_eq!(second.save(), text);
    for n in 0..5 {
        let url = format!("http://a.com/{}", n);
        assert_eq!(second.insert(&url), Ok(n < 2));
    }
}

#[test]
fn address_as_host_is_cached() {
    let mut cache = cache(2);
    assert_eq!(cache.insert("http://10.0.0.1/x"), Ok(true));
    assert_eq!(cache.insert("https://10.0.0.1/x.html"), Ok(false));
    assert_eq!(cache.save(), "10.0.0.1/x");
}

#[test]
fn write_outcome_is_reported() {
    assert_eq!(WriteOutcome::Done.report(), Ok(()));
    assert_eq!(
        WriteOutcome::Failed { detail: String::from("no such directory") }.report(),
        Err(BotError::StorageWrite { detail: String::from("no such directory") })
    );
}

#[test]
fn cache_file_name_is_made_of_chat_and_encoded_feed() {
    assert_eq!(
        make_cache_filename("@news", "https://example.com/feed.xml"),
        "@news-https%3A%2F%2Fexample.com%2Ffeed.xml.txt"
    );
    assert_eq!(
        make_cache_filename("-100123", "http://a.com/rss?tag=a b&x=*_~"),
        "-100123-http%3A%2F%2Fa.com%2Frss%3Ftag%3Da+b%26x%3D*_%7E.txt"
    );
    assert_eq!(make_cache_filename("c", "caf\u{e9}"), "c-caf%C3%A9.txt");
    assert_eq!(make_cache_filename("", ""), "-.txt");
}

#[test]
fn cache_file_name_is_the_same_each_time() {
    assert_eq!(
        make_cache_filename("@news", "https://example.com/feed.xml"),
        make_cache_filename("@news", "https://example.com/feed.xml")
    );
    assert_ne!(
        make_cache_filename("@news", "https://example.com/a"),
        make_cache_filename("@news", "https://example.com/b")
    );
}
