//! Canonical identities of URLs.
//!
//! The identity of a URL is the text by which two URLs count as the same feed
//! item. It is used for comparison only, never to reach the item.

use vstd::prelude::*;
use crate::errors::{BotError, BotErrorView};
use crate::lines::is_line;
use crate::text::{
    append_chars, chars_of, ends_with, has_char, lemma_trim_push, lemma_trim_start_append,
    option_text, starts_with, string_of, strip_prefix, strip_suffix, trim, trim_bounds,
    trim_start,
};

verus! {

/// `url::ParseError`, the reason for which `url::Url::parse` rejects a text.
/// Nothing is known of a value of it.
#[verifier::external_type_specification]
#[verifier::external_body]
pub struct ExParseError(url::ParseError);

/// The components of a parsed absolute URL that its identity is made of.
#[derive(Debug, PartialEq, Eq)]
pub struct UrlParts {
    /// The whole URL as the parser writes it.
    pub href: String,
    /// The host as the parser writes it, a domain name or an address, where
    /// the URL has one.
    pub host: Option<String>,
    /// The path, percent-encoded.
    pub path: String,
    /// The query string without its `?`, where there is one.
    pub query: Option<String>,
}

/// `UrlParts` with its texts as character sequences.
pub struct UrlPartsView {
    pub href: Seq<char>,
    pub host: Option<Seq<char>>,
    pub path: Seq<char>,
    pub query: Option<Seq<char>>,
}

impl View for UrlParts {
    type V = UrlPartsView;

    open spec fn view(&self) -> UrlPartsView {
        UrlPartsView {
            href: self.href@,
            host: option_text(self.host),
            path: self.path@,
            query: option_text(self.query),
        }
    }
}

/// What `url::Url::parse` makes of `raw`: the components of the URL, or
/// `None` where it rejects the text.
pub uninterp spec fn parsed_url(raw: Seq<char>) -> Option<UrlPartsView>;

/// Parses `raw` with `url::Url::parse` and reads the result's `as_str`,
/// `host_str`, `path` and `query`. Trusted: that the outcome depends on the
/// text alone, which is what naming it `parsed_url(raw@)` claims.
#[verifier::external_body]
fn parse_url(raw: &str) -> (r: Result<UrlParts, url::ParseError>)
    ensures
        match r {
            Ok(parts) => parsed_url(raw@) == Some(parts@),
            Err(_) => parsed_url(raw@) is None,
        },
{
    let url = url::Url::parse(raw)?;
    Ok(UrlParts {
        href: url.as_str().to_owned(),
        host: url.host_str().map(str::to_owned),
        path: url.path().to_owned(),
        query: url.query().map(str::to_owned),
    })
}

/// The prefix that is dropped from a host. It is compared letter for letter:
/// capitals are no match.
pub open spec fn www_prefix() -> Seq<char> {
    "www."@
}

/// The page suffix that is looked for first at the end of a path.
pub open spec fn htm_suffix() -> Seq<char> {
    ".htm"@
}

/// The page suffix that is looked for second at the end of a path.
pub open spec fn html_suffix() -> Seq<char> {
    ".html"@
}

/// `path` without one page suffix: `.htm` where it ends with that, else
/// `.html` where it ends with that, else `path` itself.
pub open spec fn strip_page_suffix(path: Seq<char>) -> Seq<char> {
    if htm_suffix().is_suffix_of(path) {
        strip_suffix(path, htm_suffix())
    } else {
        strip_suffix(path, html_suffix())
    }
}

/// What identifies the post below its host: the path without the slashes
/// around it and without one page suffix, or, for an empty path, the query
/// behind a `?`.
pub open spec fn post_identifier(path: Seq<char>, query: Option<Seq<char>>) -> Seq<char> {
    let trimmed = trim(path, '/');
    if trimmed.len() == 0 {
        match query {
            Some(q) => seq!['?'] + q,
            None => trimmed,
        }
    } else {
        strip_page_suffix(trimmed)
    }
}

/// The identity of a URL with the given host, path and query.
pub open spec fn identity(host: Seq<char>, path: Seq<char>, query: Option<Seq<char>>) -> Seq<
    char,
> {
    strip_prefix(host, www_prefix()) + seq!['/'] + post_identifier(path, query)
}

/// The identity of a parsed URL, or the error for one without a host.
pub open spec fn identity_of(parts: UrlPartsView) -> Result<Seq<char>, BotErrorView> {
    match parts.host {
        Some(host) => Ok(identity(host, parts.path, parts.query)),
        None => Err(BotErrorView::NoDomain { url: parts.href }),
    }
}

/// The identity of the URL written as `raw`, or the error for a text that
/// has none: `InvalidUrl` for a text that the parser rejects, `NoDomain` for
/// a URL without a host. An identity is stored as one line, so a text whose
/// identity would hold a line feed counts as no well-formed URL either.
pub open spec fn normalized(raw: Seq<char>) -> Result<Seq<char>, BotErrorView> {
    match parsed_url(raw) {
        Some(parts) => match identity_of(parts) {
            Ok(id) => if id.contains('\n') {
                Err(BotErrorView::InvalidUrl { url: raw })
            } else {
                Ok(id)
            },
            Err(e) => Err(e),
        },
        None => Err(BotErrorView::InvalidUrl { url: raw }),
    }
}

/// Every identity can stand as a line of its own: it is not empty and holds
/// no line feed.
pub proof fn law_identity_is_a_line(raw: Seq<char>)
    ensures
        normalized(raw) matches Ok(id) ==> is_line(id),
{
}

/// A `www.` in front of the host does not change the identity, unless the
/// host behind it starts with `www.` itself: only one is taken off.
pub proof fn law_www_is_ignored(host: Seq<char>, path: Seq<char>, query: Option<Seq<char>>)
    requires
        !www_prefix().is_prefix_of(host),
    ensures
        identity(www_prefix() + host, path, query) == identity(host, path, query),
{
}

/// A slash at the end of the path does not change the identity.
pub proof fn law_trailing_slash_is_ignored(
    host: Seq<char>,
    path: Seq<char>,
    query: Option<Seq<char>>,
)
    ensures
        identity(host, path.push('/'), query) == identity(host, path, query),
{
    lemma_trim_push(path, '/');
}

/// A page suffix at the end of the path does not change the identity: where
/// the path names something, ends neither with a slash nor with a page
/// suffix, the same path with `.htm` or `.html` behind it has the same
/// identity.
pub proof fn law_page_suffix_is_ignored(
    host: Seq<char>,
    path: Seq<char>,
    query: Option<Seq<char>>,
    suffix: Seq<char>,
)
    requires
        suffix == htm_suffix() || suffix == html_suffix(),
        trim(path, '/').len() > 0,
        path.last() != '/',
        strip_page_suffix(trim(path, '/')) == trim(path, '/'),
    ensures
        identity(host, path + suffix, query) == identity(host, path, query),
{
    reveal_strlit(".htm");
    reveal_strlit(".html");
    let kept = trim_start(path, '/');
    assert(kept.len() > 0);
    lemma_trim_start_append(path, suffix, '/');
    let longer = kept + suffix;
    if suffix == html_suffix() {
        assert(longer.subrange(longer.len() - 4, longer.len() as int)[0] == 'h');
    }
}

/// On a path that names something the query does not count.
pub proof fn law_query_is_ignored_below_a_path(
    host: Seq<char>,
    path: Seq<char>,
    query: Option<Seq<char>>,
    other: Option<Seq<char>>,
)
    requires
        trim(path, '/').len() > 0,
    ensures
        identity(host, path, query) == identity(host, path, other),
{
}

/// Whether `r` is the outcome `expected`, text for text.
pub open spec fn yields(
    r: Result<String, BotError>,
    expected: Result<Seq<char>, BotErrorView>,
) -> bool {
    match expected {
        Ok(id) => r matches Ok(s) && s@ == id,
        Err(e) => r matches Err(err) && err@ == e,
    }
}

/// The identity depends on the text alone: whatever two runs of
/// `normalize_url` give for the same text, they give the same.
pub proof fn law_same_text_same_outcome(
    raw: Seq<char>,
    first: Result<String, BotError>,
    second: Result<String, BotError>,
)
    requires
        yields(first, normalized(raw)),
        yields(second, normalized(raw)),
    ensures
        match first {
            Ok(id) => second matches Ok(other) && other@ == id@,
            Err(e) => second matches Err(other) && other@ == e@,
        },
{
}

/// Computes the identity of a parsed URL: the host without one leading
/// `www.`, a slash, and the post identifier. A URL without a host has none
/// and gives `NoDomain` with the URL as the parser writes it.
pub fn canonical_identity(parts: &UrlParts) -> (r: Result<String, BotError>)
    ensures
        yields(r, identity_of(parts@)),
{
    let host = match &parts.host {
        Some(h) => chars_of(h.as_str()),
        None => {
            return Err(BotError::NoDomain { url: parts.href.clone() });
        },
    };
    let www = chars_of("www.");
    let start: usize = if starts_with(&host, 0, host.len(), &www) {
        www.len()
    } else {
        0
    };
    let mut identity = string_of(&host, start, host.len());
    identity.push('/');
    let ghost head = strip_prefix(host@, www_prefix()) + seq!['/'];
    assert(identity@ == head);
    let path = chars_of(parts.path.as_str());
    let (lo, hi) = trim_bounds(&path, '/');
    if lo == hi {
        if let Some(query) = &parts.query {
            identity.push('?');
            let q = chars_of(query.as_str());
            append_chars(&mut identity, &q, 0, q.len());
            assert(identity@ == head + (seq!['?'] + q@));
        }
    } else {
        let end = page_end(&path, lo, hi);
        append_chars(&mut identity, &path, lo, end);
    }
    Ok(identity)
}

/// Where `chars[lo..hi]` ends once one page suffix is taken off it.
fn page_end(chars: &Vec<char>, lo: usize, hi: usize) -> (end: usize)
    requires
        lo <= hi <= chars.len(),
    ensures
        lo <= end <= hi,
        chars@.subrange(lo as int, end as int) == strip_page_suffix(
            chars@.subrange(lo as int, hi as int),
        ),
{
    let htm = chars_of(".htm");
    let html = chars_of(".html");
    if ends_with(chars, lo, hi, &htm) {
        hi - htm.len()
    } else if ends_with(chars, lo, hi, &html) {
        hi - html.len()
    } else {
        hi
    }
}

/// Computes the identity of the URL written as `url_str`.
///
/// Fails with `InvalidUrl` where the text is not a well-formed absolute URL,
/// and with `NoDomain` where the URL has no host. An identity is one line: a
/// parsed URL with a line feed in its identity is refused as `InvalidUrl`.
pub fn normalize_url(url_str: &str) -> (r: Result<String, BotError>)
    ensures
        yields(r, normalized(url_str@)),
{
    let parts = match parse_url(url_str) {
        Ok(parts) => parts,
        Err(_) => {
            return Err(BotError::InvalidUrl { url: url_str.to_owned() });
        },
    };
    let id = canonical_identity(&parts)?;
    if has_char(id.as_str(), '\n') {
        Err(BotError::InvalidUrl { url: url_str.to_owned() })
    } else {
        Ok(id)
    }
}

} // verus!
