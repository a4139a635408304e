//! URLs, taken apart and put together by the outside parser.
use vstd::prelude::*;

use crate::text::opt_text;

verus! {

/// The parts of a URL: its scheme, its host, its port unless that is the common one of the scheme,
/// its path, its query and its fragment, and how many bytes the whole of it takes.
#[derive(Debug)]
pub struct UrlParts {
    pub scheme: String,
    pub host: Option<String>,
    pub port: Option<u16>,
    pub path: String,
    pub query: Option<String>,
    pub fragment: Option<String>,
    pub length: usize,
}

pub ghost struct UrlModel {
    pub scheme: Seq<char>,
    pub host: Option<Seq<char>>,
    pub port: Option<u16>,
    pub path: Seq<char>,
    pub query: Option<Seq<char>>,
    pub fragment: Option<Seq<char>>,
    pub length: int,
}

impl View for UrlParts {
    type V = UrlModel;

    open spec fn view(&self) -> UrlModel {
        UrlModel {
            scheme: self.scheme@,
            host: opt_text(self.host),
            port: self.port,
            path: self.path@,
            query: opt_text(self.query),
            fragment: opt_text(self.fragment),
            length: self.length as int,
        }
    }
}

/// The scheme is one of the web.
pub open spec fn is_web_scheme(scheme: Seq<char>) -> bool {
    scheme == "http"@ || scheme == "https"@
}

/// A text spells the URL of these parts.
pub open spec fn spells(text: Seq<char>, parts: UrlModel) -> bool {
    url_of(text) == Ok::<UrlModel, Seq<char>>(parts)
}

/// The parts of the URL that a text spells.
pub open spec fn parts_of(text: Seq<char>) -> UrlModel {
    url_of(text)->Ok_0
}

/// A text spells a URL of the web.
pub open spec fn is_web_url(text: Seq<char>) -> bool {
    url_of(text) matches Ok(parts) && is_web_scheme(parts.scheme)
}

/// How many bytes a query or a fragment takes, with the sign in front of it. All of both is ASCII.
pub open spec fn tail_length(tail: Option<Seq<char>>) -> nat {
    match tail {
        Some(tail) => 1 + tail.len(),
        None => 0,
    }
}

/// How many bytes stand in front of the path, which is ASCII too.
pub open spec fn front_length(parts: UrlModel) -> int {
    parts.length - parts.path.len() - tail_length(parts.query) - tail_length(parts.fragment)
}

/// The path can take the place of the one that a URL has: where the path ends and where the fragment
/// begins can be counted in 32 bits, before and after.
pub open spec fn has_room_for(parts: UrlModel, path: Seq<char>) -> bool {
    &&& front_length(parts) + parts.path.len() <= u32::MAX
    &&& front_length(parts) + path.len() <= u32::MAX
    &&& parts.fragment is Some ==> front_length(parts) + path.len() + tail_length(parts.query)
        <= u32::MAX
}

/// A URL with another path.
pub open spec fn moved(parts: UrlModel, path: Seq<char>) -> UrlModel {
    UrlModel { path, length: parts.length - parts.path.len() + path.len(), ..parts }
}

/// A URL without its query.
pub open spec fn queryless(parts: UrlModel) -> UrlModel {
    UrlModel { query: None, length: parts.length - tail_length(parts.query), ..parts }
}

/// A URL without its fragment.
pub open spec fn fragmentless(parts: UrlModel) -> UrlModel {
    UrlModel { fragment: None, length: parts.length - tail_length(parts.fragment), ..parts }
}

/// A path that stands in a URL as it is: a slash, then slashes, hyphens, letters and digits.
pub open spec fn is_plain_path(path: Seq<char>) -> bool {
    &&& path.len() > 0 && path[0] == '/'
    &&& forall|at: int| 0 <= at < path.len() ==> is_plain(#[trigger] path[at])
}

/// A character that stands in a path as it is.
pub open spec fn is_plain(letter: char) -> bool {
    ||| letter == '/' || letter == '-'
    ||| 'a' <= letter <= 'z'
    ||| 'A' <= letter <= 'Z'
    ||| '0' <= letter <= '9'
}

/// How many bytes a query or a fragment takes, with the sign in front of it.
fn length_of_tail(tail: &Option<String>) -> (length: i128)
    ensures
        length == tail_length(opt_text(*tail)),
        0 <= length <= usize::MAX + 1,
{
    match tail {
        Some(tail) => 1 + tail.as_str().unicode_len() as i128,
        None => 0,
    }
}

/// Whether the path can take the place of the one that a URL has.
pub fn can_take_path(parts: &UrlParts, path: &str) -> (room: bool)
    ensures
        room == has_room_for(parts@, path@),
{
    let limit: i128 = 0xffff_ffff;
    let old: i128 = parts.path.as_str().unicode_len() as i128;
    let new: i128 = path.unicode_len() as i128;
    let query: i128 = length_of_tail(&parts.query);
    let fragment: i128 = length_of_tail(&parts.fragment);
    let front: i128 = parts.length as i128 - old - query - fragment;
    front + old <= limit && front + new <= limit && (parts.fragment.is_none() || front + new + query
        <= limit)
}

/// The parts of the URL that a text spells, or what the parser says is wrong with it.
pub uninterp spec fn url_of(text: Seq<char>) -> Result<UrlModel, Seq<char>>;

/// The text of the URL that a text spells, with another path.
pub uninterp spec fn url_with_path(text: Seq<char>, path: Seq<char>) -> Seq<char>;

/// The text of the URL that a text spells, without its query.
pub uninterp spec fn url_without_query(text: Seq<char>) -> Seq<char>;

/// The text of the URL that a text spells, without its fragment.
pub uninterp spec fn url_without_fragment(text: Seq<char>) -> Seq<char>;

/// `reqwest::Url::parse` with the `scheme`, `host_str`, `port`, `path`, `query`, `fragment` and the
/// length of `as_str` of the result: the parts of the URL that the text spells, or the parser's
/// message. Which texts are URLs is left to the parser.
#[verifier::external_body]
pub(crate) fn parse_url(text: &str) -> (parsed: Result<UrlParts, String>)
    ensures
        url_of(text@) == (match parsed {
            Ok(parts) => Ok(parts@),
            Err(message) => Err(message@),
        }),
{
    match reqwest::Url::parse(text) {
        Ok(url) => Ok(UrlParts {
            scheme: url.scheme().to_string(),
            host: url.host_str().map(|host| host.to_string()),
            port: url.port(),
            path: url.path().to_string(),
            query: url.query().map(|query| query.to_string()),
            fragment: url.fragment().map(|fragment| fragment.to_string()),
            length: url.as_str().len(),
        }),
        Err(error) => Err(error.to_string()),
    }
}

/// `reqwest::Url::set_path`, on the URL that a text spells, and the text of the result. Parsed again,
/// that text spells the same URL but for its path; a plain path becomes the URL's as it is. `set_path`
/// counts in 32 bits where the path ends and where the fragment begins, and panics where it cannot,
/// so there must be room for the path. Nothing is said of URLs that are not of the web: a host that
/// such a URL lacks can come back as an empty one.
#[verifier::external_body]
pub(crate) fn with_path(text: &str, path: &str) -> (changed: String)
    requires
        is_web_url(text@),
        is_plain_path(path@),
        has_room_for(parts_of(text@), path@),
    ensures
        changed@ == url_with_path(text@, path@),
        spells(changed@, moved(parts_of(text@), path@)),
{
    let mut url = reqwest::Url::parse(text).expect("the text was parsed before");
    url.set_path(path);
    url.to_string()
}

/// `reqwest::Url::set_query` without a value, on the URL that a text spells, and the text of the
/// result. Parsed again, that text spells the same URL but without a query. Nothing is said of URLs
/// that are not of the web.
#[verifier::external_body]
pub(crate) fn without_query(text: &str) -> (changed: String)
    requires
        is_web_url(text@),
    ensures
        changed@ == url_without_query(text@),
        spells(changed@, queryless(parts_of(text@))),
{
    let mut url = reqwest::Url::parse(text).expect("the text was parsed before");
    url.set_query(None);
    url.to_string()
}

/// `reqwest::Url::set_fragment` without a value, on the URL that a text spells, and the text of the
/// result. Parsed again, that text spells the same URL but without a fragment. Nothing is said of URLs
/// that are not of the web.
#[verifier::external_body]
pub(crate) fn without_fragment(text: &str) -> (changed: String)
    requires
        is_web_url(text@),
    ensures
        changed@ == url_without_fragment(text@),
        spells(changed@, fragmentless(parts_of(text@))),
{
    let mut url = reqwest::Url::parse(text).expect("the text was parsed before");
    url.set_fragment(None);
    url.to_string()
}

} // verus!
