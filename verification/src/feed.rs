//! Feeds: the address of a configured feed, and what a fetched feed holds.

use crate::config::Feed;
use crate::text::{chars_of, opt_text, push_str, string_of};
use crate::urls::{join_url, joined_url, UrlFailure};
use vstd::prelude::*;

verus! {

/// One entry of a feed.
#[derive(Debug, Clone)]
pub struct Item {
    pub title: Option<String>,
    pub link: Option<String>,
    /// The publication date, as the feed writes it.
    pub pub_date: Option<String>,
    /// The full content, as HTML.
    pub content: Option<String>,
    /// The summary, as HTML.
    pub description: Option<String>,
}

/// A fetched feed.
#[derive(Debug, Clone)]
pub struct Channel {
    pub title: String,
    pub description: String,
    pub items: Vec<Item>,
}

/// What an entry holds, as plain values.
pub struct ItemView {
    pub title: Option<Seq<char>>,
    pub link: Option<Seq<char>>,
    pub pub_date: Option<Seq<char>>,
    pub content: Option<Seq<char>>,
    pub description: Option<Seq<char>>,
}

/// What a feed holds, as plain values.
pub struct ChannelView {
    pub title: Seq<char>,
    pub description: Seq<char>,
    pub items: Seq<ItemView>,
}

impl View for Item {
    type V = ItemView;

    open spec fn view(&self) -> ItemView {
        ItemView {
            title: opt_text(self.title),
            link: opt_text(self.link),
            pub_date: opt_text(self.pub_date),
            content: opt_text(self.content),
            description: opt_text(self.description),
        }
    }
}

impl View for Channel {
    type V = ChannelView;

    open spec fn view(&self) -> ChannelView {
        ChannelView {
            title: self.title@,
            description: self.description@,
            items: Seq::new(self.items@.len(), |i: int| self.items@[i]@),
        }
    }
}

/// Why a feed could not be had.
#[derive(Clone, Copy, Debug, PartialEq, Eq, Structural)]
pub enum FeedError {
    /// A hub feed without a hub host.
    MissingHost,
    /// The hub host is not a URL.
    InvalidHost,
    /// The route cannot be resolved against the hub host.
    InvalidRoute,
    /// The server answered with a status that is no success.
    BadStatus,
    /// The answer is no feed.
    Unreadable,
}

/// A feed error in words.
pub open spec fn feed_error_text(error: FeedError) -> Seq<char> {
    match error {
        FeedError::MissingHost => "RSSHub host missing for feed"@,
        FeedError::InvalidHost => "Invalid host URL"@,
        FeedError::InvalidRoute => "Invalid route"@,
        FeedError::BadStatus => "Failed to fetch RSS feed"@,
        FeedError::Unreadable => "Failed to parse RSS feed"@,
    }
}

impl FeedError {
    /// The error in words.
    pub fn message(&self) -> (r: &'static str)
        ensures
            r@ == feed_error_text(*self),
    {
        match self {
            FeedError::MissingHost => "RSSHub host missing for feed",
            FeedError::InvalidHost => "Invalid host URL",
            FeedError::InvalidRoute => "Invalid route",
            FeedError::BadStatus => "Failed to fetch RSS feed",
            FeedError::Unreadable => "Failed to parse RSS feed",
        }
    }
}

/// The feed that `rss::Channel::read_from` reads from a byte sequence, by
/// its title, its description and the five fields of each item that the
/// library looks at; `None` where it reads no feed.
pub uninterp spec fn channel_read(bytes: Seq<u8>) -> Option<ChannelView>;

/// Calls `rss::Channel::read_from` and copies out of the result the title
/// and description of the channel and, of each item in order, the title,
/// link, publication date, content and description.
#[verifier::external_body]
fn read_channel(bytes: &[u8]) -> (r: Option<Channel>)
    ensures
        match r {
            Some(channel) => channel_read(bytes@) == Some(channel@),
            None => channel_read(bytes@) is None,
        },
{
    let parsed = rss::Channel::read_from(bytes).ok()?;
    let text = |s: Option<&str>| s.map(|t| t.to_string());
    let item = |i: &rss::Item| Item {
        title: text(i.title()),
        link: text(i.link()),
        pub_date: text(i.pub_date()),
        content: text(i.content()),
        description: text(i.description()),
    };
    Some(Channel {
        title: parsed.title().to_string(),
        description: parsed.description().to_string(),
        items: parsed.items().iter().map(item).collect(),
    })
}

/// A route with the slash that it starts with: as it is where it has one,
/// else with one put in front.
pub open spec fn normalized_route(route: Seq<char>) -> Seq<char> {
    if route.len() > 0 && route[0] == '/' {
        route
    } else {
        seq!['/'] + route
    }
}

/// The address of a configured feed: the URL of a direct feed as it is; for
/// a hub feed, its route joined to the hub host.
pub open spec fn feed_url(
    url: Seq<char>,
    is_rsshub: bool,
    rsshub_host: Option<Seq<char>>,
) -> Result<Seq<char>, FeedError> {
    if !is_rsshub {
        Ok(url)
    } else {
        match rsshub_host {
            None => Err(FeedError::MissingHost),
            Some(host) => hub_url(host, url),
        }
    }
}

/// The address of a route on a hub host.
pub open spec fn hub_url(host: Seq<char>, route: Seq<char>) -> Result<Seq<char>, FeedError> {
    match joined_url(host, normalized_route(route)) {
        Ok(joined) => Ok(joined),
        Err(UrlFailure::InvalidHost) => Err(FeedError::InvalidHost),
        Err(UrlFailure::InvalidRoute) => Err(FeedError::InvalidRoute),
    }
}

/// The text of a successful result.
pub open spec fn ok_text<E>(r: Result<String, E>) -> Result<Seq<char>, E> {
    match r {
        Ok(s) => Ok(s@),
        Err(e) => Err(e),
    }
}

/// A route with the slash that it starts with.
pub fn normalize_route(route: &str) -> (r: String)
    ensures
        r@ == normalized_route(route@),
{
    let chars = chars_of(route);
    if chars.len() > 0 && chars[0] == '/' {
        route.to_owned()
    } else {
        let mut out: Vec<char> = Vec::new();
        out.push('/');
        push_str(&mut out, route);
        assert(out@ =~= seq!['/'] + route@);
        string_of(&out)
    }
}

/// The address of a route on a hub host.
pub fn build_rsshub_url(host: &str, route: &str) -> (r: Result<String, FeedError>)
    ensures
        ok_text(r) == hub_url(host@, route@),
{
    let route = normalize_route(route);
    match join_url(host, route.as_str()) {
        Ok(joined) => Ok(joined),
        Err(UrlFailure::InvalidHost) => Err(FeedError::InvalidHost),
        Err(UrlFailure::InvalidRoute) => Err(FeedError::InvalidRoute),
    }
}

/// The address of a configured feed.
pub fn build_feed_url(feed: &Feed) -> (r: Result<String, FeedError>)
    ensures
        ok_text(r) == feed_url(feed@.url, feed@.is_rsshub, feed@.rsshub_host),
{
    if feed.is_rsshub {
        match &feed.rsshub_host {
            None => Err(FeedError::MissingHost),
            Some(host) => build_rsshub_url(host.as_str(), feed.url.as_str()),
        }
    } else {
        Ok(feed.url.clone())
    }
}

/// What a server's answer holds: an answer whose status is no success is
/// refused; the body of any other is read as a feed.
pub open spec fn answer_read(success: bool, body: Seq<u8>) -> Result<ChannelView, FeedError> {
    if !success {
        Err(FeedError::BadStatus)
    } else {
        match channel_read(body) {
            Some(channel) => Ok(channel),
            None => Err(FeedError::Unreadable),
        }
    }
}

/// The feed in a server's answer.
pub fn read_answer(success: bool, body: &[u8]) -> (r: Result<Channel, FeedError>)
    ensures
        match r {
            Ok(channel) => answer_read(success, body@) == Ok::<ChannelView, FeedError>(channel@),
            Err(e) => answer_read(success, body@) == Err::<ChannelView, FeedError>(e),
        },
{
    if !success {
        return Err(FeedError::BadStatus);
    }
    match read_channel(body) {
        Some(channel) => Ok(channel),
        None => Err(FeedError::Unreadable),
    }
}

} // verus!
