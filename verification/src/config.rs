//! The configured feeds: direct feeds, and routes that are resolved against
//! a shared hub host.

use vstd::prelude::*;

verus! {

/// The hub that routes are resolved against.
#[derive(Debug, Clone)]
pub struct RssHubConfig {
    pub host: String,
}

/// A feed as the configuration names it: a name, and a URL or a route.
#[derive(Debug, Clone)]
pub struct FeedItem {
    pub name: String,
    pub url: String,
}

/// A configured feed of either kind.
#[derive(Debug, Clone)]
pub struct Feed {
    pub name: String,
    /// The URL of a direct feed, or the route of a hub feed.
    pub url: String,
    pub is_rsshub: bool,
    /// The hub host; present for hub feeds.
    pub rsshub_host: Option<String>,
}

/// The configuration: the hub, the direct feeds and the hub feeds.
#[derive(Debug, Clone)]
pub struct Config {
    pub rsshub: RssHubConfig,
    pub rss: Vec<FeedItem>,
    pub rsshub_feeds: Vec<FeedItem>,
}

/// What a feed holds, as plain values.
pub struct FeedView {
    pub name: Seq<char>,
    pub url: Seq<char>,
    pub is_rsshub: bool,
    pub rsshub_host: Option<Seq<char>>,
}

impl View for Feed {
    type V = FeedView;

    open spec fn view(&self) -> FeedView {
        FeedView {
            name: self.name@,
            url: self.url@,
            is_rsshub: self.is_rsshub,
            rsshub_host: match self.rsshub_host {
                Some(h) => Some(h@),
                None => None,
            },
        }
    }
}

/// The direct feed that a configuration entry stands for.
pub open spec fn direct_feed(item: FeedItem) -> FeedView {
    FeedView { name: item.name@, url: item.url@, is_rsshub: false, rsshub_host: None }
}

/// The hub feed that a configuration entry stands for, on a given host.
pub open spec fn hub_feed(item: FeedItem, host: Seq<char>) -> FeedView {
    FeedView { name: item.name@, url: item.url@, is_rsshub: true, rsshub_host: Some(host) }
}

/// The host of the public hub.
pub open spec fn default_host() -> Seq<char> {
    "https://rsshub.app"@
}

impl Default for RssHubConfig {
    fn default() -> (r: Self)
        ensures
            r.host@ == default_host(),
    {
        RssHubConfig { host: "https://rsshub.app".to_owned() }
    }
}

impl Config {
    /// All configured feeds: the direct feeds in their order, then the hub
    /// feeds in theirs, each of these on the configured hub host.
    pub fn get_all_feeds(&self) -> (feeds: Vec<Feed>)
        ensures
            feeds.len() == self.rss.len() + self.rsshub_feeds.len(),
            forall|i: int|
                0 <= i < self.rss.len() ==> (#[trigger] feeds[i])@ == direct_feed(self.rss[i]),
            forall|i: int|
                0 <= i < self.rsshub_feeds.len() ==> (#[trigger] feeds[self.rss.len() + i])@
                    == hub_feed(self.rsshub_feeds[i], self.rsshub.host@),
    {
        let mut feeds: Vec<Feed> = Vec::new();
        let mut i: usize = 0;
        while i < self.rss.len()
            invariant
                i <= self.rss.len(),
                feeds.len() == i,
                forall|k: int| 0 <= k < i ==> (#[trigger] feeds[k])@ == direct_feed(self.rss[k]),
            decreases self.rss.len() - i,
        {
            feeds.push(
                Feed {
                    name: self.rss[i].name.clone(),
                    url: self.rss[i].url.clone(),
                    is_rsshub: false,
                    rsshub_host: None,
                },
            );
            i += 1;
        }
        let mut j: usize = 0;
        while j < self.rsshub_feeds.len()
            invariant
                j <= self.rsshub_feeds.len(),
                feeds.len() == self.rss.len() + j,
                forall|k: int|
                    0 <= k < self.rss.len() ==> (#[trigger] feeds[k])@ == direct_feed(self.rss[k]),
                forall|k: int|
                    0 <= k < j ==> (#[trigger] feeds[self.rss.len() + k])@ == hub_feed(
                        self.rsshub_feeds[k],
                        self.rsshub.host@,
                    ),
            decreases self.rsshub_feeds.len() - j,
        {
            feeds.push(
                Feed {
                    name: self.rsshub_feeds[j].name.clone(),
                    url: self.rsshub_feeds[j].url.clone(),
                    is_rsshub: true,
                    rsshub_host: Some(self.rsshub.host.clone()),
                },
            );
            j += 1;
        }
        feeds
    }
}

/// The configuration that a new installation starts with: the public hub,
/// one direct feed and one hub feed.
pub fn create_default_config() -> (config: Config)
    ensures
        config.rsshub.host@ == default_host(),
        config.rss.len() == 1,
        config.rss[0].name@ == "Hacker News"@,
        config.rss[0].url@ == "https://news.ycombinator.com/rss"@,
        config.rsshub_feeds.len() == 1,
        config.rsshub_feeds[0].name@ == "GitHub Trending"@,
        config.rsshub_feeds[0].url@ == "/github/trending/daily"@,
{
    let mut rss: Vec<FeedItem> = Vec::new();
    rss.push(
        FeedItem {
            name: "Hacker News".to_owned(),
            url: "https://news.ycombinator.com/rss".to_owned(),
        },
    );
    let mut rsshub_feeds: Vec<FeedItem> = Vec::new();
    rsshub_feeds.push(
        FeedItem { name: "GitHub Trending".to_owned(), url: "/github/trending/daily".to_owned() },
    );
    Config { rsshub: RssHubConfig { host: "https://rsshub.app".to_owned() }, rss, rsshub_feeds }
}

} // verus!
