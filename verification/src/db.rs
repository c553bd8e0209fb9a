//! The item store: what is kept for each article, and the decisions of an
//! ingestion.
//!
//! The store never touches a file or the network itself. An ingestion is a
//! state machine: it names the next action, the caller performs it and hands
//! back what happened, and the machine decides what follows.

use crate::dates::{normalized_date, parse_pub_date};
use crate::feed::{Item, ItemView};
use crate::index::{entry_text, header_row, lacks_header, log_entry};
use crate::markup::{html_to_markdown, text_form};
use crate::naming::{article_name, item_filename};
use crate::paths::{join_path, joined_path};
use crate::text::{chars_of, opt_text, push_str, same_text, string_of, text_of};
use crate::urls::{parse_url, parsed_url};
use vstd::prelude::*;

verus! {

/// The directory that articles are kept in by default.
pub open spec fn default_store() -> Seq<char> {
    "data/articles"@
}

/// The directory that the images of a store are kept in.
pub open spec fn image_dir_of(store_dir: Seq<char>) -> Seq<char> {
    joined_path(store_dir, "images"@)
}

/// The path of the index log of a store.
pub open spec fn index_path_of(store_dir: Seq<char>) -> Seq<char> {
    joined_path(store_dir, "index.csv"@)
}

/// The title that stands for an article without one.
pub open spec fn placeholder_title() -> Seq<char> {
    "No Title"@
}

/// The title of an entry, or the placeholder.
pub open spec fn title_of(item: ItemView) -> Seq<char> {
    match item.title {
        Some(t) => t,
        None => placeholder_title(),
    }
}

/// The link of an entry, or the empty text.
pub open spec fn link_of(item: ItemView) -> Seq<char> {
    match item.link {
        Some(l) => l,
        None => Seq::empty(),
    }
}

/// The time that identifies an entry: its publication date in normal form,
/// or the empty text where it has none that can be read.
pub open spec fn identity_time(item: ItemView) -> Seq<char> {
    match normalized_date(item.pub_date) {
        Some(t) => t,
        None => Seq::empty(),
    }
}

/// The time that the index log records for an entry: its publication date
/// in normal form, or the time of ingestion where it has none that can be
/// read.
pub open spec fn index_time(item: ItemView, now: Seq<char>) -> Seq<char> {
    match normalized_date(item.pub_date) {
        Some(t) => t,
        None => now,
    }
}

/// The HTML payload of an entry: the full content where there is one, else
/// the summary.
pub open spec fn body_of(item: ItemView) -> Option<Seq<char>> {
    match item.content {
        Some(c) => Some(c),
        None => item.description,
    }
}

/// The stored text form of an entry's payload, given what the converter
/// made of the payload; empty where the entry has none.
pub open spec fn item_markdown(item: ItemView, converted: Option<Seq<char>>) -> Seq<char> {
    match body_of(item) {
        Some(html) => text_form(html, converted),
        None => Seq::empty(),
    }
}

/// The name of the file that holds an entry of a feed: the article name of
/// its five identifying fields.
pub open spec fn item_name(feed_name: Seq<char>, feed_url: Seq<char>, item: ItemView) -> Seq<
    char,
> {
    article_name(feed_name, feed_url, title_of(item), link_of(item), identity_time(item))
}

/// The reference that stands in a text for a stored image.
pub open spec fn local_reference(name: Seq<char>) -> Seq<char> {
    "/images/"@ + name
}

/// Whether an image can be fetched from a URL: it parses, and its scheme is
/// `http` or `https`.
pub open spec fn fetchable(url: Seq<char>) -> bool {
    match parsed_url(url) {
        Some(parts) => fetchable_scheme(parts.0),
        None => false,
    }
}

/// The directory that articles are kept in by default.
pub fn default_store_dir() -> (r: &'static str)
    ensures
        r@ == default_store(),
{
    "data/articles"
}

/// The directory that the images of a store are kept in.
pub fn default_image_dir(store_dir: &str) -> (r: String)
    ensures
        r@ == image_dir_of(store_dir@),
{
    join_path(store_dir, "images")
}

/// The HTML payload of an entry, if it has one.
pub fn item_body(item: &Item) -> (r: Option<&str>)
    ensures
        text_of(r) == body_of(item@),
{
    match &item.content {
        Some(content) => Some(content.as_str()),
        None => match &item.description {
            Some(description) => Some(description.as_str()),
            None => None,
        },
    }
}

/// The stored text form of an entry's payload, given what the converter
/// made of the payload.
pub fn extract_markdown(item: &Item, converted: Option<String>) -> (r: String)
    ensures
        r@ == item_markdown(item@, opt_text(converted)),
{
    match item_body(item) {
        Some(html) => html_to_markdown(html, converted),
        None => String::new(),
    }
}

/// Whether a scheme is one that images are fetched over.
pub open spec fn fetchable_scheme(scheme: Seq<char>) -> bool {
    scheme == "http"@ || scheme == "https"@
}

/// Whether a scheme is one that images are fetched over.
pub fn is_fetchable_scheme(scheme: &str) -> (r: bool)
    ensures
        r == fetchable_scheme(scheme@),
{
    same_text(scheme, "http") || same_text(scheme, "https")
}

/// Whether an image can be fetched from a URL.
pub fn is_fetchable(url: &str) -> (r: bool)
    ensures
        r == fetchable(url@),
{
    match parse_url(url) {
        Some(parts) => is_fetchable_scheme(parts.scheme.as_str()),
        None => false,
    }
}

/// The reference that stands in a text for a stored image.
pub fn local_ref(name: &str) -> (r: String)
    ensures
        r@ == local_reference(name@),
{
    let mut out = chars_of("/images/");
    push_str(&mut out, name);
    string_of(&out)
}

/// The handle of a store: the directory that everything is kept under.
#[derive(Debug, Clone)]
pub struct Database {
    store_dir: String,
}

impl Database {
    /// The directory of the store.
    pub closed spec fn root(&self) -> Seq<char> {
        self.store_dir@
    }

    /// The handle of the store in a directory.
    pub fn open(store_dir: &str) -> (db: Database)
        ensures
            db.root() == store_dir@,
    {
        Database { store_dir: store_dir.to_owned() }
    }

    /// Starts a store in a directory, given the size of its index log, if
    /// the log is there: hands back the handle of the store, and what is to
    /// be appended to the log. That is the header row where the log is
    /// missing or empty, and nothing where it holds anything: a log that is
    /// not empty is left as it is, and one that was started holds exactly
    /// the header row.
    ///
    /// The caller creates the directory of the store and that of its
    /// images before, reads the size, and appends what comes back.
    pub fn initialize(store_dir: &str, index_size: Option<u64>) -> (r: (Database, String))
        ensures
            r.0.root() == store_dir@,
            r.1@ == entry_text(index_size, Seq::<char>::empty()),
            lacks_header(index_size) ==> r.1@ == header_row(),
            !lacks_header(index_size) ==> r.1@ == Seq::<char>::empty(),
    {
        let appended = log_entry(index_size, "");
        proof {
            reveal_strlit("");
            assert(""@ =~= Seq::<char>::empty());
            assert(header_row() + Seq::<char>::empty() =~= header_row());
        }
        (Database::open(store_dir), appended)
    }

    /// The directory of the store.
    pub fn store_dir(&self) -> (r: &str)
        ensures
            r@ == self.root(),
    {
        self.store_dir.as_str()
    }

    /// The directory that the store's images are kept in.
    pub fn image_dir(&self) -> (r: String)
        ensures
            r@ == image_dir_of(self.root()),
    {
        default_image_dir(self.store_dir.as_str())
    }

    /// The path of the store's index log.
    pub fn index_path(&self) -> (r: String)
        ensures
            r@ == index_path_of(self.root()),
    {
        join_path(self.store_dir.as_str(), "index.csv")
    }

    /// The name of the file that holds an entry of a feed.
    pub fn item_file(&self, feed_name: &str, feed_url: &str, item: &Item) -> (r: String)
        ensures
            r@ == item_name(feed_name@, feed_url@, item@),
            r@.len() == 67,
    {
        let title = match &item.title {
            Some(t) => t.as_str(),
            None => "No Title",
        };
        let link = match &item.link {
            Some(l) => l.as_str(),
            None => "",
        };
        let date = match &item.pub_date {
            Some(d) => parse_pub_date(Some(d.as_str())),
            None => parse_pub_date(None),
        };
        proof {
            reveal_strlit("");
            assert(""@ =~= Seq::<char>::empty());
        }
        match date {
            Some(time) => item_filename(feed_name, feed_url, title, link, time.as_str()),
            None => item_filename(feed_name, feed_url, title, link, ""),
        }
    }

    /// The path of the file that holds an entry of a feed. Reading an
    /// article back is reading this file: it is there once the entry has
    /// been ingested, and under no other name.
    pub fn item_path(&self, feed_name: &str, feed_url: &str, item: &Item) -> (r: String)
        ensures
            r@ == joined_path(self.root(), item_name(feed_name@, feed_url@, item@)),
    {
        let name = self.item_file(feed_name, feed_url, item);
        join_path(self.store_dir.as_str(), name.as_str())
    }
}

} // verus!
