//! The state of the terminal reader and the moves between its screens.
//! Drawing and reading keys are the caller's; what a key changes is decided
//! here.

use crate::config::{direct_feed, hub_feed, Config, Feed};
use crate::db::{body_of, extract_markdown, item_body, item_markdown, item_name, Database};
use crate::paths::joined_path;
use crate::feed::{Channel, Item};
use crate::text::{chars_of, opt_text, push_str, string_of};
use vstd::prelude::*;

verus! {

/// The screen that is shown.
#[derive(Clone, Copy, Debug, PartialEq, Eq, Structural)]
pub enum Screen {
    Feeds,
    Items,
    Article,
}

/// The state of the reader.
pub struct App {
    pub config: Option<Config>,
    pub feeds: Vec<Feed>,
    pub current_feed: Option<Channel>,
    pub current_feed_name: Option<String>,
    pub current_feed_url: Option<String>,
    /// The text of each item of the current feed, once it was loaded.
    pub item_markdown: Vec<Option<String>>,
    pub db: Option<Database>,
    pub current_items: Vec<Item>,
    pub current_screen: Screen,
    /// The feed that is selected in the list of feeds.
    pub feed_state: Option<usize>,
    /// The item that is selected in the list of items.
    pub item_state: Option<usize>,
    pub should_quit: bool,
    pub status_message: String,
    pub scroll_offset: u16,
    pub is_loading: bool,
}

/// What the caller is to do after a selection.
pub enum Selection {
    /// Fetch the feed at `feeds[index]`, then report it with `feed_loaded`
    /// or `feed_failed`.
    Fetch { index: usize },
    /// Load the text of `current_items[index]`, then report it with
    /// `article_loaded`.
    Load { index: usize },
    /// Nothing.
    Nothing,
}

/// Where the text of an item is to come from.
pub enum LoadRequest {
    /// Nowhere: there is no such item, or its text is kept already. Report
    /// with `article_loaded` what is kept.
    Nothing,
    /// The store: read the file at `path`, and report what was read, or
    /// that the file is missing, with `article_loaded`.
    Read { path: String },
    /// The item itself, for a reader without a store: convert the payload
    /// `html`, if there is one, and report what the converter made of it
    /// with `article_converted`.
    Convert { html: Option<String> },
}

/// The name under which the articles of the current feed are kept: that of
/// the feed, or a stand-in where the reader knows none.
pub open spec fn feed_name_of(app: App) -> Seq<char> {
    match app.current_feed_name {
        Some(name) => name@,
        None => "Unknown Feed"@,
    }
}

/// The address under which the articles of the current feed are kept: that
/// of the feed, or a stand-in where the reader knows none.
pub open spec fn feed_url_of(app: App) -> Seq<char> {
    match app.current_feed_url {
        Some(url) => url@,
        None => "unknown"@,
    }
}

/// Whether the text of an item still has to be loaded: it has where the
/// item exists and no text is kept for it yet.
pub open spec fn lacks_text(app: App, index: usize) -> bool {
    index < app.current_items@.len() && !(index < app.item_markdown@.len()
        && app.item_markdown@[index as int] is Some)
}

/// The entry after the selected one in a list of `len` entries, going round
/// at the end; the first where none is selected.
pub open spec fn entry_after(selected: Option<usize>, len: nat) -> usize {
    match selected {
        Some(i) => if i + 1 >= len {
            0
        } else {
            (i + 1) as usize
        },
        None => 0,
    }
}

/// The entry before the selected one in a list of `len` entries, going
/// round at the start; the first where none is selected.
pub open spec fn entry_before(selected: Option<usize>, len: nat) -> usize {
    match selected {
        Some(i) => if i == 0 {
            (len - 1) as usize
        } else {
            (i - 1) as usize
        },
        None => 0,
    }
}

/// The offset one line further down, as far as offsets go.
pub open spec fn scrolled_down(offset: u16) -> u16 {
    if offset == u16::MAX {
        offset
    } else {
        (offset + 1) as u16
    }
}

/// The offset one line further up, as far as offsets go.
pub open spec fn scrolled_up(offset: u16) -> u16 {
    if offset == 0 {
        offset
    } else {
        (offset - 1) as u16
    }
}

/// The state after a move down: the next entry of the list that is shown,
/// if it has entries; in an article, one line down.
pub open spec fn moved_down(app: App) -> App {
    match app.current_screen {
        Screen::Feeds => if app.feeds.len() == 0 {
            app
        } else {
            App { feed_state: Some(entry_after(app.feed_state, app.feeds@.len())), ..app }
        },
        Screen::Items => if app.current_items.len() == 0 {
            app
        } else {
            App { item_state: Some(entry_after(app.item_state, app.current_items@.len())), ..app }
        },
        Screen::Article => App { scroll_offset: scrolled_down(app.scroll_offset), ..app },
    }
}

/// The state after a move up: the entry before in the list that is shown,
/// if it has entries; in an article, one line up.
pub open spec fn moved_up(app: App) -> App {
    match app.current_screen {
        Screen::Feeds => if app.feeds.len() == 0 {
            app
        } else {
            App { feed_state: Some(entry_before(app.feed_state, app.feeds@.len())), ..app }
        },
        Screen::Items => if app.current_items.len() == 0 {
            app
        } else {
            App {
                item_state: Some(entry_before(app.item_state, app.current_items@.len())),
                ..app
            }
        },
        Screen::Article => App { scroll_offset: scrolled_up(app.scroll_offset), ..app },
    }
}

/// What a selection asks of the caller: on the list of feeds, to fetch the
/// selected feed; on the list of items, to load the selected item.
pub open spec fn selection_of(app: App) -> Selection {
    match app.current_screen {
        Screen::Feeds => match app.feed_state {
            Some(i) => if i < app.feeds.len() {
                Selection::Fetch { index: i }
            } else {
                Selection::Nothing
            },
            None => Selection::Nothing,
        },
        Screen::Items => match app.item_state {
            Some(i) => Selection::Load { index: i },
            None => Selection::Nothing,
        },
        Screen::Article => Selection::Nothing,
    }
}

impl App {
    /// A reader without feeds, on the list of feeds.
    pub fn new() -> (app: App)
        ensures
            app.config is None,
            app.feeds@.len() == 0,
            app.current_feed is None,
            app.current_feed_name is None,
            app.current_feed_url is None,
            app.item_markdown@.len() == 0,
            app.db is None,
            app.current_items@.len() == 0,
            app.current_screen == Screen::Feeds,
            app.feed_state is None,
            app.item_state is None,
            !app.should_quit,
            app.status_message@ == "Press 'q' to quit, 'Enter' to select, 'Esc' to go back"@,
            app.scroll_offset == 0,
            !app.is_loading,
    {
        App {
            config: None,
            feeds: Vec::new(),
            current_feed: None,
            current_feed_name: None,
            current_feed_url: None,
            item_markdown: Vec::new(),
            db: None,
            current_items: Vec::new(),
            current_screen: Screen::Feeds,
            feed_state: None,
            item_state: None,
            should_quit: false,
            status_message: "Press 'q' to quit, 'Enter' to select, 'Esc' to go back".to_owned(),
            scroll_offset: 0,
            is_loading: false,
        }
    }

    /// A reader on the list of the configured feeds, the first of them
    /// selected.
    pub fn with_config_and_db(config: Config, db: Option<Database>) -> (app: App)
        ensures
            app.config == Some(config),
            app.db == db,
            app.feeds@.len() == config.rss@.len() + config.rsshub_feeds@.len(),
            forall|i: int|
                0 <= i < config.rss@.len() ==> (#[trigger] app.feeds@[i])@ == direct_feed(
                    config.rss@[i],
                ),
            forall|i: int|
                0 <= i < config.rsshub_feeds@.len() ==> (#[trigger] app.feeds@[config.rss@.len()
                    + i])@ == hub_feed(config.rsshub_feeds@[i], config.rsshub.host@),
            app.feed_state == (if app.feeds@.len() == 0 {
                None
            } else {
                Some(0usize)
            }),
            app.current_screen == Screen::Feeds,
            app.current_feed is None,
            app.current_feed_name is None,
            app.current_feed_url is None,
            app.item_markdown@.len() == 0,
            app.current_items@.len() == 0,
            app.item_state is None,
            !app.should_quit,
            app.status_message@ == "Press 'q' to quit, 'Enter' to select, 'Esc' to go back"@,
            app.scroll_offset == 0,
            !app.is_loading,
    {
        let mut app = App::new();
        app.feeds = config.get_all_feeds();
        app.config = Some(config);
        app.db = db;
        if app.feeds.len() > 0 {
            app.feed_state = Some(0);
        }
        app
    }

    /// A reader on the items of a feed, the first of them selected, with
    /// no text loaded yet.
    pub fn with_channel_and_db(
        channel: Channel,
        db: Option<Database>,
        feed_name: Option<String>,
        feed_url: Option<String>,
    ) -> (app: App)
        ensures
            app.config is None,
            app.feeds@.len() == 0,
            app.current_items@ == channel.items@,
            app.current_feed == Some(channel),
            app.item_markdown@.len() == channel.items@.len(),
            forall|i: int| 0 <= i < app.item_markdown@.len() ==> app.item_markdown@[i] is None,
            app.db == db,
            app.current_feed_name == feed_name,
            app.current_feed_url == feed_url,
            app.current_screen == Screen::Items,
            app.feed_state is None,
            app.item_state == (if channel.items@.len() == 0 {
                None
            } else {
                Some(0usize)
            }),
            !app.should_quit,
            app.status_message@ == "Press 'q' to quit, 'Enter' to select, 'Esc' to go back"@,
            app.scroll_offset == 0,
            !app.is_loading,
    {
        let mut app = App::new();
        let mut items: Vec<Item> = Vec::new();
        let mut texts: Vec<Option<String>> = Vec::new();
        let mut i: usize = 0;
        while i < channel.items.len()
            invariant
                i <= channel.items.len(),
                items@ == channel.items@.take(i as int),
                texts@.len() == i,
                forall|k: int| 0 <= k < texts@.len() ==> texts@[k] is None,
            decreases channel.items.len() - i,
        {
            items.push(copy_item(&channel.items[i]));
            texts.push(None);
            i += 1;
        }
        assert(channel.items@.take(channel.items.len() as int) =~= channel.items@);
        if items.len() > 0 {
            app.item_state = Some(0);
        }
        app.current_items = items;
        app.item_markdown = texts;
        app.current_feed = Some(channel);
        app.db = db;
        app.current_feed_name = feed_name;
        app.current_feed_url = feed_url;
        app.current_screen = Screen::Items;
        app
    }

    /// Moves down.
    pub fn next(&mut self)
        ensures
            *final(self) == moved_down(*old(self)),
    {
        match self.current_screen {
            Screen::Feeds => {
                if self.feeds.len() == 0 {
                    return;
                }
                let i: usize = match self.feed_state {
                    Some(i) => if i >= self.feeds.len() - 1 {
                        0
                    } else {
                        i + 1
                    },
                    None => 0,
                };
                self.feed_state = Some(i);
            },
            Screen::Items => {
                if self.current_items.len() == 0 {
                    return;
                }
                let i: usize = match self.item_state {
                    Some(i) => if i >= self.current_items.len() - 1 {
                        0
                    } else {
                        i + 1
                    },
                    None => 0,
                };
                self.item_state = Some(i);
            },
            Screen::Article => {
                self.scroll_down();
            },
        }
    }

    /// Moves up.
    pub fn previous(&mut self)
        ensures
            *final(self) == moved_up(*old(self)),
    {
        match self.current_screen {
            Screen::Feeds => {
                if self.feeds.len() == 0 {
                    return;
                }
                let i: usize = match self.feed_state {
                    Some(i) => if i == 0 {
                        self.feeds.len() - 1
                    } else {
                        i - 1
                    },
                    None => 0,
                };
                self.feed_state = Some(i);
            },
            Screen::Items => {
                if self.current_items.len() == 0 {
                    return;
                }
                let i: usize = match self.item_state {
                    Some(i) => if i == 0 {
                        self.current_items.len() - 1
                    } else {
                        i - 1
                    },
                    None => 0,
                };
                self.item_state = Some(i);
            },
            Screen::Article => {
                self.scroll_up();
            },
        }
    }

    /// Scrolls the article one line down.
    pub fn scroll_down(&mut self)
        ensures
            *final(self) == (App { scroll_offset: scrolled_down(old(self).scroll_offset), ..*old(self) }),
    {
        if self.scroll_offset < u16::MAX {
            self.scroll_offset = self.scroll_offset + 1;
        }
    }

    /// Scrolls the article one line up.
    pub fn scroll_up(&mut self)
        ensures
            *final(self) == (App { scroll_offset: scrolled_up(old(self).scroll_offset), ..*old(self) }),
    {
        if self.scroll_offset > 0 {
            self.scroll_offset = self.scroll_offset - 1;
        }
    }

    /// Goes back one screen: from an article to the items; from the items
    /// to the feeds, where the reader has a configuration, forgetting the
    /// feed; from the feeds, out of the reader.
    pub fn back(&mut self)
        ensures
            match old(self).current_screen {
                Screen::Article => {
                    &&& *final(self) == (App {
                        current_screen: Screen::Items,
                        status_message: final(self).status_message,
                        ..*old(self)
                    })
                    &&& final(self).status_message@
                        == "Feed items. Press 'Enter' to read, 'Esc' to feeds."@
                },
                Screen::Items => if old(self).config is Some {
                    &&& *final(self) == (App {
                        current_screen: Screen::Feeds,
                        current_feed: None,
                        current_feed_name: None,
                        current_feed_url: None,
                        current_items: final(self).current_items,
                        item_markdown: final(self).item_markdown,
                        status_message: final(self).status_message,
                        ..*old(self)
                    })
                    &&& final(self).current_items@.len() == 0
                    &&& final(self).item_markdown@.len() == 0
                    &&& final(self).status_message@ == "Select a feed. Press 'Enter' to open."@
                } else {
                    *final(self) == *old(self)
                },
                Screen::Feeds => *final(self) == (App { should_quit: true, ..*old(self) }),
            },
    {
        match self.current_screen {
            Screen::Article => {
                self.current_screen = Screen::Items;
                self.status_message = "Feed items. Press 'Enter' to read, 'Esc' to feeds."
                    .to_owned();
            },
            Screen::Items => {
                if self.config.is_some() {
                    self.current_screen = Screen::Feeds;
                    self.current_feed = None;
                    self.current_feed_name = None;
                    self.current_feed_url = None;
                    self.current_items = Vec::new();
                    self.item_markdown = Vec::new();
                    self.status_message = "Select a feed. Press 'Enter' to open.".to_owned();
                }
            },
            Screen::Feeds => {
                self.should_quit = true;
            },
        }
    }

    /// What a selection asks of the caller. Nothing changes yet but the
    /// status line and, for a fetch, the loading mark.
    pub fn select(&mut self) -> (r: Selection)
        ensures
            r == selection_of(*old(self)),
            *final(self) == (App {
                status_message: final(self).status_message,
                is_loading: old(self).is_loading || r is Fetch,
                ..*old(self)
            }),
            r matches Selection::Fetch { index } ==> final(self).status_message@ == "Fetching "@
                + old(self).feeds@[index as int].url@ + "..."@,
            r is Load ==> final(self).status_message@ == "Loading article..."@,
            r is Nothing ==> final(self).status_message == old(self).status_message,
    {
        match self.current_screen {
            Screen::Feeds => match self.feed_state {
                Some(i) => {
                    if i < self.feeds.len() {
                        let mut status = chars_of("Fetching ");
                        push_str(&mut status, self.feeds[i].url.as_str());
                        push_str(&mut status, "...");
                        self.status_message = string_of(&status);
                        self.is_loading = true;
                        Selection::Fetch { index: i }
                    } else {
                        Selection::Nothing
                    }
                },
                None => Selection::Nothing,
            },
            Screen::Items => match self.item_state {
                Some(i) => {
                    self.status_message = "Loading article...".to_owned();
                    Selection::Load { index: i }
                },
                None => Selection::Nothing,
            },
            Screen::Article => Selection::Nothing,
        }
    }

    /// Takes in a feed that was fetched: its items are shown, the first of
    /// them selected, with no text loaded yet.
    pub fn feed_loaded(&mut self, channel: Channel, feed_name: Option<String>, source: String)
        ensures
            *final(self) == (App {
                current_screen: Screen::Items,
                current_items: final(self).current_items,
                item_markdown: final(self).item_markdown,
                current_feed: Some(channel),
                current_feed_name: feed_name,
                current_feed_url: Some(source),
                item_state: Some(0usize),
                is_loading: false,
                status_message: final(self).status_message,
                ..*old(self)
            }),
            final(self).current_items@ == channel.items@,
            final(self).item_markdown@.len() == channel.items@.len(),
            forall|i: int|
                0 <= i < final(self).item_markdown@.len() ==> final(self).item_markdown@[i]
                    is None,
            final(self).status_message@
                == "Loaded feed. Press 'Enter' to view article, 'Esc' to back."@,
    {
        let mut items: Vec<Item> = Vec::new();
        let mut texts: Vec<Option<String>> = Vec::new();
        let mut i: usize = 0;
        while i < channel.items.len()
            invariant
                i <= channel.items.len(),
                items@ == channel.items@.take(i as int),
                texts@.len() == i,
                forall|k: int| 0 <= k < texts@.len() ==> texts@[k] is None,
            decreases channel.items.len() - i,
        {
            items.push(copy_item(&channel.items[i]));
            texts.push(None);
            i += 1;
        }
        assert(channel.items@.take(channel.items.len() as int) =~= channel.items@);
        self.current_items = items;
        self.item_markdown = texts;
        self.current_feed = Some(channel);
        self.current_feed_name = feed_name;
        self.current_feed_url = Some(source);
        self.is_loading = false;
        self.status_message = "Loaded feed. Press 'Enter' to view article, 'Esc' to back."
            .to_owned();
        self.current_screen = Screen::Items;
        self.item_state = Some(0);
    }

    /// Takes in that a feed could not be fetched: the reason is shown, and
    /// the screen stays.
    pub fn feed_failed(&mut self, reason: &str)
        ensures
            *final(self) == (App {
                is_loading: false,
                status_message: final(self).status_message,
                ..*old(self)
            }),
            final(self).status_message@ == "Error: "@ + reason@,
    {
        let mut status = chars_of("Error: ");
        push_str(&mut status, reason);
        self.status_message = string_of(&status);
        self.is_loading = false;
    }

    /// Whether the text of an item still has to be loaded.
    pub fn needs_text(&self, index: usize) -> (r: bool)
        ensures
            r == lacks_text(*self, index),
    {
        if index >= self.current_items.len() {
            return false;
        }
        if index < self.item_markdown.len() {
            self.item_markdown[index].is_none()
        } else {
            true
        }
    }

    /// Where the text of an item is to come from: from the store, where
    /// the reader has one, under the path of the item's article; else from
    /// the item's own payload.
    pub fn load_request(&self, index: usize) -> (r: LoadRequest)
        ensures
            match r {
                LoadRequest::Nothing => !lacks_text(*self, index),
                LoadRequest::Read { path } => lacks_text(*self, index) && self.db is Some
                    && path@ == joined_path(
                    self.db->0.root(),
                    item_name(
                        feed_name_of(*self),
                        feed_url_of(*self),
                        self.current_items@[index as int]@,
                    ),
                ),
                LoadRequest::Convert { html } => lacks_text(*self, index) && self.db is None
                    && opt_text(html) == body_of(self.current_items@[index as int]@),
            },
    {
        if !self.needs_text(index) {
            return LoadRequest::Nothing;
        }
        let item = &self.current_items[index];
        match &self.db {
            Some(db) => {
                let feed_name = match &self.current_feed_name {
                    Some(name) => name.as_str(),
                    None => "Unknown Feed",
                };
                let feed_url = match &self.current_feed_url {
                    Some(url) => url.as_str(),
                    None => "unknown",
                };
                LoadRequest::Read { path: db.item_path(feed_name, feed_url, item) }
            },
            None => {
                let html = match item_body(item) {
                    Some(html) => Some(html.to_owned()),
                    None => None,
                };
                LoadRequest::Convert { html }
            },
        }
    }

    /// Takes in what the converter made of the payload of an item, for a
    /// reader without a store, and shows the article from its top: the text
    /// shown is the stored text form of the item's payload.
    pub fn article_converted(&mut self, index: usize, converted: Option<String>)
        ensures
            *final(self) == (App {
                current_screen: Screen::Article,
                scroll_offset: 0,
                status_message: final(self).status_message,
                item_markdown: final(self).item_markdown,
                ..*old(self)
            }),
            final(self).status_message@ == "Reading article. Press 'Esc' or 'q' to back."@,
            final(self).item_markdown@.len() == old(self).item_markdown@.len(),
            forall|i: int|
                0 <= i < old(self).item_markdown@.len() && i != index
                    ==> final(self).item_markdown@[i] == old(self).item_markdown@[i],
            index < old(self).item_markdown@.len() ==> if index < old(self).current_items@.len() {
                opt_text(final(self).item_markdown@[index as int]) == Some(
                    item_markdown(old(self).current_items@[index as int]@, opt_text(converted)),
                )
            } else {
                final(self).item_markdown@[index as int] == old(self).item_markdown@[index as int]
            },
    {
        if index < self.item_markdown.len() && index < self.current_items.len() {
            let text = extract_markdown(&self.current_items[index], converted);
            self.item_markdown.set(index, Some(text));
        }
        self.current_screen = Screen::Article;
        self.scroll_offset = 0;
        self.status_message = "Reading article. Press 'Esc' or 'q' to back.".to_owned();
    }

    /// Takes in the text of an item, or that there is none yet, and shows
    /// the article from its top.
    pub fn article_loaded(&mut self, index: usize, text: Option<String>)
        ensures
            *final(self) == (App {
                current_screen: Screen::Article,
                scroll_offset: 0,
                status_message: final(self).status_message,
                item_markdown: final(self).item_markdown,
                ..*old(self)
            }),
            final(self).status_message@ == "Reading article. Press 'Esc' or 'q' to back."@,
            final(self).item_markdown@ == (if index < old(self).item_markdown@.len() {
                old(self).item_markdown@.update(index as int, text)
            } else {
                old(self).item_markdown@
            }),
    {
        if index < self.item_markdown.len() {
            self.item_markdown.set(index, text);
        }
        self.current_screen = Screen::Article;
        self.scroll_offset = 0;
        self.status_message = "Reading article. Press 'Esc' or 'q' to back.".to_owned();
    }
}

/// A copy of an item.
fn copy_item(item: &Item) -> (r: Item)
    ensures
        r == *item,
{
    Item {
        title: item.title.clone(),
        link: item.link.clone(),
        pub_date: item.pub_date.clone(),
        content: item.content.clone(),
        description: item.description.clone(),
    }
}

/// The kind of a line of an article.
#[derive(Clone, Copy, Debug, PartialEq, Eq, Structural)]
pub enum LineStyle {
    Paragraph,
    /// A header, with its level.
    Header(u8),
    /// An entry of a list, with its depth.
    ListItem(u8),
    Code,
    Quote,
}

/// A text repeated a number of times.
pub open spec fn repeated(piece: Seq<char>, times: nat) -> Seq<char>
    decreases times,
{
    if times == 0 {
        Seq::empty()
    } else {
        repeated(piece, (times - 1) as nat) + piece
    }
}

/// What is put in front of a line of each kind: a bullet behind two spaces
/// for each level of depth, a bar for a quote, four spaces for code, one `#`
/// for each level of a header and a space; nothing for a paragraph.
pub open spec fn prefix_of(style: LineStyle) -> Option<Seq<char>> {
    match style {
        LineStyle::ListItem(depth) => Some(repeated("  "@, depth as nat) + "• "@),
        LineStyle::Quote => Some("│ "@),
        LineStyle::Code => Some("    "@),
        LineStyle::Header(level) => Some(repeated("#"@, level as nat) + " "@),
        LineStyle::Paragraph => None,
    }
}

/// Appends a text a number of times.
fn push_repeated(out: &mut Vec<char>, piece: &str, times: u8)
    ensures
        final(out)@ == old(out)@ + repeated(piece@, times as nat),
{
    let mut i: u8 = 0;
    assert(old(out)@ + repeated(piece@, 0) =~= old(out)@);
    while i < times
        invariant
            i <= times,
            out@ == old(out)@ + repeated(piece@, i as nat),
        decreases times - i,
    {
        push_str(out, piece);
        i += 1;
        assert(out@ =~= old(out)@ + repeated(piece@, i as nat));
    }
}

/// What is put in front of a line of a kind.
pub fn line_prefix(style: LineStyle) -> (r: Option<String>)
    ensures
        crate::text::opt_text(r) == prefix_of(style),
{
    match style {
        LineStyle::ListItem(depth) => {
            let mut out: Vec<char> = Vec::new();
            push_repeated(&mut out, "  ", depth);
            push_str(&mut out, "• ");
            assert(out@ =~= repeated("  "@, depth as nat) + "• "@);
            Some(string_of(&out))
        },
        LineStyle::Quote => Some("│ ".to_owned()),
        LineStyle::Code => Some("    ".to_owned()),
        LineStyle::Header(level) => {
            let mut out: Vec<char> = Vec::new();
            push_repeated(&mut out, "#", level);
            push_str(&mut out, " ");
            assert(out@ =~= repeated("#"@, level as nat) + " "@);
            Some(string_of(&out))
        },
        LineStyle::Paragraph => None,
    }
}

} // verus!
