use rss_reader::config::{create_default_config, Config, RssHubConfig};
use rss_reader::feed::{Channel, Item};
use rss_reader::db::Database;
use rss_reader::naming::item_filename;
use rss_reader::tui::{line_prefix, App, LineStyle, LoadRequest, Screen, Selection};

fn entry(title: &str) -> Item {
    Item {
        title: Some(title.to_string()),
        link: None,
        pub_date: None,
        content: None,
        description: None,
    }
}

fn channel(titles: &[&str]) -> Channel {
    Channel {
        title: "Feed".to_string(),
        description: String::new(),
        items: titles.iter().map(|t| entry(t)).collect(),
    }
}

#[test]
fn new_app_shows_the_feeds() {
    let app = App::new();
    assert_eq!(app.current_screen, Screen::Feeds);
    assert!(app.feeds.is_empty());
    assert_eq!(app.feed_state, None);
    assert_eq!(app.item_state, None);
    assert!(!app.should_quit);
    assert!(!app.is_loading);
    assert_eq!(app.scroll_offset, 0);
    assert_eq!(app.status_message, "Press 'q' to quit, 'Enter' to select, 'Esc' to go back");
}

#[test]
fn app_with_config_selects_the_first_feed() {
    let app = App::with_config_and_db(create_default_config(), None);
    assert_eq!(app.feeds.len(), 2);
    assert_eq!(app.feed_state, Some(0));
    assert!(app.config.is_some());
    let empty = Config { rsshub: RssHubConfig::default(), rss: vec![], rsshub_feeds: vec![] };
    assert_eq!(App::with_config_and_db(empty, None).feed_state, None);
}

#[test]
fn app_with_channel_shows_its_items() {
    let app = App::with_channel_and_db(channel(&["a", "b"]), None, Some("n".to_string()), None);
    assert_eq!(app.current_screen, Screen::Items);
    assert_eq!(app.current_items.len(), 2);
    assert_eq!(app.current_items[1].title.as_deref(), Some("b"));
    assert_eq!(app.item_markdown, vec![None, None]);
    assert_eq!(app.item_state, Some(0));
    assert_eq!(app.current_feed_name.as_deref(), Some("n"));
    assert_eq!(App::with_channel_and_db(channel(&[]), None, None, None).item_state, None);
}

#[test]
fn next_and_previous_go_round_the_feeds() {
    let mut app = App::with_config_and_db(create_default_config(), None);
    app.next();
    assert_eq!(app.feed_state, Some(1));
    app.next();
    assert_eq!(app.feed_state, Some(0));
    app.previous();
    assert_eq!(app.feed_state, Some(1));
    app.previous();
    assert_eq!(app.feed_state, Some(0));
    app.feed_state = None;
    app.previous();
    assert_eq!(app.feed_state, Some(0));
    app.feed_state = Some(7);
    app.next();
    assert_eq!(app.feed_state, Some(0));
}

#[test]
fn next_and_previous_go_round_the_items() {
    let mut app = App::with_channel_and_db(channel(&["a", "b", "c"]), None, None, None);
    app.previous();
    assert_eq!(app.item_state, Some(2));
    app.next();
    assert_eq!(app.item_state, Some(0));
    app.next();
    assert_eq!(app.item_state, Some(1));
    assert_eq!(app.feed_state, None);
}

#[test]
fn next_and_previous_on_empty_lists_do_nothing() {
    let mut app = App::new();
    app.next();
    app.previous();
    assert_eq!(app.feed_state, None);
    let mut items = App::with_channel_and_db(channel(&[]), None, None, None);
    items.next();
    items.previous();
    assert_eq!(items.item_state, None);
}

#[test]
fn next_and_previous_scroll_an_article() {
    let mut app = App::with_channel_and_db(channel(&["a"]), None, None, None);
    app.article_loaded(0, Some("text".to_string()));
    assert_eq!(app.current_screen, Screen::Article);
    app.previous();
    assert_eq!(app.scroll_offset, 0);
    app.next();
    app.next();
    assert_eq!(app.scroll_offset, 2);
    app.previous();
    assert_eq!(app.scroll_offset, 1);
    assert_eq!(app.item_state, Some(0));
}

#[test]
fn scrolling_stops_at_both_ends() {
    let mut app = App::new();
    app.scroll_up();
    assert_eq!(app.scroll_offset, 0);
    app.scroll_offset = u16::MAX - 1;
    app.scroll_down();
    assert_eq!(app.scroll_offset, u16::MAX);
    app.scroll_down();
    assert_eq!(app.scroll_offset, u16::MAX);
    app.scroll_up();
    assert_eq!(app.scroll_offset, u16::MAX - 1);
}

#[test]
fn back_from_article_to_items_to_feeds_and_out() {
    let mut app = App::with_config_and_db(create_default_config(), None);
    app.feed_loaded(channel(&["a"]), Some("n".to_string()), "u".to_string());
    app.article_loaded(0, None);
    app.back();
    assert_eq!(app.current_screen, Screen::Items);
    assert_eq!(app.status_message, "Feed items. Press 'Enter' to read, 'Esc' to feeds.");
    assert_eq!(app.current_items.len(), 1);
    app.back();
    assert_eq!(app.current_screen, Screen::Feeds);
    assert!(app.current_items.is_empty());
    assert!(app.item_markdown.is_empty());
    assert!(app.current_feed.is_none());
    assert_eq!(app.current_feed_name, None);
    assert_eq!(app.current_feed_url, None);
    assert_eq!(app.status_message, "Select a feed. Press 'Enter' to open.");
    assert!(!app.should_quit);
    app.back();
    assert!(app.should_quit);
    assert_eq!(app.current_screen, Screen::Feeds);
}

#[test]
fn back_from_items_without_config_stays() {
    let mut app = App::with_channel_and_db(channel(&["a"]), None, None, None);
    app.back();
    assert_eq!(app.current_screen, Screen::Items);
    assert_eq!(app.current_items.len(), 1);
    assert!(!app.should_quit);
}

#[test]
fn select_on_feeds_asks_for_a_fetch() {
    let mut app = App::with_config_and_db(create_default_config(), None);
    app.next();
    assert!(matches!(app.select(), Selection::Fetch { index: 1 }));
    assert!(app.is_loading);
    assert_eq!(app.status_message, "Fetching /github/trending/daily...");
    assert_eq!(app.current_screen, Screen::Feeds);
    app.feed_state = Some(9);
    assert!(matches!(app.select(), Selection::Nothing));
    app.feed_state = None;
    assert!(matches!(app.select(), Selection::Nothing));
}

#[test]
fn select_on_items_asks_for_the_text() {
    let mut app = App::with_channel_and_db(channel(&["a", "b"]), None, None, None);
    app.next();
    assert!(matches!(app.select(), Selection::Load { index: 1 }));
    assert_eq!(app.status_message, "Loading article...");
    assert!(app.needs_text(1));
    app.article_loaded(1, Some("text".to_string()));
    assert_eq!(app.item_markdown, vec![None, Some("text".to_string())]);
    assert_eq!(app.current_screen, Screen::Article);
    assert_eq!(app.status_message, "Reading article. Press 'Esc' or 'q' to back.");
    assert!(!app.needs_text(1));
    assert!(app.needs_text(0));
    assert!(!app.needs_text(2));
    assert!(matches!(app.select(), Selection::Nothing));
}

#[test]
fn feed_loaded_shows_the_items() {
    let mut app = App::with_config_and_db(create_default_config(), None);
    app.select();
    app.feed_loaded(channel(&["a", "b"]), Some("Hacker News".to_string()), "src".to_string());
    assert_eq!(app.current_screen, Screen::Items);
    assert_eq!(app.item_state, Some(0));
    assert_eq!(app.current_items.len(), 2);
    assert_eq!(app.item_markdown, vec![None, None]);
    assert!(!app.is_loading);
    assert_eq!(app.current_feed_url.as_deref(), Some("src"));
    assert_eq!(app.current_feed_name.as_deref(), Some("Hacker News"));
    assert_eq!(app.status_message, "Loaded feed. Press 'Enter' to view article, 'Esc' to back.");
}

#[test]
fn feed_failed_shows_the_reason() {
    let mut app = App::with_config_and_db(create_default_config(), None);
    app.select();
    app.feed_failed("Failed to fetch RSS feed");
    assert!(!app.is_loading);
    assert_eq!(app.status_message, "Error: Failed to fetch RSS feed");
    assert_eq!(app.current_screen, Screen::Feeds);
    assert_eq!(app.feed_state, Some(0));
}

#[test]
fn load_request_without_a_store_asks_for_a_conversion() {
    let mut feed = channel(&["a", "b"]);
    feed.items[1].content = Some("<p>full</p>".to_string());
    feed.items[1].description = Some("<p>short</p>".to_string());
    let mut app = App::with_channel_and_db(feed, None, None, None);
    assert!(matches!(app.load_request(1), LoadRequest::Convert { html: Some(h) } if h == "<p>full</p>"));
    assert!(matches!(app.load_request(0), LoadRequest::Convert { html: None }));
    assert!(matches!(app.load_request(2), LoadRequest::Nothing));
    app.next();
    assert!(matches!(app.select(), Selection::Load { index: 1 }));
    app.article_converted(1, Some("full".to_string()));
    assert_eq!(app.current_screen, Screen::Article);
    assert_eq!(app.scroll_offset, 0);
    assert_eq!(app.item_markdown, vec![None, Some("full".to_string())]);
    assert_eq!(app.item_state, Some(1));
    assert_eq!(app.current_items.len(), 2);
    assert!(matches!(app.load_request(1), LoadRequest::Nothing));
}

#[test]
fn article_converted_falls_back_to_the_payload() {
    let mut feed = channel(&["a", "b"]);
    feed.items[0].description = Some("<p>short</p>".to_string());
    let mut app = App::with_channel_and_db(feed, None, None, None);
    app.article_converted(0, None);
    assert_eq!(app.item_markdown, vec![Some("<p>short</p>".to_string()), None]);
    app.back();
    app.article_converted(1, None);
    assert_eq!(app.item_markdown, vec![Some("<p>short</p>".to_string()), Some(String::new())]);
    app.article_converted(5, Some("stray".to_string()));
    assert_eq!(app.item_markdown.len(), 2);
    assert_eq!(app.current_screen, Screen::Article);
}

#[test]
fn load_request_with_a_store_asks_for_the_file() {
    let db = Database::open("store");
    let feed = channel(&["a"]);
    let app = App::with_channel_and_db(
        feed,
        Some(db.clone()),
        Some("Name".to_string()),
        Some("https://feed.example/rss".to_string()),
    );
    let expected = format!("store/{}", item_filename("Name", "https://feed.example/rss", "a", "", ""));
    assert!(matches!(app.load_request(0), LoadRequest::Read { path } if path == expected));
    let nameless = App::with_channel_and_db(channel(&["a"]), Some(db), None, None);
    let stand_in = format!("store/{}", item_filename("Unknown Feed", "unknown", "a", "", ""));
    assert!(matches!(nameless.load_request(0), LoadRequest::Read { path } if path == stand_in));
}

#[test]
fn line_prefix_of_each_kind() {
    assert_eq!(line_prefix(LineStyle::Paragraph), None);
    assert_eq!(line_prefix(LineStyle::Quote), Some("│ ".to_string()));
    assert_eq!(line_prefix(LineStyle::Code), Some("    ".to_string()));
    assert_eq!(line_prefix(LineStyle::Header(3)), Some("### ".to_string()));
    assert_eq!(line_prefix(LineStyle::Header(0)), Some(" ".to_string()));
    assert_eq!(line_prefix(LineStyle::ListItem(0)), Some("• ".to_string()));
    assert_eq!(line_prefix(LineStyle::ListItem(2)), Some("    • ".to_string()));
}
