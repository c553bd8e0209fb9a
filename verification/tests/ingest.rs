use rss_reader::db::{
    default_image_dir, default_store_dir, is_fetchable, is_fetchable_scheme, local_ref, Database,
};
use rss_reader::feed::{Channel, Item};
use rss_reader::ingest::{Action, Event, Ingest, Phase, Response, StoreError};
use rss_reader::naming::{
    hash_string, image_filename, item_filename, provisional_image_filename,
};
use std::collections::HashMap;

/// A store and a network in memory.
struct World {
    artifacts: HashMap<String, String>,
    assets: HashMap<String, Vec<u8>>,
    log: Option<String>,
    refuse_conversion: bool,
    servers: HashMap<String, Response>,
    fetched: Vec<String>,
    refuse_artifacts: bool,
    refuse_assets: bool,
    refuse_index: bool,
}

fn world() -> World {
    World {
        artifacts: HashMap::new(),
        assets: HashMap::new(),
        log: None,
        refuse_conversion: false,
        servers: HashMap::new(),
        fetched: Vec::new(),
        refuse_artifacts: false,
        refuse_assets: false,
        refuse_index: false,
    }
}

fn answer(success: bool, content_type: Option<&str>, body: &[u8]) -> Response {
    Response { success, content_type: content_type.map(|c| c.to_string()), body: body.to_vec() }
}

const HEADER: &str = "time,article_name,rss_subscription_name,path\n";

/// The rows of the log, without the header row.
fn rows(world: &World) -> Vec<String> {
    match &world.log {
        None => Vec::new(),
        Some(log) => {
            assert!(log.starts_with(HEADER), "the log starts with {:?}", log);
            log[HEADER.len()..].split_inclusive('\n').map(|row| row.to_string()).collect()
        }
    }
}

fn perform(world: &mut World, action: &Action) -> Option<Event> {
    match action {
        Action::ReadArtifact { path } => {
            Some(Event::Artifact { content: world.artifacts.get(path).cloned() })
        }
        Action::Convert { html } => {
            let markdown = if world.refuse_conversion { None } else { Some(html2md::parse_html(html)) };
            Some(Event::Converted { markdown })
        }
        Action::CheckAsset { path } => {
            Some(Event::AssetFound { exists: world.assets.contains_key(path) })
        }
        Action::FetchAsset { url } => {
            world.fetched.push(url.clone());
            Some(Event::Fetched { response: world.servers.get(url).cloned() })
        }
        Action::StoreAsset { path, bytes } => {
            if world.refuse_assets {
                return Some(Event::AssetStored { ok: false });
            }
            world.assets.insert(path.clone(), bytes.clone());
            Some(Event::AssetStored { ok: true })
        }
        Action::WriteArtifact { path, text } => {
            if world.refuse_artifacts {
                return Some(Event::ArtifactWritten { ok: false });
            }
            world.artifacts.insert(path.clone(), text.clone());
            Some(Event::ArtifactWritten { ok: true })
        }
        Action::CheckIndex { path } => {
            assert_eq!(path, "store/index.csv");
            Some(Event::IndexSize { size: world.log.as_ref().map(|log| log.len() as u64) })
        }
        Action::AppendIndex { path, text } => {
            assert_eq!(path, "store/index.csv");
            if world.refuse_index {
                return Some(Event::IndexAppended { ok: false });
            }
            world.log.get_or_insert_with(String::new).push_str(text);
            Some(Event::IndexAppended { ok: true })
        }
        Action::Done { .. } | Action::Failed { .. } => None,
    }
}

fn run(world: &mut World, start: (Ingest, Action)) -> Action {
    let (mut state, mut action) = start;
    for _ in 0..1000 {
        match perform(world, &action) {
            None => return action,
            Some(event) => {
                let next = state.step(event);
                state = next.0;
                action = next.1;
            }
        }
    }
    panic!("the ingestion did not end");
}

fn ingest(world: &mut World, item: &Item) -> Result<String, StoreError> {
    let db = Database::open("store");
    match run(world, db.store_item_at("Example", "https://feed.example/rss", item, "NOW")) {
        Action::Done { text } => Ok(text),
        Action::Failed { error } => Err(error),
        other => panic!("no end: {:?}", other),
    }
}

fn read_back(world: &World, feed_name: &str, feed_url: &str, item: &Item) -> Option<String> {
    let db = Database::open("store");
    world.artifacts.get(&db.item_path(feed_name, feed_url, item)).cloned()
}

fn hello() -> Item {
    Item {
        title: Some("Hello".to_string()),
        link: Some("https://feed.example/1".to_string()),
        pub_date: Some("Mon, 01 Jan 2024 00:00:00 GMT".to_string()),
        content: Some("<p>Hi <img src='https://img.example/a.png'></p>".to_string()),
        description: None,
    }
}

fn with_content(content: &str) -> Item {
    Item { content: Some(content.to_string()), ..hello() }
}

const IMAGE: &str = "https://img.example/a.png";

#[test]
fn end_to_end_scenario() {
    let mut w = world();
    w.servers.insert(IMAGE.to_string(), answer(true, Some("image/png"), b"PNGDATA"));
    let item = hello();
    let text = ingest(&mut w, &item).unwrap();

    let asset = format!("{}.png", hash_string(IMAGE));
    assert_eq!(text, format!("Hi ![](/images/{})", asset));
    assert!(text.contains(&format!("images/{}", asset)));

    let name = item_filename(
        "Example",
        "https://feed.example/rss",
        "Hello",
        "https://feed.example/1",
        "2024-01-01T00:00:00+00:00",
    );
    let path = format!("store/{}", name);
    assert_eq!(w.artifacts.len(), 1);
    assert_eq!(w.artifacts.get(&path), Some(&text));
    assert_eq!(rows(&w), vec![format!("2024-01-01T00:00:00+00:00,Hello,Example,{}\n", path)]);
    assert_eq!(w.assets.len(), 1);
    assert_eq!(w.assets.get(&format!("store/images/{}", asset)), Some(&b"PNGDATA".to_vec()));
    assert_eq!(read_back(&w, "Example", "https://feed.example/rss", &item), Some(text));
}

#[test]
fn ingesting_twice_changes_nothing_the_second_time() {
    let mut w = world();
    w.servers.insert(IMAGE.to_string(), answer(true, Some("image/png"), b"PNGDATA"));
    let item = hello();
    let first = ingest(&mut w, &item).unwrap();
    let fetches = w.fetched.len();
    w.servers.clear();
    let second = ingest(&mut w, &item).unwrap();
    assert_eq!(first, second);
    assert_eq!(w.artifacts.len(), 1);
    assert_eq!(rows(&w).len(), 1);
    assert_eq!(w.assets.len(), 1);
    assert_eq!(w.fetched.len(), fetches);
}

#[test]
fn kept_article_is_returned_as_it_is() {
    let mut w = world();
    let item = hello();
    let db = Database::open("store");
    w.artifacts.insert(
        db.item_path("Example", "https://feed.example/rss", &item),
        "kept before".to_string(),
    );
    assert_eq!(ingest(&mut w, &item), Ok("kept before".to_string()));
    assert!(rows(&w).is_empty());
    assert!(w.fetched.is_empty());
    assert!(w.assets.is_empty());
}

#[test]
fn read_back_misses_when_an_identifying_input_changes() {
    let mut w = world();
    let item = hello();
    let text = ingest(&mut w, &item).unwrap();
    assert_eq!(read_back(&w, "Example", "https://feed.example/rss", &item), Some(text));
    assert_eq!(read_back(&w, "Other", "https://feed.example/rss", &item), None);
    assert_eq!(read_back(&w, "Example", "https://feed.example/atom", &item), None);
    let retitled = Item { title: Some("Hello!".to_string()), ..hello() };
    assert_eq!(read_back(&w, "Example", "https://feed.example/rss", &retitled), None);
    let relinked = Item { link: None, ..hello() };
    assert_eq!(read_back(&w, "Example", "https://feed.example/rss", &relinked), None);
    let redated = Item { pub_date: Some("Tue, 02 Jan 2024 00:00:00 GMT".to_string()), ..hello() };
    assert_eq!(read_back(&w, "Example", "https://feed.example/rss", &redated), None);
}

#[test]
fn read_back_ignores_what_does_not_identify() {
    let mut w = world();
    let text = ingest(&mut w, &hello()).unwrap();
    let other_body = with_content("<p>something else</p>");
    assert_eq!(read_back(&w, "Example", "https://feed.example/rss", &other_body), Some(text.clone()));
    let same_instant = Item { pub_date: Some("2024-01-01T01:00:00+01:00".to_string()), ..hello() };
    assert_eq!(read_back(&w, "Example", "https://feed.example/rss", &same_instant), Some(text));
}

#[test]
fn item_without_title_link_and_date() {
    let mut w = world();
    let item = Item {
        title: None,
        link: None,
        pub_date: None,
        content: None,
        description: Some("<p>summary</p>".to_string()),
    };
    assert_eq!(ingest(&mut w, &item), Ok("summary".to_string()));
    let name = item_filename("Example", "https://feed.example/rss", "No Title", "", "");
    assert_eq!(w.artifacts.get(&format!("store/{}", name)), Some(&"summary".to_string()));
    assert_eq!(rows(&w), vec![format!("NOW,No Title,Example,store/{}\n", name)]);
}

#[test]
fn item_with_unreadable_date_is_indexed_at_the_time_of_ingestion() {
    let mut w = world();
    let item = Item { pub_date: Some("some day".to_string()), ..hello() };
    ingest(&mut w, &item).unwrap();
    let name = item_filename("Example", "https://feed.example/rss", "Hello", "https://feed.example/1", "");
    assert!(w.artifacts.contains_key(&format!("store/{}", name)));
    assert!(rows(&w)[0].starts_with("NOW,Hello,Example,"));
}

#[test]
fn item_without_payload_is_stored_empty() {
    let mut w = world();
    let item = Item { content: None, description: None, ..hello() };
    assert_eq!(ingest(&mut w, &item), Ok(String::new()));
    assert_eq!(w.artifacts.len(), 1);
    assert_eq!(rows(&w).len(), 1);
}

#[test]
fn index_row_keeps_the_title_as_it_was() {
    let mut w = world();
    let item = Item { title: Some("A, \"B\" https://img.example/a.png".to_string()), ..hello() };
    w.servers.insert(IMAGE.to_string(), answer(true, Some("image/png"), b"X"));
    ingest(&mut w, &item).unwrap();
    assert!(rows(&w)[0].starts_with(
        "2024-01-01T00:00:00+00:00,\"A, \"\"B\"\" https://img.example/a.png\",Example,store/"
    ));
}

#[test]
fn image_that_is_not_found_stays_remote() {
    let mut w = world();
    w.servers.insert(IMAGE.to_string(), answer(false, Some("text/html"), b"not found"));
    let item = hello();
    let text = ingest(&mut w, &item).unwrap();
    assert_eq!(text, "Hi ![](https://img.example/a.png)");
    assert!(w.assets.is_empty());
    assert_eq!(w.fetched, vec![IMAGE.to_string()]);
    assert_eq!(rows(&w).len(), 1);
    assert_eq!(read_back(&w, "Example", "https://feed.example/rss", &item), Some(text));
}

#[test]
fn image_whose_server_does_not_answer_stays_remote() {
    let mut w = world();
    let text = ingest(&mut w, &hello()).unwrap();
    assert_eq!(text, "Hi ![](https://img.example/a.png)");
    assert_eq!(w.fetched, vec![IMAGE.to_string()]);
    assert_eq!(w.artifacts.len(), 1);
}

#[test]
fn image_that_cannot_be_stored_stays_remote() {
    let mut w = world();
    w.refuse_assets = true;
    w.servers.insert(IMAGE.to_string(), answer(true, Some("image/png"), b"X"));
    let text = ingest(&mut w, &hello()).unwrap();
    assert_eq!(text, "Hi ![](https://img.example/a.png)");
    assert_eq!(rows(&w).len(), 1);
}

#[test]
fn image_with_another_scheme_is_not_fetched() {
    let mut w = world();
    let item = with_content("<p><img src='ftp://img.example/a.png' alt='F'> <img src='data:image/png;base64,AAAA'> <img src='/relative.png'></p>");
    let text = ingest(&mut w, &item).unwrap();
    assert!(w.fetched.is_empty());
    assert!(w.assets.is_empty());
    assert!(text.contains("![F](ftp://img.example/a.png)"));
    assert!(text.contains("(/relative.png)"));
    assert_eq!(rows(&w).len(), 1);
}

#[test]
fn fetchable_schemes_are_http_and_https() {
    assert!(is_fetchable_scheme("http"));
    assert!(is_fetchable_scheme("https"));
    assert!(!is_fetchable_scheme("HTTP"));
    assert!(!is_fetchable_scheme("ftp"));
    assert!(!is_fetchable_scheme("httpss"));
    assert!(!is_fetchable_scheme(""));
}

#[test]
fn fetchable_urls_are_http_and_https() {
    assert!(is_fetchable("http://img.example/a.png"));
    assert!(is_fetchable("https://img.example/a.png"));
    assert!(is_fetchable("HTTPS://IMG.EXAMPLE/a.png"));
    assert!(!is_fetchable("ftp://img.example/a.png"));
    assert!(!is_fetchable("file:///etc/passwd"));
    assert!(!is_fetchable("/relative.png"));
    assert!(!is_fetchable(""));
}

#[test]
fn image_kept_under_its_provisional_name_is_not_fetched() {
    let mut w = world();
    let provisional = format!("store/images/{}.img", hash_string(IMAGE));
    w.assets.insert(provisional, b"OLD".to_vec());
    w.servers.insert(IMAGE.to_string(), answer(true, Some("image/png"), b"NEW"));
    let text = ingest(&mut w, &hello()).unwrap();
    assert_eq!(text, format!("Hi ![](/images/{}.img)", hash_string(IMAGE)));
    assert!(w.fetched.is_empty());
    assert_eq!(w.assets.len(), 1);
}

#[test]
fn image_kept_under_its_resolved_name_is_not_written_again() {
    let mut w = world();
    let kept = format!("store/images/{}.png", hash_string(IMAGE));
    w.assets.insert(kept.clone(), b"OLD".to_vec());
    w.servers.insert(IMAGE.to_string(), answer(true, Some("image/png"), b"NEW"));
    let text = ingest(&mut w, &hello()).unwrap();
    assert_eq!(text, format!("Hi ![](/images/{}.png)", hash_string(IMAGE)));
    assert_eq!(w.fetched, vec![IMAGE.to_string()]);
    assert_eq!(w.assets.get(&kept), Some(&b"OLD".to_vec()));
    assert_eq!(w.assets.len(), 1);
}

#[test]
fn two_ingestions_racing_for_one_image_converge() {
    let mut w = world();
    w.servers.insert(IMAGE.to_string(), answer(true, Some("image/png"), b"PNGDATA"));
    let db = Database::open("store");
    let first_item = hello();
    let second_item = Item { title: Some("Other".to_string()), ..hello() };
    let (mut a, mut a_action) = db.store_item_at("Example", "u", &first_item, "NOW");
    let (mut b, mut b_action) = db.store_item_at("Example", "u", &second_item, "NOW");
    // Both find their article missing, convert it, find the image missing
    // under both of its names, and fetch it.
    for _ in 0..5 {
        let event = perform(&mut w, &a_action).unwrap();
        (a, a_action) = a.step(event);
        let event = perform(&mut w, &b_action).unwrap();
        (b, b_action) = b.step(event);
    }
    assert!(matches!(a_action, Action::StoreAsset { .. }));
    assert!(matches!(b_action, Action::StoreAsset { .. }));
    let a_text = match run(&mut w, (a, a_action)) {
        Action::Done { text } => text,
        other => panic!("{:?}", other),
    };
    let b_text = match run(&mut w, (b, b_action)) {
        Action::Done { text } => text,
        other => panic!("{:?}", other),
    };
    assert_eq!(a_text, b_text);
    assert_eq!(a_text, format!("Hi ![](/images/{}.png)", hash_string(IMAGE)));
    assert_eq!(w.assets.len(), 1);
    assert_eq!(w.fetched.len(), 2);
    assert_eq!(w.artifacts.len(), 2);
    assert_eq!(rows(&w).len(), 2);
}

#[test]
fn each_image_is_localized_once_per_article() {
    let mut w = world();
    w.servers.insert(IMAGE.to_string(), answer(true, None, b"1"));
    w.servers.insert("https://img.example/b".to_string(), answer(true, Some("image/gif"), b"2"));
    let item = with_content(
        "<p><img src='https://img.example/a.png'> <img src='https://img.example/b' alt='B'> <img src='https://img.example/a.png' alt='again'></p>",
    );
    let text = ingest(&mut w, &item).unwrap();
    assert_eq!(w.fetched, vec![IMAGE.to_string(), "https://img.example/b".to_string()]);
    assert_eq!(
        text,
        format!(
            "![](/images/{a}.png) ![B](/images/{b}.gif) ![again](/images/{a}.png)",
            a = hash_string(IMAGE),
            b = hash_string("https://img.example/b")
        )
    );
    assert_eq!(w.assets.len(), 2);
}

#[test]
fn content_type_decides_before_the_url_suffix() {
    let mut w = world();
    w.servers.insert(IMAGE.to_string(), answer(true, Some("image/webp"), b"W"));
    let text = ingest(&mut w, &hello()).unwrap();
    assert_eq!(text, format!("Hi ![](/images/{}.webp)", hash_string(IMAGE)));
}

#[test]
fn failure_to_write_the_article_fails_the_ingestion() {
    let mut w = world();
    w.refuse_artifacts = true;
    assert_eq!(ingest(&mut w, &hello()), Err(StoreError::WriteArtifact));
    assert!(rows(&w).is_empty());
}

#[test]
fn failure_to_append_the_row_fails_the_ingestion() {
    let mut w = world();
    w.refuse_index = true;
    assert_eq!(ingest(&mut w, &hello()), Err(StoreError::AppendIndex));
    assert_eq!(w.artifacts.len(), 1);
}

#[test]
fn event_that_answers_nothing_ends_the_ingestion() {
    let db = Database::open("store");
    let (state, action) = db.store_item_at("Example", "u", &hello(), "NOW");
    assert!(matches!(action, Action::ReadArtifact { .. }));
    assert_eq!(state.phase, Phase::AwaitArtifact);
    let (state, action) = state.step(Event::IndexAppended { ok: true });
    assert!(matches!(action, Action::Failed { error: StoreError::UnexpectedEvent }));
    assert_eq!(state.phase, Phase::Finished);
    let (_, action) = state.step(Event::Artifact { content: None });
    assert!(matches!(action, Action::Failed { error: StoreError::UnexpectedEvent }));
}

#[test]
fn steps_of_an_ingestion_in_order() {
    let db = Database::open("store");
    let (state, action) = db.store_item_at("Example", "https://feed.example/rss", &hello(), "NOW");
    let article = format!("store/{}", state.name);
    assert!(matches!(&action, Action::ReadArtifact { path } if *path == article));
    let (state, action) = state.step(Event::Artifact { content: None });
    assert_eq!(state.phase, Phase::AwaitConversion);
    assert!(matches!(&action, Action::Convert { html } if html == "<p>Hi <img src='https://img.example/a.png'></p>"));
    let (state, action) = state.step(Event::Converted {
        markdown: Some("Hi ![](https://img.example/a.png)".to_string()),
    });
    assert_eq!(state.phase, Phase::AwaitAssetCheck);
    assert_eq!(state.markdown, "Hi ![](https://img.example/a.png)");
    assert_eq!(state.urls, vec![IMAGE.to_string()]);
    let provisional = format!("store/images/{}.img", hash_string(IMAGE));
    assert!(matches!(&action, Action::CheckAsset { path } if *path == provisional));
    let (state, action) = state.step(Event::AssetFound { exists: false });
    assert_eq!(state.phase, Phase::AwaitFetch);
    assert!(matches!(&action, Action::FetchAsset { url } if url == IMAGE));
    let (state, action) = state.step(Event::Fetched {
        response: Some(answer(true, Some("image/jpeg"), b"J")),
    });
    assert_eq!(state.phase, Phase::AwaitResolvedCheck);
    let stored = format!("store/images/{}.jpg", hash_string(IMAGE));
    assert!(matches!(&action, Action::CheckAsset { path } if *path == stored));
    let (state, action) = state.step(Event::AssetFound { exists: false });
    assert_eq!(state.phase, Phase::AwaitAssetStore);
    assert!(matches!(&action, Action::StoreAsset { path, bytes } if *path == stored && bytes == b"J"));
    let (state, action) = state.step(Event::AssetStored { ok: true });
    assert_eq!(state.phase, Phase::AwaitWrite);
    assert!(state.fetched.is_empty());
    let text = format!("Hi ![](/images/{}.jpg)", hash_string(IMAGE));
    assert!(matches!(&action, Action::WriteArtifact { path, text: t } if *path == article && *t == text));
    let (state, action) = state.step(Event::ArtifactWritten { ok: true });
    assert_eq!(state.phase, Phase::AwaitIndexSize);
    assert!(matches!(&action, Action::CheckIndex { path } if path == "store/index.csv"));
    let (state, action) = state.step(Event::IndexSize { size: None });
    assert_eq!(state.phase, Phase::AwaitAppend);
    let row = format!("2024-01-01T00:00:00+00:00,Hello,Example,{}\n", article);
    let entry = format!("{}{}", HEADER, row);
    assert!(matches!(&action, Action::AppendIndex { path, text } if path == "store/index.csv" && *text == entry));
    let (state, action) = state.step(Event::IndexAppended { ok: true });
    assert_eq!(state.phase, Phase::Finished);
    assert!(matches!(&action, Action::Done { text: t } if *t == text));
}

#[test]
fn header_row_is_written_with_the_first_row_only() {
    let mut w = world();
    ingest(&mut w, &hello()).unwrap();
    ingest(&mut w, &Item { title: Some("Second".to_string()), ..hello() }).unwrap();
    let log = w.log.clone().unwrap();
    assert!(log.starts_with(HEADER));
    assert_eq!(log.matches(HEADER).count(), 1);
    assert_eq!(rows(&w).len(), 2);
}

#[test]
fn header_row_is_written_to_an_empty_log() {
    let mut w = world();
    w.log = Some(String::new());
    ingest(&mut w, &hello()).unwrap();
    assert!(w.log.clone().unwrap().starts_with(HEADER));
    assert_eq!(rows(&w).len(), 1);
}

#[test]
fn payload_that_the_converter_cannot_take_is_stored_as_it_came() {
    let mut w = world();
    w.refuse_conversion = true;
    w.servers.insert(IMAGE.to_string(), answer(true, Some("image/png"), b"PNGDATA"));
    let item = with_content("<p></p><blockquote><li>x</li></blockquote><img src=\"https://img.example/a.png\" alt=\"A\">");
    let text = ingest(&mut w, &item).unwrap();
    assert_eq!(
        text,
        format!("<p></p><blockquote><li>x</li></blockquote>![A](/images/{}.png)", hash_string(IMAGE))
    );
    assert_eq!(rows(&w).len(), 1);
    assert_eq!(read_back(&w, "Example", "https://feed.example/rss", &item), Some(text));
}

#[test]
fn conversion_answered_out_of_turn_ends_the_ingestion() {
    let db = Database::open("store");
    let (state, _) = db.store_item_at("Example", "u", &hello(), "NOW");
    let (_, action) = state.step(Event::Converted { markdown: None });
    assert!(matches!(action, Action::Failed { error: StoreError::UnexpectedEvent }));
}

#[test]
fn store_item_starts_like_store_item_at() {
    let db = Database::open("store");
    let (now_state, now_action) = db.store_item("Example", "https://feed.example/rss", &hello());
    let (at_state, at_action) = db.store_item_at("Example", "https://feed.example/rss", &hello(), "x");
    assert_eq!(now_state.name, at_state.name);
    assert_eq!(now_state.time, "2024-01-01T00:00:00+00:00");
    assert_eq!(format!("{:?}", now_action), format!("{:?}", at_action));
    let undated = Item { pub_date: None, ..hello() };
    let (state, _) = db.store_item("Example", "https://feed.example/rss", &undated);
    assert!(state.time.ends_with("+00:00"));
    assert!(state.time.starts_with("20"));
}

#[test]
fn store_paths() {
    assert_eq!(default_store_dir(), "data/articles");
    assert_eq!(default_image_dir("data/articles"), "data/articles/images");
    let db = Database::open(default_store_dir());
    assert_eq!(db.store_dir(), "data/articles");
    assert_eq!(db.image_dir(), "data/articles/images");
    assert_eq!(db.index_path(), "data/articles/index.csv");
    assert_eq!(local_ref("abc.png"), "/images/abc.png");
}

#[test]
fn store_error_messages() {
    assert_eq!(StoreError::WriteArtifact.message(), "Failed to write markdown file");
    assert_eq!(StoreError::AppendIndex.message(), "Failed to flush index.csv");
    assert_eq!(StoreError::UnexpectedEvent.message(), "Unexpected event");
}

#[test]
fn starting_a_store_asks_for_the_header_row_once() {
    let (db, header) = Database::initialize("store", None);
    assert_eq!(db.store_dir(), "store");
    assert_eq!(header, HEADER);
    assert_eq!(header, "time,article_name,rss_subscription_name,path\n");
    let (_, header) = Database::initialize("store", Some(0));
    assert_eq!(header, HEADER);
    let (db, nothing) = Database::initialize("store", Some(HEADER.len() as u64));
    assert_eq!(nothing, "");
    assert_eq!(db.index_path(), "store/index.csv");
    let (_, nothing) = Database::initialize("store", Some(1));
    assert_eq!(nothing, "");
}

#[test]
fn store_started_before_the_first_ingestion_has_one_header_row() {
    let mut w = world();
    let (_, header) = Database::initialize("store", None);
    w.log = Some(header);
    ingest(&mut w, &hello()).unwrap();
    assert_eq!(w.log.clone().unwrap().matches(HEADER).count(), 1);
    assert_eq!(rows(&w).len(), 1);
}

#[test]
fn store_channel_starts_each_entry_in_turn() {
    let db = Database::open("store");
    let channel = Channel {
        title: "Example".to_string(),
        description: String::new(),
        items: vec![hello(), Item { title: Some("Second".to_string()), ..hello() }],
    };
    let mut w = world();
    let mut index = 0;
    while let Some(start) = db.store_channel("Example", "https://feed.example/rss", &channel, index) {
        assert!(matches!(run(&mut w, start), Action::Done { .. }));
        index += 1;
    }
    assert_eq!(index, 2);
    assert_eq!(w.artifacts.len(), 2);
    assert_eq!(rows(&w).len(), 2);
    assert!(db.store_channel("Example", "u", &channel, 2).is_none());
    let first = db.store_channel("Example", "https://feed.example/rss", &channel, 0).unwrap();
    assert_eq!(first.0.title, "Hello");
    assert_eq!(first.0.time, "2024-01-01T00:00:00+00:00");
}

#[test]
fn file_names_have_fixed_lengths() {
    let db = Database::open("store");
    assert_eq!(db.item_file("Example", "u", &hello()).len(), 67);
    assert_eq!(provisional_image_filename(IMAGE).len(), 68);
    assert_eq!(image_filename(IMAGE, Some("image/webp")).len(), 69);
    assert_eq!(image_filename(IMAGE, None).len(), 68);
}
