//! The ingestion of one article, as a state machine.
//!
//! The machine names an action; the caller performs it on the store or the
//! network and hands back the event that tells what happened; the machine
//! then names the next action. It ends with `Done` or `Failed`.

use crate::dates::{current_time, parse_pub_date, written_in_utc};
use crate::db::{
    body_of, fetchable, image_dir_of, index_path_of, index_time, is_fetchable, item_body,
    item_name, local_ref, local_reference, title_of, Database,
};
use crate::feed::{Channel, Item, ItemView};
use crate::index::{entry_text, log_entry, row_line, row_text};
use crate::markup::{html_to_markdown, text_form};
use crate::naming::{
    asset_name, generic_extension, image_extension_of, image_filename,
    provisional_image_filename,
};
use crate::paths::{join_path, joined_path};
use crate::refs::{
    extract_image_urls, image_urls, located, lookup, replacements_view, rewrite, rewritten,
    Replacement,
};
use crate::text::{opt_text, texts_view};
use vstd::prelude::*;

verus! {

/// Why an ingestion failed.
#[derive(Clone, Copy, Debug, PartialEq, Eq, Structural)]
pub enum StoreError {
    /// The article's text could not be written.
    WriteArtifact,
    /// The row could not be appended to the index log.
    AppendIndex,
    /// An event came that does not answer the action that was named.
    UnexpectedEvent,
}

/// A store error in words.
pub open spec fn store_error_text(error: StoreError) -> Seq<char> {
    match error {
        StoreError::WriteArtifact => "Failed to write markdown file"@,
        StoreError::AppendIndex => "Failed to flush index.csv"@,
        StoreError::UnexpectedEvent => "Unexpected event"@,
    }
}

impl StoreError {
    /// The error in words.
    pub fn message(&self) -> (r: &'static str)
        ensures
            r@ == store_error_text(*self),
    {
        match self {
            StoreError::WriteArtifact => "Failed to write markdown file",
            StoreError::AppendIndex => "Failed to flush index.csv",
            StoreError::UnexpectedEvent => "Unexpected event",
        }
    }
}

/// What the machine waits for.
#[derive(Clone, Copy, Debug, PartialEq, Eq, Structural)]
pub enum Phase {
    /// Whether the article is already kept.
    AwaitArtifact,
    /// What the converter makes of the payload.
    AwaitConversion,
    /// Whether the image at the cursor is already kept under its
    /// provisional name.
    AwaitAssetCheck,
    /// The answer of the server for the image at the cursor.
    AwaitFetch,
    /// Whether the image at the cursor is already kept under the name it
    /// is to be stored under.
    AwaitResolvedCheck,
    /// Whether the image at the cursor was written.
    AwaitAssetStore,
    /// Whether the article's text was written.
    AwaitWrite,
    /// The size of the index log.
    AwaitIndexSize,
    /// Whether the row was appended to the index log.
    AwaitAppend,
    /// Nothing: the ingestion has ended.
    Finished,
}

/// The answer of a server.
#[derive(Debug, Clone)]
pub struct Response {
    /// Whether the status is a success.
    pub success: bool,
    /// The declared content type, if any.
    pub content_type: Option<String>,
    pub body: Vec<u8>,
}

/// The answer of a server, as plain values.
pub struct ResponseView {
    pub success: bool,
    pub content_type: Option<Seq<char>>,
    pub body: Seq<u8>,
}

impl View for Response {
    type V = ResponseView;

    open spec fn view(&self) -> ResponseView {
        ResponseView {
            success: self.success,
            content_type: opt_text(self.content_type),
            body: self.body@,
        }
    }
}

/// What happened when the caller performed an action.
#[derive(Debug, Clone)]
pub enum Event {
    /// Answers `ReadArtifact`: the text of the file, if the file is there.
    Artifact { content: Option<String> },
    /// Answers `Convert`: the text that the converter made of the HTML, if
    /// it made one.
    Converted { markdown: Option<String> },
    /// Answers `CheckAsset`: whether the file is there.
    AssetFound { exists: bool },
    /// Answers `FetchAsset`: the answer of the server, if one came in time.
    Fetched { response: Option<Response> },
    /// Answers `StoreAsset`: whether the bytes were written.
    AssetStored { ok: bool },
    /// Answers `WriteArtifact`: whether the text was written.
    ArtifactWritten { ok: bool },
    /// Answers `CheckIndex`: the size of the file, if the file is there.
    IndexSize { size: Option<u64> },
    /// Answers `AppendIndex`: whether the text was appended and flushed.
    IndexAppended { ok: bool },
}

/// An event, as plain values.
pub enum EventView {
    Artifact { content: Option<Seq<char>> },
    Converted { markdown: Option<Seq<char>> },
    AssetFound { exists: bool },
    Fetched { response: Option<ResponseView> },
    AssetStored { ok: bool },
    ArtifactWritten { ok: bool },
    IndexSize { size: Option<u64> },
    IndexAppended { ok: bool },
}

impl View for Event {
    type V = EventView;

    open spec fn view(&self) -> EventView {
        match self {
            Event::Artifact { content } => EventView::Artifact { content: opt_text(*content) },
            Event::Converted { markdown } => EventView::Converted {
                markdown: opt_text(*markdown),
            },
            Event::AssetFound { exists } => EventView::AssetFound { exists: *exists },
            Event::Fetched { response } => EventView::Fetched {
                response: match response {
                    Some(r) => Some(r@),
                    None => None,
                },
            },
            Event::AssetStored { ok } => EventView::AssetStored { ok: *ok },
            Event::ArtifactWritten { ok } => EventView::ArtifactWritten { ok: *ok },
            Event::IndexSize { size } => EventView::IndexSize { size: *size },
            Event::IndexAppended { ok } => EventView::IndexAppended { ok: *ok },
        }
    }
}

/// What the caller is to do next.
#[derive(Debug, Clone)]
pub enum Action {
    /// Read the text of the file at `path`, if the file is there.
    ReadArtifact { path: String },
    /// Convert `html` to text; where the converter fails, say so.
    Convert { html: String },
    /// Tell whether there is a file at `path`.
    CheckAsset { path: String },
    /// Fetch `url`, with a timeout.
    FetchAsset { url: String },
    /// Write `bytes` to the file at `path`.
    StoreAsset { path: String, bytes: Vec<u8> },
    /// Write `text` to the file at `path`, in one piece.
    WriteArtifact { path: String, text: String },
    /// Tell the size of the file at `path`, if the file is there.
    CheckIndex { path: String },
    /// Append `text` to the file at `path`, creating it where it is
    /// missing, and flush.
    AppendIndex { path: String, text: String },
    /// Nothing more: the article's text is `text`.
    Done { text: String },
    /// Nothing more: the ingestion failed.
    Failed { error: StoreError },
}

/// An action, as plain values.
pub enum ActionView {
    ReadArtifact { path: Seq<char> },
    Convert { html: Seq<char> },
    CheckAsset { path: Seq<char> },
    FetchAsset { url: Seq<char> },
    StoreAsset { path: Seq<char>, bytes: Seq<u8> },
    WriteArtifact { path: Seq<char>, text: Seq<char> },
    CheckIndex { path: Seq<char> },
    AppendIndex { path: Seq<char>, text: Seq<char> },
    Done { text: Seq<char> },
    Failed { error: StoreError },
}

impl View for Action {
    type V = ActionView;

    open spec fn view(&self) -> ActionView {
        match self {
            Action::ReadArtifact { path } => ActionView::ReadArtifact { path: path@ },
            Action::Convert { html } => ActionView::Convert { html: html@ },
            Action::CheckAsset { path } => ActionView::CheckAsset { path: path@ },
            Action::FetchAsset { url } => ActionView::FetchAsset { url: url@ },
            Action::StoreAsset { path, bytes } => ActionView::StoreAsset {
                path: path@,
                bytes: bytes@,
            },
            Action::WriteArtifact { path, text } => ActionView::WriteArtifact {
                path: path@,
                text: text@,
            },
            Action::CheckIndex { path } => ActionView::CheckIndex { path: path@ },
            Action::AppendIndex { path, text } => ActionView::AppendIndex {
                path: path@,
                text: text@,
            },
            Action::Done { text } => ActionView::Done { text: text@ },
            Action::Failed { error } => ActionView::Failed { error: *error },
        }
    }
}

/// The state of an ingestion.
#[derive(Debug, Clone)]
pub struct Ingest {
    pub phase: Phase,
    /// The directory of the store.
    pub store_dir: String,
    /// The name of the feed, for the index log.
    pub feed_name: String,
    /// The title of the article, for the index log.
    pub title: String,
    /// The time of the article, for the index log.
    pub time: String,
    /// The name of the file that holds the article.
    pub name: String,
    /// The HTML payload of the entry, if it has one.
    pub body: Option<String>,
    /// The converted text, before its references are rewritten.
    pub markdown: String,
    /// The URLs of the images that the text refers to.
    pub urls: Vec<String>,
    /// How many of the URLs have been dealt with.
    pub cursor: usize,
    /// The local references found so far.
    pub mapping: Vec<Replacement>,
    /// The file name of the image that is being checked or stored.
    pub pending: String,
    /// The bytes of the image that was fetched and is not stored yet.
    pub fetched: Vec<u8>,
    /// The article's text, once it is known.
    pub text: String,
    /// The row for the index log, once it is made.
    pub row: String,
}

/// The state of an ingestion, as plain values.
pub struct IngestView {
    pub phase: Phase,
    pub store_dir: Seq<char>,
    pub feed_name: Seq<char>,
    pub title: Seq<char>,
    pub time: Seq<char>,
    pub name: Seq<char>,
    pub body: Option<Seq<char>>,
    pub markdown: Seq<char>,
    pub urls: Seq<Seq<char>>,
    pub cursor: nat,
    pub mapping: Seq<(Seq<char>, Seq<char>)>,
    pub pending: Seq<char>,
    pub fetched: Seq<u8>,
    pub text: Seq<char>,
    pub row: Seq<char>,
}

impl View for Ingest {
    type V = IngestView;

    open spec fn view(&self) -> IngestView {
        IngestView {
            phase: self.phase,
            store_dir: self.store_dir@,
            feed_name: self.feed_name@,
            title: self.title@,
            time: self.time@,
            name: self.name@,
            body: opt_text(self.body),
            markdown: self.markdown@,
            urls: texts_view(self.urls@),
            cursor: self.cursor as nat,
            mapping: replacements_view(self.mapping@),
            pending: self.pending@,
            fetched: self.fetched@,
            text: self.text@,
            row: self.row@,
        }
    }
}

/// The path of the file that holds the article of an ingestion.
pub open spec fn artifact_path(s: IngestView) -> Seq<char> {
    joined_path(s.store_dir, s.name)
}

/// The path of an image of the store that an ingestion works on.
pub open spec fn asset_path(s: IngestView, name: Seq<char>) -> Seq<char> {
    joined_path(image_dir_of(s.store_dir), name)
}

/// The URL at the cursor.
pub open spec fn current_url(s: IngestView) -> Seq<char> {
    s.urls[s.cursor as int]
}

/// The end of an ingestion that failed.
pub open spec fn failed(s: IngestView, error: StoreError) -> (IngestView, ActionView) {
    (IngestView { phase: Phase::Finished, ..s }, ActionView::Failed { error })
}

/// What follows once the images before the cursor have been dealt with.
///
/// A URL that cannot be fetched, or that has a local reference already, is
/// passed over. For the first one that is left, the store is asked whether
/// the image is kept under its provisional name. Where none is left, the
/// text is rewritten with the local references found, and is to be written.
pub open spec fn advanced(s: IngestView) -> (IngestView, ActionView)
    decreases s.urls.len() - s.cursor,
{
    if s.cursor >= s.urls.len() {
        let text = rewritten(s.markdown, s.mapping);
        (
            IngestView { phase: Phase::AwaitWrite, text: text, ..s },
            ActionView::WriteArtifact { path: artifact_path(s), text: text },
        )
    } else if fetchable(current_url(s)) && located(s.mapping, current_url(s)) is None {
        let name = asset_name(current_url(s), generic_extension());
        (
            IngestView { phase: Phase::AwaitAssetCheck, pending: name, ..s },
            ActionView::CheckAsset { path: asset_path(s, name) },
        )
    } else {
        advanced(IngestView { cursor: s.cursor + 1, ..s })
    }
}

/// The state with the image at the cursor dealt with: kept under `name`
/// where `kept` says so, else left without a local reference.
pub open spec fn settled(s: IngestView, kept: bool) -> IngestView {
    IngestView {
        cursor: s.cursor + 1,
        fetched: Seq::empty(),
        mapping: if kept {
            s.mapping.push((current_url(s), local_reference(s.pending)))
        } else {
            s.mapping
        },
        ..s
    }
}

/// The state in which an ingestion starts.
pub open spec fn initial(
    store_dir: Seq<char>,
    feed_name: Seq<char>,
    feed_url: Seq<char>,
    item: ItemView,
    now: Seq<char>,
) -> IngestView {
    IngestView {
        phase: Phase::AwaitArtifact,
        store_dir: store_dir,
        feed_name: feed_name,
        title: title_of(item),
        time: index_time(item, now),
        name: item_name(feed_name, feed_url, item),
        body: body_of(item),
        markdown: Seq::empty(),
        urls: Seq::empty(),
        cursor: 0,
        mapping: Seq::empty(),
        pending: Seq::empty(),
        fetched: Seq::empty(),
        text: Seq::empty(),
        row: Seq::empty(),
    }
}

/// The action that an ingestion starts with: reading the article's file.
pub open spec fn first_action(s: IngestView) -> ActionView {
    ActionView::ReadArtifact { path: artifact_path(s) }
}

/// The row of the index log for the article of an ingestion.
pub open spec fn index_row(s: IngestView) -> Seq<char> {
    row_text(s.time, s.title, s.feed_name, artifact_path(s))
}

/// The state once the text of the article is converted: the images that
/// the text refers to are still to be localized.
pub open spec fn converted(s: IngestView, markdown: Seq<char>) -> IngestView {
    IngestView {
        markdown: markdown,
        urls: image_urls(markdown),
        cursor: 0,
        mapping: Seq::empty(),
        ..s
    }
}

/// The next state and action of an ingestion, for each state and event.
pub open spec fn stepped(s: IngestView, e: EventView) -> (IngestView, ActionView) {
    match s.phase {
        Phase::AwaitArtifact => match e {
            EventView::Artifact { content: Some(text) } => (
                IngestView { phase: Phase::Finished, text: text, ..s },
                ActionView::Done { text: text },
            ),
            EventView::Artifact { content: None } => match s.body {
                Some(html) => (
                    IngestView { phase: Phase::AwaitConversion, ..s },
                    ActionView::Convert { html: html },
                ),
                None => advanced(converted(s, Seq::empty())),
            },
            _ => failed(s, StoreError::UnexpectedEvent),
        },
        Phase::AwaitConversion => match e {
            EventView::Converted { markdown } => match s.body {
                Some(html) => advanced(converted(s, text_form(html, markdown))),
                None => failed(s, StoreError::UnexpectedEvent),
            },
            _ => failed(s, StoreError::UnexpectedEvent),
        },
        Phase::AwaitAssetCheck => match e {
            EventView::AssetFound { exists } => if s.cursor >= s.urls.len() {
                failed(s, StoreError::UnexpectedEvent)
            } else if exists {
                advanced(settled(s, true))
            } else {
                (
                    IngestView { phase: Phase::AwaitFetch, ..s },
                    ActionView::FetchAsset { url: current_url(s) },
                )
            },
            _ => failed(s, StoreError::UnexpectedEvent),
        },
        Phase::AwaitFetch => match e {
            EventView::Fetched { response } => if s.cursor >= s.urls.len() {
                failed(s, StoreError::UnexpectedEvent)
            } else {
                match response {
                    Some(r) => if r.success {
                        let name = asset_name(
                            current_url(s),
                            image_extension_of(current_url(s), r.content_type),
                        );
                        (
                            IngestView {
                                phase: Phase::AwaitResolvedCheck,
                                pending: name,
                                fetched: r.body,
                                ..s
                            },
                            ActionView::CheckAsset { path: asset_path(s, name) },
                        )
                    } else {
                        advanced(settled(s, false))
                    },
                    None => advanced(settled(s, false)),
                }
            },
            _ => failed(s, StoreError::UnexpectedEvent),
        },
        Phase::AwaitResolvedCheck => match e {
            EventView::AssetFound { exists } => if s.cursor >= s.urls.len() {
                failed(s, StoreError::UnexpectedEvent)
            } else if exists {
                advanced(settled(s, true))
            } else {
                (
                    IngestView { phase: Phase::AwaitAssetStore, ..s },
                    ActionView::StoreAsset { path: asset_path(s, s.pending), bytes: s.fetched },
                )
            },
            _ => failed(s, StoreError::UnexpectedEvent),
        },
        Phase::AwaitAssetStore => match e {
            EventView::AssetStored { ok } => if s.cursor >= s.urls.len() {
                failed(s, StoreError::UnexpectedEvent)
            } else {
                advanced(settled(s, ok))
            },
            _ => failed(s, StoreError::UnexpectedEvent),
        },
        Phase::AwaitWrite => match e {
            EventView::ArtifactWritten { ok } => if !ok {
                failed(s, StoreError::WriteArtifact)
            } else {
                (
                    IngestView { phase: Phase::AwaitIndexSize, row: index_row(s), ..s },
                    ActionView::CheckIndex { path: index_path_of(s.store_dir) },
                )
            },
            _ => failed(s, StoreError::UnexpectedEvent),
        },
        Phase::AwaitIndexSize => match e {
            EventView::IndexSize { size } => (
                IngestView { phase: Phase::AwaitAppend, ..s },
                ActionView::AppendIndex {
                    path: index_path_of(s.store_dir),
                    text: entry_text(size, s.row),
                },
            ),
            _ => failed(s, StoreError::UnexpectedEvent),
        },
        Phase::AwaitAppend => match e {
            EventView::IndexAppended { ok } => if ok {
                (IngestView { phase: Phase::Finished, ..s }, ActionView::Done { text: s.text })
            } else {
                failed(s, StoreError::AppendIndex)
            },
            _ => failed(s, StoreError::UnexpectedEvent),
        },
        Phase::Finished => failed(s, StoreError::UnexpectedEvent),
    }
}

impl Ingest {
    /// The path of the file that holds the article.
    pub fn artifact_path(&self) -> (r: String)
        ensures
            r@ == artifact_path(self@),
    {
        join_path(self.store_dir.as_str(), self.name.as_str())
    }

    /// The path of an image of the store.
    pub fn asset_path(&self, name: &str) -> (r: String)
        ensures
            r@ == asset_path(self@, name@),
    {
        let dir = join_path(self.store_dir.as_str(), "images");
        join_path(dir.as_str(), name)
    }

    /// Ends the ingestion with an error.
    fn fail(self, error: StoreError) -> (r: (Ingest, Action))
        ensures
            (r.0@, r.1@) == failed(self@, error),
    {
        let mut next = self;
        next.phase = Phase::Finished;
        (next, Action::Failed { error })
    }

    /// Goes on to the next image that is to be localized, or to writing the
    /// article where none is left.
    fn advance(self) -> (r: (Ingest, Action))
        ensures
            (r.0@, r.1@) == advanced(self@),
    {
        let ghost start = self@;
        let mut next = self;
        while next.cursor < next.urls.len()
            invariant
                start == self@,
                advanced(start) == advanced(next@),
            decreases next.urls.len() - next.cursor,
        {
            let url = next.urls[next.cursor].clone();
            assert(url@ == current_url(next@));
            let known = lookup(&next.mapping, url.as_str()).is_some();
            if is_fetchable(url.as_str()) && !known {
                let name = provisional_image_filename(url.as_str());
                let path = next.asset_path(name.as_str());
                next.pending = name;
                next.phase = Phase::AwaitAssetCheck;
                return (next, Action::CheckAsset { path });
            }
            next.cursor = next.cursor + 1;
        }
        let text = rewrite(next.markdown.as_str(), &next.mapping);
        let path = next.artifact_path();
        next.text = text.clone();
        next.phase = Phase::AwaitWrite;
        (next, Action::WriteArtifact { path, text })
    }

    /// Deals with the image at the cursor: it is kept under the pending
    /// name where `kept` says so, else it stays without a local reference.
    fn settle(self, kept: bool) -> (r: Ingest)
        requires
            self.cursor < self.urls.len(),
        ensures
            r@ == settled(self@, kept),
    {
        let mut next = self;
        if kept {
            let ghost before = replacements_view(next.mapping@);
            let url = next.urls[next.cursor].clone();
            let local = local_ref(next.pending.as_str());
            next.mapping.push(Replacement { url, local });
            assert(replacements_view(next.mapping@) =~= before.push(
                (current_url(self@), local_reference(self@.pending)),
            ));
        }
        next.cursor = next.cursor + 1;
        next.fetched = Vec::new();
        next
    }

    /// Takes in the converted text and goes on to its images.
    fn convert(self, markdown: String) -> (r: (Ingest, Action))
        ensures
            (r.0@, r.1@) == advanced(converted(self@, markdown@)),
    {
        let mut next = self;
        let urls = extract_image_urls(markdown.as_str());
        next.markdown = markdown;
        next.urls = urls;
        next.cursor = 0;
        next.mapping = Vec::new();
        assert(replacements_view(next.mapping@) =~= Seq::empty());
        next.advance()
    }

    /// The next state and action, given what happened when the caller
    /// performed the action that was named last.
    ///
    /// An event that does not answer that action ends the ingestion with
    /// `UnexpectedEvent`.
    pub fn step(self, event: Event) -> (r: (Ingest, Action))
        ensures
            (r.0@, r.1@) == stepped(self@, event@),
    {
        match self.phase {
            Phase::AwaitArtifact => match event {
                Event::Artifact { content: Some(text) } => {
                    let mut next = self;
                    next.phase = Phase::Finished;
                    next.text = text.clone();
                    (next, Action::Done { text })
                },
                Event::Artifact { content: None } => {
                    let html = match &self.body {
                        Some(html) => Some(html.clone()),
                        None => None,
                    };
                    match html {
                        Some(html) => {
                            let mut next = self;
                            next.phase = Phase::AwaitConversion;
                            (next, Action::Convert { html })
                        },
                        None => self.convert(String::new()),
                    }
                },
                _ => self.fail(StoreError::UnexpectedEvent),
            },
            Phase::AwaitConversion => match event {
                Event::Converted { markdown } => {
                    let text = match &self.body {
                        Some(html) => Some(html_to_markdown(html.as_str(), markdown)),
                        None => None,
                    };
                    match text {
                        Some(text) => self.convert(text),
                        None => self.fail(StoreError::UnexpectedEvent),
                    }
                },
                _ => self.fail(StoreError::UnexpectedEvent),
            },
            Phase::AwaitAssetCheck => match event {
                Event::AssetFound { exists } => {
                    if self.cursor >= self.urls.len() {
                        self.fail(StoreError::UnexpectedEvent)
                    } else if exists {
                        self.settle(true).advance()
                    } else {
                        let mut next = self;
                        let url = next.urls[next.cursor].clone();
                        next.phase = Phase::AwaitFetch;
                        (next, Action::FetchAsset { url })
                    }
                },
                _ => self.fail(StoreError::UnexpectedEvent),
            },
            Phase::AwaitFetch => match event {
                Event::Fetched { response } => {
                    if self.cursor >= self.urls.len() {
                        self.fail(StoreError::UnexpectedEvent)
                    } else {
                        match response {
                            Some(r) => {
                                if r.success {
                                    let mut next = self;
                                    let name = match &r.content_type {
                                        Some(ct) => image_filename(
                                            next.urls[next.cursor].as_str(),
                                            Some(ct.as_str()),
                                        ),
                                        None => image_filename(
                                            next.urls[next.cursor].as_str(),
                                            None,
                                        ),
                                    };
                                    let path = next.asset_path(name.as_str());
                                    next.pending = name;
                                    next.fetched = r.body;
                                    next.phase = Phase::AwaitResolvedCheck;
                                    (next, Action::CheckAsset { path })
                                } else {
                                    self.settle(false).advance()
                                }
                            },
                            None => self.settle(false).advance(),
                        }
                    }
                },
                _ => self.fail(StoreError::UnexpectedEvent),
            },
            Phase::AwaitResolvedCheck => match event {
                Event::AssetFound { exists } => {
                    if self.cursor >= self.urls.len() {
                        self.fail(StoreError::UnexpectedEvent)
                    } else if exists {
                        self.settle(true).advance()
                    } else {
                        let mut next = self;
                        let path = next.asset_path(next.pending.as_str());
                        let bytes = next.fetched.clone();
                        assert(bytes@ =~= next.fetched@);
                        next.phase = Phase::AwaitAssetStore;
                        (next, Action::StoreAsset { path, bytes })
                    }
                },
                _ => self.fail(StoreError::UnexpectedEvent),
            },
            Phase::AwaitAssetStore => match event {
                Event::AssetStored { ok } => {
                    if self.cursor >= self.urls.len() {
                        self.fail(StoreError::UnexpectedEvent)
                    } else {
                        self.settle(ok).advance()
                    }
                },
                _ => self.fail(StoreError::UnexpectedEvent),
            },
            Phase::AwaitWrite => match event {
                Event::ArtifactWritten { ok } => {
                    if !ok {
                        self.fail(StoreError::WriteArtifact)
                    } else {
                        let path = self.artifact_path();
                        let row = row_line(
                            self.time.as_str(),
                            self.title.as_str(),
                            self.feed_name.as_str(),
                            path.as_str(),
                        );
                        let index = join_path(self.store_dir.as_str(), "index.csv");
                        let mut next = self;
                        next.row = row;
                        next.phase = Phase::AwaitIndexSize;
                        (next, Action::CheckIndex { path: index })
                    }
                },
                _ => self.fail(StoreError::UnexpectedEvent),
            },
            Phase::AwaitIndexSize => match event {
                Event::IndexSize { size } => {
                    let text = log_entry(size, self.row.as_str());
                    let index = join_path(self.store_dir.as_str(), "index.csv");
                    let mut next = self;
                    next.phase = Phase::AwaitAppend;
                    (next, Action::AppendIndex { path: index, text })
                },
                _ => self.fail(StoreError::UnexpectedEvent),
            },
            Phase::AwaitAppend => match event {
                Event::IndexAppended { ok } => {
                    if ok {
                        let mut next = self;
                        let text = next.text.clone();
                        next.phase = Phase::Finished;
                        (next, Action::Done { text })
                    } else {
                        self.fail(StoreError::AppendIndex)
                    }
                },
                _ => self.fail(StoreError::UnexpectedEvent),
            },
            Phase::Finished => self.fail(StoreError::UnexpectedEvent),
        }
    }
}

impl Database {
    /// Starts the ingestion of an entry of a feed, at a given time.
    ///
    /// The state that comes back holds what identifies the article and what
    /// the index log will record of it; the action is to read the file that
    /// holds the article, if it is there.
    pub fn store_item_at(&self, feed_name: &str, feed_url: &str, item: &Item, now: &str) -> (r: (
        Ingest,
        Action,
    ))
        ensures
            r.0@ == initial(self.root(), feed_name@, feed_url@, item@, now@),
            r.1@ == first_action(r.0@),
    {
        let title = match &item.title {
            Some(t) => t.clone(),
            None => "No Title".to_owned(),
        };
        let date = match &item.pub_date {
            Some(d) => parse_pub_date(Some(d.as_str())),
            None => parse_pub_date(None),
        };
        let time = match date {
            Some(t) => t,
            None => now.to_owned(),
        };
        let body = match item_body(item) {
            Some(html) => Some(html.to_owned()),
            None => None,
        };
        let state = Ingest {
            phase: Phase::AwaitArtifact,
            store_dir: self.store_dir().to_owned(),
            feed_name: feed_name.to_owned(),
            title,
            time,
            name: self.item_file(feed_name, feed_url, item),
            body,
            markdown: String::new(),
            urls: Vec::new(),
            cursor: 0,
            mapping: Vec::new(),
            pending: String::new(),
            fetched: Vec::new(),
            text: String::new(),
            row: String::new(),
        };
        assert(texts_view(state.urls@) =~= Seq::empty());
        assert(replacements_view(state.mapping@) =~= Seq::empty());
        let path = state.artifact_path();
        (state, Action::ReadArtifact { path })
    }

    /// Starts the ingestion of an entry of a feed, now.
    ///
    /// The time of the call is what the index log records for an entry
    /// without a publication date that can be read; nothing else depends on
    /// it.
    pub fn store_item(&self, feed_name: &str, feed_url: &str, item: &Item) -> (r: (
        Ingest,
        Action,
    ))
        ensures
            exists|now: Seq<char>|
                written_in_utc(now) && r.0@ == #[trigger] initial(
                    self.root(),
                    feed_name@,
                    feed_url@,
                    item@,
                    now,
                ),
            r.1@ == first_action(r.0@),
    {
        let now = current_time();
        self.store_item_at(feed_name, feed_url, item, now.as_str())
    }
}

impl Database {
    /// Starts the ingestion of the entry at `index` of a feed; nothing where
    /// the feed has no such entry. A feed is ingested entry by entry from
    /// the first, and no further once an ingestion has failed.
    pub fn store_channel(
        &self,
        feed_name: &str,
        feed_url: &str,
        channel: &Channel,
        index: usize,
    ) -> (r: Option<(Ingest, Action)>)
        ensures
            r is Some <==> index < channel.items@.len(),
            r matches Some(start) ==> start.1@ == first_action(start.0@) && exists|now: Seq<char>|
                written_in_utc(now) && start.0@ == #[trigger] initial(
                    self.root(),
                    feed_name@,
                    feed_url@,
                    channel.items@[index as int]@,
                    now,
                ),
    {
        if index < channel.items.len() {
            Some(self.store_item(feed_name, feed_url, &channel.items[index]))
        } else {
            None
        }
    }
}

} // verus!
