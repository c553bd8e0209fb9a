//! A model of the store and of what lies outside it, and what holds of
//! ingestions that run against them.
//!
//! The model is a store that never fails: every file that is written is
//! there afterwards. A server answers the same to every fetch of a URL, and
//! the converter makes the same of the same HTML, where it makes anything.

use crate::db::{body_of, fetchable, item_markdown, item_name, local_reference};
use crate::feed::ItemView;
use crate::index::entry_text;
use crate::ingest::{
    advanced, artifact_path, asset_path, converted, current_url, first_action, index_row,
    initial, settled, stepped, ActionView, EventView, IngestView, Phase, ResponseView,
};
use crate::naming::{asset_name, generic_extension, image_extension_of};
use crate::paths::{joined_path, lemma_joined_path_injective};
use crate::refs::{
    attribute, bracket_form, image_urls, located, rendered_tag, rewritten, tags_replaced,
    ALT_ATTR, SRC_ATTR,
};
use vstd::prelude::*;

verus! {

/// What a store holds.
pub struct Store {
    /// The text of each article, by the path of its file.
    pub artifacts: Map<Seq<char>, Seq<char>>,
    /// The bytes of each image, by the path of its file.
    pub assets: Map<Seq<char>, Seq<u8>>,
    /// The text of the index log; empty where the file is missing or empty.
    pub log: Seq<char>,
}

/// What lies outside the store.
pub struct Outside {
    /// The answer to a fetch of each URL that is answered in time.
    pub servers: Map<Seq<char>, ResponseView>,
    /// The text that the converter makes of each HTML that it can take.
    pub converter: Map<Seq<char>, Seq<char>>,
}

/// The text that is read back for an article: that of the file at its path,
/// if the file is there.
pub open spec fn read_back(store: Store, path: Seq<char>) -> Option<Seq<char>> {
    if store.artifacts.contains_key(path) {
        Some(store.artifacts[path])
    } else {
        None
    }
}

/// The size that is told of a log: none where the log is empty.
pub open spec fn log_size(log: Seq<char>) -> Option<u64> {
    if log.len() == 0 {
        None
    } else if log.len() >= u64::MAX {
        Some(u64::MAX)
    } else {
        Some(log.len() as u64)
    }
}

/// What the converter makes of an HTML, if anything.
pub open spec fn conversion(net: Outside, html: Seq<char>) -> Option<Seq<char>> {
    if net.converter.contains_key(html) {
        Some(net.converter[html])
    } else {
        None
    }
}

/// The store after an action was performed on it, and the event that tells
/// what happened; no event for the two actions that end an ingestion.
pub open spec fn performed(store: Store, net: Outside, action: ActionView) -> (
    Store,
    Option<EventView>,
) {
    match action {
        ActionView::ReadArtifact { path } => (
            store,
            Some(EventView::Artifact { content: read_back(store, path) }),
        ),
        ActionView::Convert { html } => (
            store,
            Some(EventView::Converted { markdown: conversion(net, html) }),
        ),
        ActionView::CheckAsset { path } => (
            store,
            Some(EventView::AssetFound { exists: store.assets.contains_key(path) }),
        ),
        ActionView::FetchAsset { url } => (
            store,
            Some(
                EventView::Fetched {
                    response: if net.servers.contains_key(url) {
                        Some(net.servers[url])
                    } else {
                        None
                    },
                },
            ),
        ),
        ActionView::StoreAsset { path, bytes } => (
            Store { assets: store.assets.insert(path, bytes), ..store },
            Some(EventView::AssetStored { ok: true }),
        ),
        ActionView::WriteArtifact { path, text } => (
            Store { artifacts: store.artifacts.insert(path, text), ..store },
            Some(EventView::ArtifactWritten { ok: true }),
        ),
        ActionView::CheckIndex { path } => (
            store,
            Some(EventView::IndexSize { size: log_size(store.log) }),
        ),
        ActionView::AppendIndex { path, text } => (
            Store { log: store.log + text, ..store },
            Some(EventView::IndexAppended { ok: true }),
        ),
        ActionView::Done { text } => (store, None),
        ActionView::Failed { error } => (store, None),
    }
}

/// The store after an ingestion ran for at most `fuel` steps from a state
/// and its action, and the action it stopped at: `Done` or `Failed` where it
/// ran to its end.
pub open spec fn run(
    store: Store,
    net: Outside,
    state: IngestView,
    action: ActionView,
    fuel: nat,
) -> (Store, ActionView)
    decreases fuel,
{
    match performed(store, net, action).1 {
        None => (store, action),
        Some(event) => if fuel == 0 {
            (store, action)
        } else {
            let next = stepped(state, event);
            run(performed(store, net, action).0, net, next.0, next.1, (fuel - 1) as nat)
        },
    }
}

/// The store after the ingestion of an entry, and how it ended.
pub open spec fn ingested(
    store: Store,
    net: Outside,
    store_dir: Seq<char>,
    feed_name: Seq<char>,
    feed_url: Seq<char>,
    item: ItemView,
    now: Seq<char>,
    fuel: nat,
) -> (Store, ActionView) {
    let start = initial(store_dir, feed_name, feed_url, item, now);
    run(store, net, start, first_action(start), fuel)
}

/// The path of the file that holds an entry of a feed in a store.
pub open spec fn item_path(
    store_dir: Seq<char>,
    feed_name: Seq<char>,
    feed_url: Seq<char>,
    item: ItemView,
) -> Seq<char> {
    joined_path(store_dir, item_name(feed_name, feed_url, item))
}

/// The stored text form of an entry's payload, as the converter makes it.
pub open spec fn item_text(item: ItemView, net: Outside) -> Seq<char> {
    item_markdown(
        item,
        match body_of(item) {
            Some(html) => conversion(net, html),
            None => None,
        },
    )
}

/// The images that the text of an entry refers to.
pub open spec fn item_images(item: ItemView, net: Outside) -> Seq<Seq<char>> {
    image_urls(item_text(item, net))
}

/// What an ingestion appends to a log: the row of its article, behind the
/// header row where the log is empty.
pub open spec fn appended(s: IngestView, log: Seq<char>) -> Seq<char> {
    entry_text(log_size(log), index_row(s))
}

/// Two states belong to the ingestion of the same article into the same
/// store.
pub open spec fn same_article(a: IngestView, b: IngestView) -> bool {
    &&& a.store_dir == b.store_dir
    &&& a.name == b.name
    &&& a.time == b.time
    &&& a.title == b.title
    &&& a.feed_name == b.feed_name
}

/// A state and its action are those of an ingestion under way that has
/// found its article missing and has not written it yet: while it
/// localizes there is an image at the cursor and the action is the one that
/// the phase waits on, and when it is to write, the text is the rewritten
/// one.
pub open spec fn in_flight(s: IngestView, a: ActionView) -> bool {
    match s.phase {
        Phase::AwaitAssetCheck => s.cursor < s.urls.len() && a == (ActionView::CheckAsset {
            path: asset_path(s, s.pending),
        }),
        Phase::AwaitFetch => s.cursor < s.urls.len() && a == (ActionView::FetchAsset {
            url: current_url(s),
        }),
        Phase::AwaitResolvedCheck => s.cursor < s.urls.len() && a == (ActionView::CheckAsset {
            path: asset_path(s, s.pending),
        }),
        Phase::AwaitAssetStore => s.cursor < s.urls.len() && a == (ActionView::StoreAsset {
            path: asset_path(s, s.pending),
            bytes: s.fetched,
        }),
        Phase::AwaitWrite => s.text == rewritten(s.markdown, s.mapping) && a == (
        ActionView::WriteArtifact { path: artifact_path(s), text: s.text }),
        _ => false,
    }
}

/// A bound on the steps that an ingestion under way still takes.
pub open spec fn steps_left(s: IngestView) -> nat {
    let images = (s.urls.len() - s.cursor) as nat;
    match s.phase {
        Phase::AwaitAssetCheck => 4 * images + 3,
        Phase::AwaitFetch => 4 * images + 2,
        Phase::AwaitResolvedCheck => 4 * images + 1,
        Phase::AwaitAssetStore => 4 * images,
        _ => 3,
    }
}

/// Going on to the next image leads to a state under way, keeps the
/// article, the text and the local references found, never moves the cursor
/// back, and leaves no more steps than four for each image that is left,
/// and three.
pub proof fn lemma_advanced(s: IngestView)
    ensures
        in_flight(advanced(s).0, advanced(s).1),
        same_article(advanced(s).0, s),
        advanced(s).0.markdown == s.markdown,
        advanced(s).0.urls == s.urls,
        advanced(s).0.mapping == s.mapping,
        advanced(s).0.cursor >= s.cursor,
        advanced(s).0.phase == Phase::AwaitAssetCheck || advanced(s).0.phase
            == Phase::AwaitWrite,
        advanced(s).0.phase == Phase::AwaitAssetCheck ==> advanced(s).0.pending == asset_name(
            current_url(advanced(s).0),
            generic_extension(),
        ) && located(s.mapping, current_url(advanced(s).0)) is None,
        s.cursor <= s.urls.len() ==> steps_left(advanced(s).0) <= 4 * (s.urls.len() - s.cursor)
            + 3,
    decreases s.urls.len() - s.cursor,
{
    if s.cursor < s.urls.len() && !(fetchable(current_url(s)) && located(
        s.mapping,
        current_url(s),
    ) is None) {
        lemma_advanced(IngestView { cursor: s.cursor + 1, ..s });
    }
}

/// One step of an ingestion under way leads to a state under way again, or
/// to nothing that changes the articles or the log; it keeps the article.
pub proof fn lemma_step_in_flight(store: Store, net: Outside, s: IngestView, a: ActionView)
    requires
        in_flight(s, a),
        s.phase != Phase::AwaitWrite,
    ensures
        ({
            let event = performed(store, net, a).1->0;
            let next = stepped(s, event);
            &&& performed(store, net, a).1 is Some
            &&& performed(store, net, a).0.artifacts == store.artifacts
            &&& performed(store, net, a).0.log == store.log
            &&& in_flight(next.0, next.1)
            &&& same_article(next.0, s)
            &&& next.0.markdown == s.markdown
            &&& steps_left(next.0) < steps_left(s)
        }),
{
    lemma_advanced(settled(s, true));
    lemma_advanced(settled(s, false));
}

/// An ingestion under way that runs to `Done` leaves the store with its
/// article written and its row appended, behind the header row where the
/// log was empty, and with nothing else changed among the articles and in
/// the log.
pub proof fn lemma_run_writes_once(
    store: Store,
    net: Outside,
    s: IngestView,
    a: ActionView,
    fuel: nat,
)
    requires
        in_flight(s, a),
        run(store, net, s, a, fuel).1 is Done,
    ensures
        ({
            let end = run(store, net, s, a, fuel);
            &&& end.0.artifacts == store.artifacts.insert(artifact_path(s), end.1->Done_text)
            &&& end.0.log == store.log + appended(s, store.log)
        }),
    decreases fuel,
{
    let event = performed(store, net, a).1->0;
    let store1 = performed(store, net, a).0;
    let next = stepped(s, event);
    if fuel == 0 {
        assert(run(store, net, s, a, fuel) == (store, a));
    } else {
        let rest = (fuel - 1) as nat;
        assert(run(store, net, s, a, fuel) == run(store1, net, next.0, next.1, rest));
        if s.phase == Phase::AwaitWrite {
            lemma_tail(store1, net, next.0, next.1, rest);
        } else {
            lemma_step_in_flight(store, net, s, a);
            lemma_run_writes_once(store1, net, next.0, next.1, rest);
        }
    }
}

/// The end of an ingestion, from the answer to `WriteArtifact` on: where it
/// runs to `Done`, the row was appended, behind the header row where the
/// log was empty. With fuel for two steps it does run to `Done`.
pub proof fn lemma_tail(store: Store, net: Outside, s: IngestView, a: ActionView, fuel: nat)
    requires
        s.phase == Phase::AwaitIndexSize && a is CheckIndex || (s.phase == Phase::Finished
            && a is Failed),
    ensures
        ({
            let end = run(store, net, s, a, fuel);
            &&& end.0.artifacts == store.artifacts
            &&& end.0.assets == store.assets
            &&& end.1 is Done ==> {
                &&& end.0.log == store.log + entry_text(log_size(store.log), s.row)
                &&& end.1->Done_text == s.text
            }
            &&& s.phase == Phase::AwaitIndexSize && fuel >= 2 ==> end.1 is Done
        }),
{
    if s.phase == Phase::AwaitIndexSize {
        let event = performed(store, net, a).1->0;
        let next = stepped(s, event);
        if fuel == 0 {
            assert(run(store, net, s, a, fuel) == (store, a));
        } else {
            let rest = (fuel - 1) as nat;
            assert(run(store, net, s, a, fuel) == run(store, net, next.0, next.1, rest));
            let store2 = performed(store, net, next.1).0;
            let event2 = performed(store, net, next.1).1->0;
            let last = stepped(next.0, event2);
            assert(last.1 == ActionView::Done { text: s.text });
            if rest == 0 {
                assert(run(store, net, next.0, next.1, rest) == (store, next.1));
            } else {
                assert(run(store, net, next.0, next.1, rest) == run(
                    store2,
                    net,
                    last.0,
                    last.1,
                    (rest - 1) as nat,
                ));
                assert(run(store2, net, last.0, last.1, (rest - 1) as nat) == (store2, last.1));
            }
        }
    } else {
        assert(run(store, net, s, a, fuel) == (store, a));
    }
}

/// The first steps of an ingestion whose article is missing: nothing is
/// changed in the store, and the ingestion goes on from the converted text
/// with the fuel that is left.
pub proof fn lemma_begin(
    store: Store,
    net: Outside,
    store_dir: Seq<char>,
    feed_name: Seq<char>,
    feed_url: Seq<char>,
    item: ItemView,
    now: Seq<char>,
    fuel: nat,
)
    requires
        !store.artifacts.contains_key(item_path(store_dir, feed_name, feed_url, item)),
        fuel >= 2,
    ensures
        ({
            let start = initial(store_dir, feed_name, feed_url, item, now);
            let next = advanced(converted(start, item_text(item, net)));
            let hops: nat = if body_of(item) is Some {
                2
            } else {
                1
            };
            &&& ingested(store, net, store_dir, feed_name, feed_url, item, now, fuel) == run(
                store,
                net,
                next.0,
                next.1,
                (fuel - hops) as nat,
            )
            &&& in_flight(next.0, next.1)
            &&& same_article(next.0, start)
            &&& next.0.markdown == item_text(item, net)
            &&& next.0.mapping == Seq::<(Seq<char>, Seq<char>)>::empty()
            &&& steps_left(next.0) <= 4 * item_images(item, net).len() + 3
        }),
{
    let start = initial(store_dir, feed_name, feed_url, item, now);
    let event = EventView::Artifact { content: None };
    let first = stepped(start, event);
    assert(performed(store, net, first_action(start)) == (store, Some(event)));
    assert(run(store, net, start, first_action(start), fuel) == run(
        store,
        net,
        first.0,
        first.1,
        (fuel - 1) as nat,
    ));
    lemma_advanced(converted(start, item_text(item, net)));
    match body_of(item) {
        Some(html) => {
            let answer = EventView::Converted { markdown: conversion(net, html) };
            let second = stepped(first.0, answer);
            assert(performed(store, net, first.1) == (store, Some(answer)));
            assert(run(store, net, first.0, first.1, (fuel - 1) as nat) == run(
                store,
                net,
                second.0,
                second.1,
                (fuel - 2) as nat,
            ));
            assert(converted(first.0, item_text(item, net)) == IngestView {
                phase: Phase::AwaitConversion,
                ..converted(start, item_text(item, net))
            });
            lemma_advanced(converted(first.0, item_text(item, net)));
            lemma_advanced_phase(
                converted(start, item_text(item, net)),
                Phase::AwaitConversion,
            );
        },
        None => {},
    }
}

/// Going on to the next image does not depend on the phase that the state
/// was in.
pub proof fn lemma_advanced_phase(s: IngestView, phase: Phase)
    ensures
        advanced(IngestView { phase: phase, ..s }) == advanced(s),
    decreases s.urls.len() - s.cursor,
{
    if s.cursor < s.urls.len() && !(fetchable(current_url(s)) && located(
        s.mapping,
        current_url(s),
    ) is None) {
        lemma_advanced_phase(IngestView { cursor: s.cursor + 1, ..s }, phase);
        assert(IngestView { cursor: s.cursor + 1, ..IngestView { phase: phase, ..s } }
            == IngestView { phase: phase, ..IngestView { cursor: s.cursor + 1, ..s } });
    }
}

/// Ingesting an entry whose article is kept already gives back the text
/// that is kept, and leaves the store as it is: nothing is converted,
/// fetched, written or appended.
pub proof fn lemma_ingest_kept(
    store: Store,
    net: Outside,
    store_dir: Seq<char>,
    feed_name: Seq<char>,
    feed_url: Seq<char>,
    item: ItemView,
    now: Seq<char>,
    fuel: nat,
)
    requires
        fuel >= 1,
        store.artifacts.contains_key(item_path(store_dir, feed_name, feed_url, item)),
    ensures
        ingested(store, net, store_dir, feed_name, feed_url, item, now, fuel) == (
            store,
            ActionView::Done {
                text: store.artifacts[item_path(store_dir, feed_name, feed_url, item)],
            },
        ),
{
    let start = initial(store_dir, feed_name, feed_url, item, now);
    let text = store.artifacts[item_path(store_dir, feed_name, feed_url, item)];
    let event = EventView::Artifact { content: Some(text) };
    let next = stepped(start, event);
    assert(performed(store, net, first_action(start)) == (store, Some(event)));
    assert(run(store, net, start, first_action(start), fuel) == run(
        store,
        net,
        next.0,
        next.1,
        (fuel - 1) as nat,
    ));
    assert(run(store, net, next.0, next.1, (fuel - 1) as nat) == (store, next.1));
}

/// An ingestion that ends with `Done` took at least two steps, unless the
/// article was kept.
proof fn lemma_done_took_steps(
    store: Store,
    net: Outside,
    store_dir: Seq<char>,
    feed_name: Seq<char>,
    feed_url: Seq<char>,
    item: ItemView,
    now: Seq<char>,
    fuel: nat,
)
    requires
        !store.artifacts.contains_key(item_path(store_dir, feed_name, feed_url, item)),
        ingested(store, net, store_dir, feed_name, feed_url, item, now, fuel).1 is Done,
    ensures
        fuel >= 2,
{
    let start = initial(store_dir, feed_name, feed_url, item, now);
    let event = EventView::Artifact { content: None };
    let first = stepped(start, event);
    assert(performed(store, net, first_action(start)) == (store, Some(event)));
    if fuel == 0 {
        assert(run(store, net, start, first_action(start), fuel) == (store, first_action(start)));
    } else if fuel == 1 {
        assert(run(store, net, start, first_action(start), fuel) == run(
            store,
            net,
            first.0,
            first.1,
            0,
        ));
        lemma_advanced(converted(start, Seq::empty()));
        assert(run(store, net, first.0, first.1, 0) == (store, first.1));
    }
}

/// Ingesting an entry whose article is not kept yet, where the ingestion
/// runs to `Done`, writes the article under its path and appends its row,
/// behind the header row where the log was empty: one file more, one row
/// more, and no other article touched and nothing else changed in the log.
pub proof fn lemma_ingest_new(
    store: Store,
    net: Outside,
    store_dir: Seq<char>,
    feed_name: Seq<char>,
    feed_url: Seq<char>,
    item: ItemView,
    now: Seq<char>,
    fuel: nat,
)
    requires
        !store.artifacts.contains_key(item_path(store_dir, feed_name, feed_url, item)),
        ingested(store, net, store_dir, feed_name, feed_url, item, now, fuel).1 is Done,
    ensures
        ({
            let start = initial(store_dir, feed_name, feed_url, item, now);
            let end = ingested(store, net, store_dir, feed_name, feed_url, item, now, fuel);
            &&& end.0.artifacts == store.artifacts.insert(
                item_path(store_dir, feed_name, feed_url, item),
                end.1->Done_text,
            )
            &&& end.0.log == store.log + appended(start, store.log)
        }),
{
    let start = initial(store_dir, feed_name, feed_url, item, now);
    lemma_done_took_steps(store, net, store_dir, feed_name, feed_url, item, now, fuel);
    lemma_begin(store, net, store_dir, feed_name, feed_url, item, now, fuel);
    let next = advanced(converted(start, item_text(item, net)));
    let hops: nat = if body_of(item) is Some {
        2
    } else {
        1
    };
    lemma_run_writes_once(store, net, next.0, next.1, (fuel - hops) as nat);
}

/// Ingesting the same entry twice gives the same text both times, and the
/// second time changes nothing: after both there is one file for the
/// article and, where the first ingestion wrote it, one row for it. What
/// lies outside the store the second time, and when the entry is ingested
/// again, makes no difference.
pub proof fn lemma_ingest_twice(
    store: Store,
    net: Outside,
    store_dir: Seq<char>,
    feed_name: Seq<char>,
    feed_url: Seq<char>,
    item: ItemView,
    now: Seq<char>,
    fuel: nat,
    later_net: Outside,
    later: Seq<char>,
    later_fuel: nat,
)
    requires
        ingested(store, net, store_dir, feed_name, feed_url, item, now, fuel).1 is Done,
        later_fuel >= 1,
    ensures
        ({
            let path = item_path(store_dir, feed_name, feed_url, item);
            let start = initial(store_dir, feed_name, feed_url, item, now);
            let first = ingested(store, net, store_dir, feed_name, feed_url, item, now, fuel);
            let second = ingested(
                first.0,
                later_net,
                store_dir,
                feed_name,
                feed_url,
                item,
                later,
                later_fuel,
            );
            &&& second.1 == first.1
            &&& second.0 == first.0
            &&& read_back(first.0, path) == Some(first.1->Done_text)
            &&& if store.artifacts.contains_key(path) {
                first.0 == store
            } else {
                &&& first.0.artifacts == store.artifacts.insert(path, first.1->Done_text)
                &&& first.0.log == store.log + appended(start, store.log)
            }
        }),
{
    let path = item_path(store_dir, feed_name, feed_url, item);
    if store.artifacts.contains_key(path) {
        if fuel == 0 {
            let start = initial(store_dir, feed_name, feed_url, item, now);
            assert(run(store, net, start, first_action(start), fuel) == (
                store,
                first_action(start),
            ));
        }
        lemma_ingest_kept(store, net, store_dir, feed_name, feed_url, item, now, fuel);
    } else {
        lemma_ingest_new(store, net, store_dir, feed_name, feed_url, item, now, fuel);
    }
    let first = ingested(store, net, store_dir, feed_name, feed_url, item, now, fuel);
    lemma_ingest_kept(
        first.0,
        later_net,
        store_dir,
        feed_name,
        feed_url,
        item,
        later,
        later_fuel,
    );
}

/// Reading an article back after its ingestion gives the text that the
/// ingestion ended with; the article of any other path is read back as
/// before.
pub proof fn lemma_read_after_ingest(
    store: Store,
    net: Outside,
    store_dir: Seq<char>,
    feed_name: Seq<char>,
    feed_url: Seq<char>,
    item: ItemView,
    now: Seq<char>,
    fuel: nat,
    other: Seq<char>,
)
    requires
        ingested(store, net, store_dir, feed_name, feed_url, item, now, fuel).1 is Done,
    ensures
        ({
            let end = ingested(store, net, store_dir, feed_name, feed_url, item, now, fuel);
            &&& read_back(end.0, item_path(store_dir, feed_name, feed_url, item)) == Some(
                end.1->Done_text,
            )
            &&& other != item_path(store_dir, feed_name, feed_url, item) ==> read_back(
                end.0,
                other,
            ) == read_back(store, other)
        }),
{
    lemma_ingest_twice(
        store,
        net,
        store_dir,
        feed_name,
        feed_url,
        item,
        now,
        fuel,
        net,
        now,
        1,
    );
}

/// An article that is identified otherwise is not found after an
/// ingestion, unless it was kept before: another identity gives another
/// file name (see `naming::lemma_article_name_differs`), and under another
/// name nothing was written.
pub proof fn lemma_other_article_missing(
    store: Store,
    net: Outside,
    store_dir: Seq<char>,
    feed_name: Seq<char>,
    feed_url: Seq<char>,
    item: ItemView,
    now: Seq<char>,
    fuel: nat,
    other_feed_name: Seq<char>,
    other_feed_url: Seq<char>,
    other_item: ItemView,
)
    requires
        ingested(store, net, store_dir, feed_name, feed_url, item, now, fuel).1 is Done,
        item_name(other_feed_name, other_feed_url, other_item) != item_name(
            feed_name,
            feed_url,
            item,
        ),
        read_back(store, item_path(store_dir, other_feed_name, other_feed_url, other_item))
            is None,
    ensures
        read_back(
            ingested(store, net, store_dir, feed_name, feed_url, item, now, fuel).0,
            item_path(store_dir, other_feed_name, other_feed_url, other_item),
        ) is None,
{
    let other = item_path(store_dir, other_feed_name, other_feed_url, other_item);
    if other == item_path(store_dir, feed_name, feed_url, item) {
        lemma_joined_path_injective(
            store_dir,
            item_name(other_feed_name, other_feed_url, other_item),
            item_name(feed_name, feed_url, item),
        );
    }
    lemma_read_after_ingest(store, net, store_dir, feed_name, feed_url, item, now, fuel, other);
}

/// On a store that never fails, an ingestion under way runs to `Done`
/// within the steps that are left to it, whatever lies outside.
pub proof fn lemma_run_completes(
    store: Store,
    net: Outside,
    s: IngestView,
    a: ActionView,
    fuel: nat,
)
    requires
        in_flight(s, a),
        fuel >= steps_left(s),
    ensures
        run(store, net, s, a, fuel).1 is Done,
    decreases fuel,
{
    let event = performed(store, net, a).1->0;
    let store1 = performed(store, net, a).0;
    let next = stepped(s, event);
    let rest = (fuel - 1) as nat;
    assert(run(store, net, s, a, fuel) == run(store1, net, next.0, next.1, rest));
    if s.phase == Phase::AwaitWrite {
        lemma_tail(store1, net, next.0, next.1, rest);
    } else {
        lemma_step_in_flight(store, net, s, a);
        lemma_run_completes(store1, net, next.0, next.1, rest);
    }
}

/// On a store that never fails, the ingestion of an entry ends with `Done`,
/// whatever the servers answer and whatever the converter does: an image
/// that cannot be localized never fails the article. It takes no more than
/// four steps for each image, and five.
pub proof fn lemma_ingest_succeeds(
    store: Store,
    net: Outside,
    store_dir: Seq<char>,
    feed_name: Seq<char>,
    feed_url: Seq<char>,
    item: ItemView,
    now: Seq<char>,
    fuel: nat,
)
    requires
        fuel >= 4 * item_images(item, net).len() + 5,
    ensures
        ingested(store, net, store_dir, feed_name, feed_url, item, now, fuel).1 is Done,
{
    let start = initial(store_dir, feed_name, feed_url, item, now);
    if store.artifacts.contains_key(item_path(store_dir, feed_name, feed_url, item)) {
        lemma_ingest_kept(store, net, store_dir, feed_name, feed_url, item, now, fuel);
    } else {
        lemma_begin(store, net, store_dir, feed_name, feed_url, item, now, fuel);
        let next = advanced(converted(start, item_text(item, net)));
        let hops: nat = if body_of(item) is Some {
            2
        } else {
            1
        };
        lemma_run_completes(store, net, next.0, next.1, (fuel - hops) as nat);
    }
}

/// No server answers a fetch with success: each answers with another
/// status, or not at all.
pub open spec fn unserved(net: Outside) -> bool {
    forall|url: Seq<char>| #[trigger]
        net.servers.contains_key(url) ==> !net.servers[url].success
}

/// None of the images of an ingestion that are still to be localized is
/// kept under its provisional name.
pub open spec fn none_kept(store: Store, s: IngestView) -> bool {
    forall|i: int|
        s.cursor <= i < s.urls.len() ==> !store.assets.contains_key(
            asset_path(s, asset_name(#[trigger] s.urls[i], generic_extension())),
        )
}

/// An ingestion under way none of whose images is kept, and for which no
/// server answers with success, ends with the text in which no URL is
/// replaced, whatever else the store holds.
pub proof fn lemma_run_offline(
    store: Store,
    net: Outside,
    s: IngestView,
    a: ActionView,
    fuel: nat,
)
    requires
        in_flight(s, a),
        s.phase == Phase::AwaitAssetCheck || s.phase == Phase::AwaitFetch || s.phase
            == Phase::AwaitWrite,
        s.phase == Phase::AwaitAssetCheck ==> s.pending == asset_name(
            current_url(s),
            generic_extension(),
        ),
        s.mapping == Seq::<(Seq<char>, Seq<char>)>::empty(),
        none_kept(store, s),
        unserved(net),
        fuel >= steps_left(s),
    ensures
        run(store, net, s, a, fuel).1 == (ActionView::Done {
            text: tags_replaced(s.markdown, Seq::empty()),
        }),
    decreases fuel,
{
    let event = performed(store, net, a).1->0;
    let store1 = performed(store, net, a).0;
    let next = stepped(s, event);
    let rest = (fuel - 1) as nat;
    assert(run(store, net, s, a, fuel) == run(store1, net, next.0, next.1, rest));
    if s.phase == Phase::AwaitWrite {
        lemma_tail(store1, net, next.0, next.1, rest);
    } else {
        lemma_step_in_flight(store, net, s, a);
        lemma_advanced(settled(s, false));
        assert(s.urls[s.cursor as int] == current_url(s));
        assert(store1 == store);
        assert(next.0.urls == s.urls && next.0.store_dir == s.store_dir);
        assert(next.0.cursor >= s.cursor);
        assert forall|i: int| next.0.cursor <= i < next.0.urls.len() implies
            !store1.assets.contains_key(
            asset_path(next.0, asset_name(#[trigger] next.0.urls[i], generic_extension())),
        ) by {
            assert(asset_path(next.0, asset_name(s.urls[i], generic_extension())) == asset_path(
                s,
                asset_name(s.urls[i], generic_extension()),
            ));
        }
        lemma_run_offline(store1, net, next.0, next.1, rest);
    }
}

/// An article none of whose images can be localized, because none of them
/// is kept and no server answers with success, is ingested all the same,
/// whatever else the store holds, and its text still refers to each image
/// by the URL it came with: the text is the converted one with its `<img>`
/// tags in bracket form and no URL replaced.
pub proof fn lemma_ingest_offline(
    store: Store,
    net: Outside,
    store_dir: Seq<char>,
    feed_name: Seq<char>,
    feed_url: Seq<char>,
    item: ItemView,
    now: Seq<char>,
    fuel: nat,
)
    requires
        !store.artifacts.contains_key(item_path(store_dir, feed_name, feed_url, item)),
        forall|i: int|
            0 <= i < item_images(item, net).len() ==> !store.assets.contains_key(
                joined_path(
                    crate::db::image_dir_of(store_dir),
                    asset_name(#[trigger] item_images(item, net)[i], generic_extension()),
                ),
            ),
        unserved(net),
        fuel >= 4 * item_images(item, net).len() + 5,
    ensures
        ingested(store, net, store_dir, feed_name, feed_url, item, now, fuel).1 == (
            ActionView::Done { text: tags_replaced(item_text(item, net), Seq::empty()) }
        ),
{
    let start = initial(store_dir, feed_name, feed_url, item, now);
    lemma_begin(store, net, store_dir, feed_name, feed_url, item, now, fuel);
    let next = advanced(converted(start, item_text(item, net)));
    let hops: nat = if body_of(item) is Some {
        2
    } else {
        1
    };
    lemma_advanced(converted(start, item_text(item, net)));
    lemma_run_offline(store, net, next.0, next.1, (fuel - hops) as nat);
}

/// Where the converter makes nothing of a payload, the article is ingested
/// all the same, from the payload as it came.
pub proof fn lemma_unconverted_passes_through(item: ItemView, net: Outside)
    requires
        body_of(item) matches Some(html) && !net.converter.contains_key(html),
    ensures
        item_text(item, net) == body_of(item)->0,
{
}

/// The name under which the image of a URL is stored once a server has
/// answered for it.
pub open spec fn stored_name(url: Seq<char>, response: ResponseView) -> Seq<char> {
    asset_name(url, image_extension_of(url, response.content_type))
}

/// Two ingestions into one store that have both fetched the same image, with
/// the same answer, converge: both look for it at the same path; where both
/// find it missing, both write the same bytes there, so that the second
/// write changes nothing and one file is there afterwards; and both put the
/// same local reference for it.
pub proof fn lemma_asset_convergence(
    store: Store,
    net: Outside,
    a: IngestView,
    b: IngestView,
    response: ResponseView,
)
    requires
        a.phase == Phase::AwaitFetch,
        b.phase == Phase::AwaitFetch,
        a.cursor < a.urls.len(),
        b.cursor < b.urls.len(),
        current_url(a) == current_url(b),
        a.store_dir == b.store_dir,
        response.success,
    ensures
        ({
            let event = EventView::Fetched { response: Some(response) };
            let missing = EventView::AssetFound { exists: false };
            let path = asset_path(a, stored_name(current_url(a), response));
            let reference = local_reference(stored_name(current_url(a), response));
            let a_checks = stepped(a, event);
            let b_checks = stepped(b, event);
            let a_stores = stepped(a_checks.0, missing);
            let b_stores = stepped(b_checks.0, missing);
            let once = performed(store, net, a_stores.1).0;
            let twice = performed(once, net, b_stores.1).0;
            &&& a_checks.1 == (ActionView::CheckAsset { path: path })
            &&& b_checks.1 == a_checks.1
            &&& a_stores.1 == (ActionView::StoreAsset { path: path, bytes: response.body })
            &&& b_stores.1 == a_stores.1
            &&& twice == once
            &&& once.assets.dom() == store.assets.dom().insert(path)
            &&& once.assets[path] == response.body
            &&& settled(a_stores.0, true).mapping == a.mapping.push((current_url(a), reference))
            &&& settled(b_stores.0, true).mapping == b.mapping.push((current_url(a), reference))
            &&& settled(a_checks.0, true).mapping == a.mapping.push((current_url(a), reference))
        }),
{
    let event = EventView::Fetched { response: Some(response) };
    let missing = EventView::AssetFound { exists: false };
    let path = asset_path(a, stored_name(current_url(a), response));
    let a_stores = stepped(stepped(a, event).0, missing);
    let b_stores = stepped(stepped(b, event).0, missing);
    let once = performed(store, net, a_stores.1).0;
    let twice = performed(once, net, b_stores.1).0;
    assert(once.assets.dom() =~= store.assets.dom().insert(path));
    assert(twice.assets =~= once.assets);
}

/// A URL that cannot be fetched is passed over: nothing is asked of the
/// store or the network for it, and it gets no local reference.
pub proof fn lemma_unfetchable_passed_over(s: IngestView)
    requires
        s.cursor < s.urls.len(),
        !fetchable(current_url(s)),
    ensures
        advanced(s) == advanced(IngestView { cursor: s.cursor + 1, ..s }),
{
}

/// A fetch that brings no answer, or an answer whose status is no success,
/// does not end the ingestion: the image stays without a local reference,
/// and the ingestion goes on with the next one.
pub proof fn lemma_failed_fetch_absorbed(s: IngestView, response: Option<ResponseView>)
    requires
        s.phase == Phase::AwaitFetch,
        s.cursor < s.urls.len(),
        response matches Some(r) ==> !r.success,
    ensures
        stepped(s, EventView::Fetched { response }) == advanced(settled(s, false)),
        settled(s, false).mapping == s.mapping,
        !(stepped(s, EventView::Fetched { response }).1 is Failed),
{
    lemma_advanced(settled(s, false));
}

/// An image that could not be stored does not end the ingestion either.
pub proof fn lemma_failed_store_absorbed(s: IngestView)
    requires
        s.phase == Phase::AwaitAssetStore,
        s.cursor < s.urls.len(),
    ensures
        stepped(s, EventView::AssetStored { ok: false }) == advanced(settled(s, false)),
        settled(s, false).mapping == s.mapping,
        !(stepped(s, EventView::AssetStored { ok: false }).1 is Failed),
{
    lemma_advanced(settled(s, false));
}

/// Where no image was localized, rewriting a text only puts its `<img>`
/// tags into bracket form, each with the source it had: no URL is replaced.
pub proof fn lemma_nothing_localized(text: Seq<char>, tag: Seq<char>)
    ensures
        rewritten(text, Seq::empty()) == tags_replaced(text, Seq::empty()),
        rendered_tag(tag, Seq::empty()) == bracket_form(
            attribute(ALT_ATTR@, tag),
            attribute(SRC_ATTR@, tag),
        ),
{
}

/// No URL has two entries in a mapping.
pub open spec fn no_repeated_url(mapping: Seq<(Seq<char>, Seq<char>)>) -> bool {
    forall|i: int, j: int|
        0 <= i < j < mapping.len() ==> (#[trigger] mapping[i]).0 != (#[trigger] mapping[j]).0
}

/// The mapping of a state is tidy: no URL has two entries in it, and while
/// an image is being localized, its URL has none yet.
pub open spec fn tidy(s: IngestView) -> bool {
    &&& no_repeated_url(s.mapping)
    &&& match s.phase {
        Phase::AwaitAssetCheck | Phase::AwaitFetch | Phase::AwaitResolvedCheck
        | Phase::AwaitAssetStore => s.cursor < s.urls.len() ==> located(
            s.mapping,
            current_url(s),
        ) is None,
        _ => true,
    }
}

/// A URL without a local reference has no entry in the mapping.
pub proof fn lemma_located_none(mapping: Seq<(Seq<char>, Seq<char>)>, url: Seq<char>)
    requires
        located(mapping, url) is None,
    ensures
        forall|i: int| 0 <= i < mapping.len() ==> (#[trigger] mapping[i]).0 != url,
    decreases mapping.len(),
{
    if mapping.len() > 0 {
        let rest = mapping.drop_first();
        lemma_located_none(rest, url);
        assert forall|i: int| 0 <= i < mapping.len() implies (#[trigger] mapping[i]).0 != url by {
            if i > 0 {
                assert(rest[i - 1] == mapping[i]);
            }
        }
    }
}

/// No step of an ingestion gives a URL a second local reference: a tidy
/// mapping stays tidy, whatever happens.
pub proof fn lemma_step_tidy(s: IngestView, e: EventView)
    requires
        tidy(s),
    ensures
        tidy(stepped(s, e).0),
{
    if s.cursor < s.urls.len() && (s.phase == Phase::AwaitAssetCheck || s.phase
        == Phase::AwaitFetch || s.phase == Phase::AwaitResolvedCheck || s.phase
        == Phase::AwaitAssetStore) {
        lemma_located_none(s.mapping, current_url(s));
        let kept = settled(s, true);
        assert(no_repeated_url(kept.mapping)) by {
            assert forall|i: int, j: int| 0 <= i < j < kept.mapping.len() implies (
            #[trigger] kept.mapping[i]).0 != (#[trigger] kept.mapping[j]).0 by {
                assert(kept.mapping[i] == s.mapping[i]);
                if j < s.mapping.len() {
                    assert(kept.mapping[j] == s.mapping[j]);
                }
            }
        }
        lemma_advanced(kept);
        lemma_advanced(settled(s, false));
    }
    if s.phase == Phase::AwaitArtifact {
        lemma_advanced(converted(s, Seq::empty()));
    }
    if s.phase == Phase::AwaitConversion {
        match e {
            EventView::Converted { markdown } => {
                if s.body is Some {
                    lemma_advanced(converted(s, crate::markup::text_form(s.body->0, markdown)));
                }
            },
            _ => {},
        }
    }
}

/// One store holds all that another held before: every image that was kept
/// is kept with the same bytes, and the index log starts with what it held.
pub open spec fn keeps(after: Store, before: Store) -> bool {
    &&& forall|path: Seq<char>| #[trigger]
        before.assets.contains_key(path) ==> after.assets.contains_key(path)
            && after.assets[path] == before.assets[path]
    &&& before.log.len() <= after.log.len()
    &&& after.log.take(before.log.len() as int) == before.log
}

/// A state, its action and the store fit together as far as writing images
/// goes: an image is only written where the store was just found not to
/// hold a file of its name.
pub open spec fn orderly(store: Store, s: IngestView, a: ActionView) -> bool {
    match s.phase {
        Phase::AwaitResolvedCheck => a == (ActionView::CheckAsset {
            path: asset_path(s, s.pending),
        }),
        Phase::AwaitAssetStore => a == (ActionView::StoreAsset {
            path: asset_path(s, s.pending),
            bytes: s.fetched,
        }) && !store.assets.contains_key(asset_path(s, s.pending)),
        _ => !(a is StoreAsset),
    }
}

/// Whatever an ingestion does from an orderly state, and however it ends,
/// images once written stay as they are and the index log only grows at
/// its end.
pub proof fn lemma_run_keeps(store: Store, net: Outside, s: IngestView, a: ActionView, fuel: nat)
    requires
        orderly(store, s, a),
    ensures
        keeps(run(store, net, s, a, fuel).0, store),
    decreases fuel,
{
    assert(store.log.take(store.log.len() as int) =~= store.log);
    match performed(store, net, a).1 {
        None => {},
        Some(event) => {
            if fuel > 0 {
                let store1 = performed(store, net, a).0;
                let next = stepped(s, event);
                lemma_advanced(settled(s, true));
                lemma_advanced(settled(s, false));
                lemma_advanced(converted(s, Seq::empty()));
                match event {
                    EventView::Converted { markdown } => {
                        if s.body is Some {
                            lemma_advanced(
                                converted(s, crate::markup::text_form(s.body->0, markdown)),
                            );
                        }
                    },
                    _ => {},
                }
                assert(orderly(store1, next.0, next.1));
                lemma_run_keeps(store1, net, next.0, next.1, (fuel - 1) as nat);
                let end = run(store1, net, next.0, next.1, (fuel - 1) as nat).0;
                assert(keeps(store1, store)) by {
                    assert(store1.log.take(store.log.len() as int) =~= store.log);
                }
                assert(end.log.take(store.log.len() as int) =~= end.log.take(
                    store1.log.len() as int,
                ).take(store.log.len() as int));
            }
        },
    }
}

/// Whatever the ingestion of an entry does, and however it ends, images
/// once written stay as they are and the index log only grows at its end.
pub proof fn lemma_ingest_keeps(
    store: Store,
    net: Outside,
    store_dir: Seq<char>,
    feed_name: Seq<char>,
    feed_url: Seq<char>,
    item: ItemView,
    now: Seq<char>,
    fuel: nat,
)
    ensures
        keeps(ingested(store, net, store_dir, feed_name, feed_url, item, now, fuel).0, store),
{
    let start = initial(store_dir, feed_name, feed_url, item, now);
    lemma_run_keeps(store, net, start, first_action(start), fuel);
}

/// The local reference that an image gets, if any, given what the store and
/// the network say: that of its provisional name where the image is kept
/// under it; else that of the name it is stored under, where the server
/// answers with success and the image is kept under that name or can be
/// written; else none.
pub open spec fn localized(
    url: Seq<char>,
    kept: bool,
    response: Option<ResponseView>,
    resolved_kept: bool,
    stored: bool,
) -> Option<Seq<char>> {
    if kept {
        Some(local_reference(asset_name(url, generic_extension())))
    } else {
        match response {
            Some(r) => if r.success && (resolved_kept || stored) {
                Some(local_reference(stored_name(url, r)))
            } else {
                None
            },
            None => None,
        }
    }
}

/// The state once the image at the cursor has been dealt with, given what
/// the store and the network say along the way.
pub open spec fn localize_end(
    s: IngestView,
    kept: bool,
    response: Option<ResponseView>,
    resolved_kept: bool,
    stored: bool,
) -> IngestView {
    let checked = stepped(s, EventView::AssetFound { exists: kept }).0;
    if kept {
        checked
    } else {
        let fetched = stepped(checked, EventView::Fetched { response }).0;
        if fetched.phase == Phase::AwaitResolvedCheck {
            let resolved = stepped(fetched, EventView::AssetFound { exists: resolved_kept }).0;
            if resolved_kept {
                resolved
            } else {
                stepped(resolved, EventView::AssetStored { ok: stored }).0
            }
        } else {
            fetched
        }
    }
}

/// Localizing one image gives it the local reference that `localized`
/// tells, or none, changes no other entry of the mapping, fails nothing,
/// and moves the cursor on. Nothing is fetched where the image is kept
/// under its provisional name, and nothing is written where it is kept
/// under the name it would be stored under.
pub proof fn lemma_localize(
    s: IngestView,
    kept: bool,
    response: Option<ResponseView>,
    resolved_kept: bool,
    stored: bool,
)
    requires
        s.phase == Phase::AwaitAssetCheck,
        s.cursor < s.urls.len(),
        s.pending == asset_name(current_url(s), generic_extension()),
    ensures
        localize_end(s, kept, response, resolved_kept, stored).mapping == (match localized(
            current_url(s),
            kept,
            response,
            resolved_kept,
            stored,
        ) {
            Some(reference) => s.mapping.push((current_url(s), reference)),
            None => s.mapping,
        }),
        localize_end(s, kept, response, resolved_kept, stored).cursor > s.cursor,
        localize_end(s, kept, response, resolved_kept, stored).phase == Phase::AwaitAssetCheck
            || localize_end(s, kept, response, resolved_kept, stored).phase
            == Phase::AwaitWrite,
        kept ==> !(stepped(s, EventView::AssetFound { exists: kept }).1 is FetchAsset),
        !kept ==> stepped(s, EventView::AssetFound { exists: kept }).1 == (ActionView::FetchAsset {
            url: current_url(s),
        }),
        !kept && resolved_kept ==> !(stepped(
            stepped(stepped(s, EventView::AssetFound { exists: kept }).0, EventView::Fetched {
                response,
            }).0,
            EventView::AssetFound { exists: resolved_kept },
        ).1 is StoreAsset),
{
    lemma_advanced(settled(s, true));
    if !kept {
        let checked = stepped(s, EventView::AssetFound { exists: kept }).0;
        lemma_advanced(settled(checked, false));
        let fetched = stepped(checked, EventView::Fetched { response }).0;
        lemma_advanced(settled(fetched, true));
        if fetched.phase == Phase::AwaitResolvedCheck {
            let resolved = stepped(fetched, EventView::AssetFound { exists: resolved_kept }).0;
            if !resolved_kept {
                lemma_advanced(settled(resolved, stored));
            }
        }
    }
}

/// An entry of a mapping refers to an image that a store keeps: its local
/// reference is that of a file name under which the store holds an image.
pub open spec fn refers_to_kept(
    store: Store,
    store_dir: Seq<char>,
    entry: (Seq<char>, Seq<char>),
) -> bool {
    exists|name: Seq<char>|
        entry.1 == #[trigger] local_reference(name) && store.assets.contains_key(
            joined_path(crate::db::image_dir_of(store_dir), name),
        )
}

/// Every entry of a mapping refers to an image that a store keeps.
pub open spec fn grounded(
    store: Store,
    store_dir: Seq<char>,
    mapping: Seq<(Seq<char>, Seq<char>)>,
) -> bool {
    forall|i: int| 0 <= i < mapping.len() ==> refers_to_kept(store, store_dir, #[trigger] mapping[i])
}

/// A mapping that refers to kept images still does so in a store that only
/// has more images, and with one more entry that does.
proof fn lemma_grounded_grows(
    before: Store,
    after: Store,
    store_dir: Seq<char>,
    mapping: Seq<(Seq<char>, Seq<char>)>,
)
    requires
        grounded(before, store_dir, mapping),
        forall|path: Seq<char>| #[trigger]
            before.assets.contains_key(path) ==> after.assets.contains_key(path),
    ensures
        grounded(after, store_dir, mapping),
        forall|entry: (Seq<char>, Seq<char>)|
            refers_to_kept(after, store_dir, entry) ==> grounded(
                after,
                store_dir,
                #[trigger] mapping.push(entry),
            ),
{
    assert forall|i: int| 0 <= i < mapping.len() implies refers_to_kept(
        after,
        store_dir,
        #[trigger] mapping[i],
    ) by {
        assert(refers_to_kept(before, store_dir, mapping[i]));
        let name = choose|name: Seq<char>|
            mapping[i].1 == #[trigger] local_reference(name) && before.assets.contains_key(
                joined_path(crate::db::image_dir_of(store_dir), name),
            );
        assert(mapping[i].1 == local_reference(name));
    }
    assert forall|entry: (Seq<char>, Seq<char>)|
        refers_to_kept(after, store_dir, entry) implies grounded(
        after,
        store_dir,
        #[trigger] mapping.push(entry),
    ) by {
        let longer = mapping.push(entry);
        assert forall|i: int| 0 <= i < longer.len() implies refers_to_kept(
            after,
            store_dir,
            #[trigger] longer[i],
        ) by {
            if i < mapping.len() {
                assert(longer[i] == mapping[i]);
            }
        }
    }
}

/// An ingestion under way that runs to `Done` ends with the text rewritten
/// by a mapping each of whose local references names an image that the
/// store keeps at the end: no reference is rewritten to a file that is not
/// there.
pub proof fn lemma_run_grounded(
    store: Store,
    net: Outside,
    s: IngestView,
    a: ActionView,
    fuel: nat,
)
    requires
        in_flight(s, a),
        grounded(store, s.store_dir, s.mapping),
        run(store, net, s, a, fuel).1 is Done,
    ensures
        exists|mapping: Seq<(Seq<char>, Seq<char>)>|
            run(store, net, s, a, fuel).1->Done_text == #[trigger] rewritten(s.markdown, mapping)
                && grounded(run(store, net, s, a, fuel).0, s.store_dir, mapping),
    decreases fuel,
{
    let event = performed(store, net, a).1->0;
    let store1 = performed(store, net, a).0;
    let next = stepped(s, event);
    if fuel == 0 {
        assert(run(store, net, s, a, fuel) == (store, a));
    } else {
        let rest = (fuel - 1) as nat;
        assert(run(store, net, s, a, fuel) == run(store1, net, next.0, next.1, rest));
        if s.phase == Phase::AwaitWrite {
            lemma_tail(store1, net, next.0, next.1, rest);
            let end = run(store1, net, next.0, next.1, rest);
            lemma_grounded_grows(store, end.0, s.store_dir, s.mapping);
            assert(end.1->Done_text == rewritten(s.markdown, s.mapping));
        } else {
            lemma_step_in_flight(store, net, s, a);
            lemma_advanced(settled(s, true));
            lemma_advanced(settled(s, false));
            lemma_grounded_grows(store, store1, s.store_dir, s.mapping);
            let entry = (current_url(s), local_reference(s.pending));
            if next.0.mapping != s.mapping {
                assert(next.0.mapping == s.mapping.push(entry));
                assert(store1.assets.contains_key(asset_path(s, s.pending)));
                assert(refers_to_kept(store1, s.store_dir, entry));
            }
            lemma_run_grounded(store1, net, next.0, next.1, rest);
        }
    }
}

/// The text of a newly ingested article is its converted text, rewritten by
/// a mapping each of whose local references names an image that the store
/// keeps afterwards.
pub proof fn lemma_ingest_grounded(
    store: Store,
    net: Outside,
    store_dir: Seq<char>,
    feed_name: Seq<char>,
    feed_url: Seq<char>,
    item: ItemView,
    now: Seq<char>,
    fuel: nat,
)
    requires
        !store.artifacts.contains_key(item_path(store_dir, feed_name, feed_url, item)),
        ingested(store, net, store_dir, feed_name, feed_url, item, now, fuel).1 is Done,
    ensures
        ({
            let end = ingested(store, net, store_dir, feed_name, feed_url, item, now, fuel);
            exists|mapping: Seq<(Seq<char>, Seq<char>)>|
                end.1->Done_text == #[trigger] rewritten(item_text(item, net), mapping)
                    && grounded(end.0, store_dir, mapping)
        }),
{
    let start = initial(store_dir, feed_name, feed_url, item, now);
    lemma_done_took_steps(store, net, store_dir, feed_name, feed_url, item, now, fuel);
    lemma_begin(store, net, store_dir, feed_name, feed_url, item, now, fuel);
    let next = advanced(converted(start, item_text(item, net)));
    let hops: nat = if body_of(item) is Some {
        2
    } else {
        1
    };
    lemma_run_grounded(store, net, next.0, next.1, (fuel - hops) as nat);
}

/// The store after it was started: what `Database::initialize` hands back
/// for the size of the log is appended to the log.
pub open spec fn started(store: Store) -> Store {
    Store { log: store.log + entry_text(log_size(store.log), Seq::empty()), ..store }
}

/// Starting a store whose log is missing or empty leaves the log with
/// exactly the header row; starting any other store changes nothing. No
/// article and no image is touched either way, and starting twice is
/// starting once.
pub proof fn lemma_started(store: Store)
    ensures
        store.log.len() == 0 ==> started(store).log == crate::index::header_row(),
        store.log.len() > 0 ==> started(store) == store,
        started(store).artifacts == store.artifacts,
        started(store).assets == store.assets,
        started(started(store)) == started(store),
{
    reveal_strlit("time,article_name,rss_subscription_name,path\n");
    assert(store.log + Seq::<char>::empty() =~= store.log);
    assert(Seq::<char>::empty() + crate::index::header_row() =~= crate::index::header_row());
    assert(crate::index::header_row() + Seq::<char>::empty() =~= crate::index::header_row());
    let once = started(store);
    assert(once.log + Seq::<char>::empty() =~= once.log);
}

/// The URLs that an ingestion fetches, in the order of the fetches, while
/// it runs for at most `fuel` steps from a state and its action.
pub open spec fn fetches(
    store: Store,
    net: Outside,
    state: IngestView,
    action: ActionView,
    fuel: nat,
) -> Seq<Seq<char>>
    decreases fuel,
{
    match performed(store, net, action).1 {
        None => Seq::empty(),
        Some(event) => if fuel == 0 {
            Seq::empty()
        } else {
            let next = stepped(state, event);
            let later = fetches(
                performed(store, net, action).0,
                net,
                next.0,
                next.1,
                (fuel - 1) as nat,
            );
            match action {
                ActionView::FetchAsset { url } => seq![url] + later,
                _ => later,
            }
        },
    }
}

/// The index from which on the images of a state may still be fetched.
pub open spec fn unfetched_from(s: IngestView) -> int {
    match s.phase {
        Phase::AwaitAssetCheck | Phase::AwaitFetch => s.cursor as int,
        Phase::AwaitResolvedCheck | Phase::AwaitAssetStore => (s.cursor + 1) as int,
        _ => s.urls.len() as int,
    }
}

/// A URL is among those of a list from an index on.
pub open spec fn among(url: Seq<char>, urls: Seq<Seq<char>>, from: int) -> bool {
    exists|k: int| from <= k < urls.len() && #[trigger] urls[k] == url
}

/// Every URL of a list is among those of another list from an index on.
pub open spec fn listed_from(fetched: Seq<Seq<char>>, urls: Seq<Seq<char>>, from: int) -> bool {
    forall|i: int| 0 <= i < fetched.len() ==> among(#[trigger] fetched[i], urls, from)
}

/// What is among the URLs from an index on is among those from an earlier
/// index on.
proof fn lemma_among_earlier(url: Seq<char>, urls: Seq<Seq<char>>, from: int, earlier: int)
    requires
        among(url, urls, from),
        earlier <= from,
    ensures
        among(url, urls, earlier),
{
    let k = choose|k: int| from <= k < urls.len() && #[trigger] urls[k] == url;
    assert(earlier <= k < urls.len() && urls[k] == url);
}

/// Once the article is to be written, nothing is fetched any more.
proof fn lemma_late_fetches(store: Store, net: Outside, s: IngestView, a: ActionView, fuel: nat)
    requires
        match s.phase {
            Phase::AwaitWrite => a is WriteArtifact,
            Phase::AwaitIndexSize => a is CheckIndex,
            Phase::AwaitAppend => a is AppendIndex,
            Phase::Finished => a is Done || a is Failed,
            _ => false,
        },
    ensures
        fetches(store, net, s, a, fuel) == Seq::<Seq<char>>::empty(),
    decreases fuel,
{
    match performed(store, net, a).1 {
        None => {},
        Some(event) => {
            if fuel > 0 {
                let next = stepped(s, event);
                lemma_late_fetches(
                    performed(store, net, a).0,
                    net,
                    next.0,
                    next.1,
                    (fuel - 1) as nat,
                );
            }
        },
    }
}

/// An ingestion under way fetches no URL twice, and none but the images
/// that are still to be localized.
pub proof fn lemma_run_fetches_once(
    store: Store,
    net: Outside,
    s: IngestView,
    a: ActionView,
    fuel: nat,
)
    requires
        in_flight(s, a),
        s.urls.no_duplicates(),
    ensures
        fetches(store, net, s, a, fuel).no_duplicates(),
        listed_from(fetches(store, net, s, a, fuel), s.urls, unfetched_from(s)),
    decreases fuel,
{
    if fuel > 0 {
        let event = performed(store, net, a).1->0;
        let store1 = performed(store, net, a).0;
        let next = stepped(s, event);
        let rest = (fuel - 1) as nat;
        let later = fetches(store1, net, next.0, next.1, rest);
        if s.phase == Phase::AwaitWrite {
            lemma_late_fetches(store, net, s, a, fuel);
        } else {
            lemma_step_in_flight(store, net, s, a);
            lemma_advanced(settled(s, true));
            lemma_advanced(settled(s, false));
            lemma_run_fetches_once(store1, net, next.0, next.1, rest);
            assert(next.0.urls == s.urls);
            assert(unfetched_from(next.0) >= unfetched_from(s));
            let all = fetches(store, net, s, a, fuel);
            if s.phase == Phase::AwaitFetch {
                let url = current_url(s);
                assert(all == seq![url] + later);
                assert(unfetched_from(next.0) > s.cursor);
                assert forall|i: int| 0 <= i < all.len() implies among(
                    #[trigger] all[i],
                    s.urls,
                    unfetched_from(s),
                ) by {
                    if i == 0 {
                        assert(s.urls[s.cursor as int] == all[0]);
                    } else {
                        assert(all[i] == later[i - 1]);
                        assert(among(later[i - 1], s.urls, unfetched_from(next.0)));
                        lemma_among_earlier(
                            all[i],
                            s.urls,
                            unfetched_from(next.0),
                            unfetched_from(s),
                        );
                    }
                }
                assert forall|i: int, j: int| 0 <= i < j < all.len() implies all[i] != all[j] by {
                    assert(all[j] == later[j - 1]);
                    if i == 0 {
                        assert(among(later[j - 1], s.urls, unfetched_from(next.0)));
                        let k = choose|k: int|
                            unfetched_from(next.0) <= k < s.urls.len() && #[trigger] s.urls[k]
                                == later[j - 1];
                        assert(k != s.cursor);
                        assert(s.urls[k] != s.urls[s.cursor as int]);
                    } else {
                        assert(all[i] == later[i - 1]);
                    }
                }
            } else {
                assert(all == later);
                assert forall|i: int| 0 <= i < all.len() implies among(
                    #[trigger] all[i],
                    s.urls,
                    unfetched_from(s),
                ) by {
                    assert(among(later[i], s.urls, unfetched_from(next.0)));
                    lemma_among_earlier(
                        all[i],
                        s.urls,
                        unfetched_from(next.0),
                        unfetched_from(s),
                    );
                }
            }
        }
    }
}

/// The ingestion of an entry fetches each image of the entry at most once,
/// and nothing else.
pub proof fn lemma_ingest_fetches_once(
    store: Store,
    net: Outside,
    store_dir: Seq<char>,
    feed_name: Seq<char>,
    feed_url: Seq<char>,
    item: ItemView,
    now: Seq<char>,
    fuel: nat,
)
    ensures
        ({
            let start = initial(store_dir, feed_name, feed_url, item, now);
            let fetched = fetches(store, net, start, first_action(start), fuel);
            &&& fetched.no_duplicates()
            &&& listed_from(fetched, item_images(item, net), 0)
        }),
{
    let start = initial(store_dir, feed_name, feed_url, item, now);
    let all = fetches(store, net, start, first_action(start), fuel);
    let event = performed(store, net, first_action(start)).1->0;
    let first = stepped(start, event);
    let text = item_text(item, net);
    crate::refs::lemma_distinct(
        crate::refs::targets(crate::refs::BRACKET_IMAGE@, text) + crate::refs::targets(
            crate::refs::TAG_IMAGE@,
            text,
        ),
    );
    crate::refs::lemma_distinct(
        crate::refs::targets(crate::refs::BRACKET_IMAGE@, Seq::empty()) + crate::refs::targets(
            crate::refs::TAG_IMAGE@,
            Seq::empty(),
        ),
    );
    if fuel == 0 {
    } else if store.artifacts.contains_key(item_path(store_dir, feed_name, feed_url, item)) {
        lemma_late_fetches(store, net, first.0, first.1, (fuel - 1) as nat);
    } else {
        assert(all == fetches(store, net, first.0, first.1, (fuel - 1) as nat));
        match body_of(item) {
            Some(html) => {
                let answer = EventView::Converted { markdown: conversion(net, html) };
                let second = stepped(first.0, answer);
                if fuel >= 2 {
                    assert(performed(store, net, first.1) == (store, Some(answer)));
                    assert(all == fetches(store, net, second.0, second.1, (fuel - 2) as nat));
                    lemma_advanced(converted(first.0, text));
                    lemma_run_fetches_once(store, net, second.0, second.1, (fuel - 2) as nat);
                    lemma_listed_from_start(all, item_images(item, net), unfetched_from(second.0));
                }
            },
            None => {
                lemma_advanced(converted(start, Seq::empty()));
                lemma_run_fetches_once(store, net, first.0, first.1, (fuel - 1) as nat);
                lemma_listed_from_start(all, item_images(item, net), unfetched_from(first.0));
            },
        }
    }
}

/// What is listed from an index on is listed from the start.
proof fn lemma_listed_from_start(fetched: Seq<Seq<char>>, urls: Seq<Seq<char>>, from: int)
    requires
        from >= 0,
        listed_from(fetched, urls, from),
    ensures
        listed_from(fetched, urls, 0),
{
    assert forall|i: int| 0 <= i < fetched.len() implies among(#[trigger] fetched[i], urls, 0) by {
        assert(among(fetched[i], urls, from));
        lemma_among_earlier(fetched[i], urls, from, 0);
    }
}

} // verus!
