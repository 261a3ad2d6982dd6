//! What holds of identifiers, of the store and of refreshes, proved from the
//! specifications that the functions of the library meet.

use crate::address::LinkView;
use crate::clock::{publish_time, Timestamp};
use crate::address::parsed_url;
use crate::content::{derived_id, fallback_message, normalized};
use crate::driver::{
    caveats, lemma_refreshed_feeds, log_entry, refresh_result, refreshed, refreshed_all,
    FetchedView,
};
use crate::error::AppErrorView;
use crate::feed::{ChannelView, ItemView};
use crate::hashing::{hex_lower, lemma_hex_lower_injective, sha256_digest};
use crate::icon::HttpReplyView;
use crate::refresh::{
    article_store_failure, articles_between, articles_of, errors_between, icon_store_failure,
    outcome, stepped, ActionView, EventView, Outcome, Phase, RefresherView,
};
use crate::store::{
    is_stored, lemma_touched_all_append, lemma_touched_all_identity, lemma_upserted_all_keeps,
    lemma_upserted_all_rows, lemma_upserted_all_stored, lemma_upserted_all_twice,
    lemma_upserted_all_unique, names, overwritten, touched, touched_all, unique_keys, upserted,
    upserted_all, ArticleNewView, ArticleView, FeedLogView, StoreView,
};
use vstd::prelude::*;
use vstd::utf8::encode_utf8_decode_utf8;

verus! {

/// An item that has an identifier of its own is named by it, whatever its
/// link and its content are.
pub proof fn explicit_identifier_wins(
    id: Seq<char>,
    link: Option<LinkView>,
    title: Seq<char>,
    summary: Seq<char>,
    content: Seq<char>,
)
    ensures
        derived_id(Some(id), link, title, summary, content) == id,
{
}

/// An item without an identifier of its own that has a link is named by the
/// link in normal form.
pub proof fn link_names_item_without_identifier(
    link: LinkView,
    title: Seq<char>,
    summary: Seq<char>,
    content: Seq<char>,
)
    ensures
        derived_id(None, Some(link), title, summary, content) == link.text,
{
}

/// An item that is read keeps the identifier that it has of its own.
pub proof fn read_item_keeps_its_identifier(item: ItemView, now: Timestamp)
    requires
        item.guid is Some,
        normalized(item, now) is Ok,
    ensures
        normalized(item, now)->Ok_0.article_id == item.guid->0,
{
}

/// An item without an identifier of its own that has a link is named, once
/// it is read, by the link in normal form.
pub proof fn read_item_is_named_by_its_link(item: ItemView, now: Timestamp)
    requires
        item.guid is None,
        item.link is Some,
        normalized(item, now) is Ok,
    ensures
        parsed_url(item.link->0) is Ok,
        normalized(item, now)->Ok_0.article_id == parsed_url(item.link->0)->Ok_0.text,
{
}

/// The identifier of an item depends on nothing but its own identifier, its
/// link, its title, its summary and its content: the same item gets the same
/// identifier whenever it is read.
pub proof fn same_item_same_identifier(
    explicit_id: Option<Seq<char>>,
    link: Option<LinkView>,
    title: Seq<char>,
    summary: Seq<char>,
    content: Seq<char>,
    other_explicit_id: Option<Seq<char>>,
    other_link: Option<LinkView>,
    other_title: Seq<char>,
    other_summary: Seq<char>,
    other_content: Seq<char>,
)
    requires
        explicit_id == other_explicit_id,
        link == other_link,
        title == other_title,
        summary == other_summary,
        content == other_content,
    ensures
        derived_id(explicit_id, link, title, summary, content) == derived_id(
            other_explicit_id,
            other_link,
            other_title,
            other_summary,
            other_content,
        ),
{
}

/// Two items without identifier and link that differ in exactly one of
/// title, summary and content have different messages.
pub proof fn fallback_messages_differ(
    title: Seq<char>,
    summary: Seq<char>,
    content: Seq<char>,
    other_title: Seq<char>,
    other_summary: Seq<char>,
    other_content: Seq<char>,
)
    requires
        (title != other_title && summary == other_summary && content == other_content) || (title
            == other_title && summary != other_summary && content == other_content) || (title
            == other_title && summary == other_summary && content != other_content),
    ensures
        fallback_message(title, summary, content) != fallback_message(
            other_title,
            other_summary,
            other_content,
        ),
{
    let one = title + summary + content;
    let other = other_title + other_summary + other_content;
    if one == other {
        assert(one.len() == other.len());
        assert(title =~= one.subrange(0, title.len() as int));
        assert(other_title =~= other.subrange(0, other_title.len() as int));
        assert(summary =~= one.subrange(title.len() as int, (title.len() + summary.len()) as int));
        assert(other_summary =~= other.subrange(
            other_title.len() as int,
            (other_title.len() + other_summary.len()) as int,
        ));
        assert(content =~= one.subrange((title.len() + summary.len()) as int, one.len() as int));
        assert(other_content =~= other.subrange(
            (other_title.len() + other_summary.len()) as int,
            other.len() as int,
        ));
        assert(false);
    }
    encode_utf8_decode_utf8(one);
    encode_utf8_decode_utf8(other);
}

/// Two items without identifier and link have one identifier exactly when
/// SHA-256 gives their messages one digest.
pub proof fn fallback_ids_agree_with_digests(
    title: Seq<char>,
    summary: Seq<char>,
    content: Seq<char>,
    other_title: Seq<char>,
    other_summary: Seq<char>,
    other_content: Seq<char>,
)
    ensures
        derived_id(None, None, title, summary, content) == derived_id(
            None,
            None,
            other_title,
            other_summary,
            other_content,
        ) <==> sha256_digest(fallback_message(title, summary, content)) == sha256_digest(
            fallback_message(other_title, other_summary, other_content),
        ),
{
    let one = hex_lower(sha256_digest(fallback_message(title, summary, content)));
    let other = hex_lower(
        sha256_digest(fallback_message(other_title, other_summary, other_content)),
    );
    let tag = "sha256:"@;
    if tag + one == tag + other {
        assert(one =~= (tag + one).subrange(tag.len() as int, (tag + one).len() as int));
        assert(other =~= (tag + other).subrange(tag.len() as int, (tag + other).len() as int));
        lemma_hex_lower_injective(
            sha256_digest(fallback_message(title, summary, content)),
            sha256_digest(fallback_message(other_title, other_summary, other_content)),
        );
    }
}

/// An item without identifier and link gets another identifier when one of
/// title, summary and content changes, unless SHA-256 gives the two
/// messages, which differ, one digest.
pub proof fn fallback_identifier_follows_content(
    title: Seq<char>,
    summary: Seq<char>,
    content: Seq<char>,
    other_title: Seq<char>,
    other_summary: Seq<char>,
    other_content: Seq<char>,
)
    requires
        (title != other_title && summary == other_summary && content == other_content) || (title
            == other_title && summary != other_summary && content == other_content) || (title
            == other_title && summary == other_summary && content != other_content),
        sha256_digest(fallback_message(title, summary, content)) == sha256_digest(
            fallback_message(other_title, other_summary, other_content),
        ) ==> fallback_message(title, summary, content) == fallback_message(
            other_title,
            other_summary,
            other_content,
        ),
    ensures
        derived_id(None, None, title, summary, content) != derived_id(
            None,
            None,
            other_title,
            other_summary,
            other_content,
        ),
{
    fallback_messages_differ(title, summary, content, other_title, other_summary, other_content);
    fallback_ids_agree_with_digests(
        title,
        summary,
        content,
        other_title,
        other_summary,
        other_content,
    );
}

/// An item that names a stored article is written over it: the article
/// keeps its place and its identity, and says what the item says. No article
/// is added, and every article keeps its identity.
pub proof fn upsert_overwrites(articles: Seq<ArticleView>, id: u128, data: ArticleNewView, i: int)
    requires
        0 <= i < articles.len(),
        names(data, articles[i]),
    ensures
        upserted(articles, id, data).len() == articles.len(),
        upserted(articles, id, data)[i] == overwritten(articles[i], data),
        upserted(articles, id, data)[i].id == articles[i].id,
        forall|j: int|
            0 <= j < articles.len() ==> (#[trigger] upserted(articles, id, data)[j]).id
                == articles[j].id,
{
    assert(is_stored(articles, data));
}

/// An item that names no stored article becomes a new one, behind those that
/// are stored, which stay as they are.
pub proof fn upsert_inserts(articles: Seq<ArticleView>, id: u128, data: ArticleNewView)
    requires
        !is_stored(articles, data),
    ensures
        upserted(articles, id, data).len() == articles.len() + 1,
        upserted(articles, id, data).last().id == id,
        names(data, upserted(articles, id, data).last()),
        forall|j: int|
            0 <= j < articles.len() ==> #[trigger] upserted(articles, id, data)[j] == articles[j],
{
}

/// Bringing an item twice is bringing it once.
pub proof fn upsert_twice(articles: Seq<ArticleView>, id: u128, other: u128, data: ArticleNewView)
    ensures
        upserted(upserted(articles, id, data), other, data) == upserted(articles, id, data),
{
    let news = seq![data];
    let ids = seq![id];
    let others = seq![other];
    reveal_with_fuel(upserted_all, 2);
    assert(news.drop_last() =~= Seq::<ArticleNewView>::empty());
    assert(upserted_all(articles, ids, news) == upserted(articles, id, data));
    assert(upserted_all(upserted(articles, id, data), others, news) == upserted(
        upserted(articles, id, data),
        other,
        data,
    ));
    lemma_upserted_all_twice(articles, ids, others, news);
}

/// Refreshing a feed a second time at the same instant, the network
/// answering as before, changes no article and no feed: only the log gains
/// an entry.
pub proof fn refresh_twice(
    store: StoreView,
    feed_id: u128,
    fetched: FetchedView,
    now: Timestamp,
    ids: Seq<u128>,
    log_id: u128,
    other_ids: Seq<u128>,
    other_log_id: u128,
)
    ensures
        refreshed(
            refreshed(store, feed_id, fetched, now, ids, log_id),
            feed_id,
            fetched,
            now,
            other_ids,
            other_log_id,
        ) == (StoreView {
            logs: refreshed(store, feed_id, fetched, now, ids, log_id).logs.push(
                log_entry(other_log_id, feed_id, now, fetched),
            ),
            ..refreshed(store, feed_id, fetched, now, ids, log_id)
        }),
{
    let once = refreshed(store, feed_id, fetched, now, ids, log_id);
    let twice = refreshed(once, feed_id, fetched, now, other_ids, other_log_id);
    match fetched.channel {
        Err(_) => {},
        Ok(channel) => {
            let news = articles_between(
                feed_id,
                now,
                channel.items,
                0,
                channel.items.len() as int,
            );
            lemma_upserted_all_twice(store.articles, ids, other_ids, news);
            assert(twice.feeds =~= once.feeds);
        },
    }
}

/// Whether the publish date of an item is there and can be read.
pub open spec fn dated(item: ItemView) -> bool {
    item.pub_date matches Some(raw) && publish_time(raw) is Ok
}

/// What becomes of an item whose publish date can be read does not depend on
/// the instant at which it is read.
pub proof fn dated_item_reads_the_same(
    feed_id: u128,
    now: Timestamp,
    later: Timestamp,
    item: ItemView,
)
    requires
        dated(item),
    ensures
        outcome(feed_id, now, item) == outcome(feed_id, later, item),
{
}

/// Items whose publish dates can be read bring the same articles at whatever
/// instant they are read.
proof fn lemma_dated_articles(
    feed_id: u128,
    now: Timestamp,
    later: Timestamp,
    items: Seq<ItemView>,
    lo: int,
    hi: int,
)
    requires
        0 <= lo <= hi <= items.len(),
        forall|j: int| lo <= j < hi ==> dated(#[trigger] items[j]),
    ensures
        articles_between(feed_id, now, items, lo, hi) == articles_between(
            feed_id,
            later,
            items,
            lo,
            hi,
        ),
    decreases hi - lo,
{
    if lo < hi {
        lemma_dated_articles(feed_id, now, later, items, lo, hi - 1);
        dated_item_reads_the_same(feed_id, now, later, items[hi - 1]);
    }
}

/// Refreshing a feed a second time, at whatever instant, the network
/// answering as before, changes no article and no feed, provided that the
/// publish date of every item is there and can be read: only the log gains
/// an entry.
pub proof fn refresh_twice_at_two_instants(
    store: StoreView,
    feed_id: u128,
    fetched: FetchedView,
    now: Timestamp,
    ids: Seq<u128>,
    log_id: u128,
    later: Timestamp,
    other_ids: Seq<u128>,
    other_log_id: u128,
)
    requires
        fetched.channel matches Ok(channel) ==> forall|j: int|
            0 <= j < channel.items.len() ==> dated(#[trigger] channel.items[j]),
    ensures
        refreshed(
            refreshed(store, feed_id, fetched, now, ids, log_id),
            feed_id,
            fetched,
            later,
            other_ids,
            other_log_id,
        ) == (StoreView {
            logs: refreshed(store, feed_id, fetched, now, ids, log_id).logs.push(
                log_entry(other_log_id, feed_id, later, fetched),
            ),
            ..refreshed(store, feed_id, fetched, now, ids, log_id)
        }),
{
    let once = refreshed(store, feed_id, fetched, now, ids, log_id);
    let twice = refreshed(once, feed_id, fetched, later, other_ids, other_log_id);
    match fetched.channel {
        Err(_) => {},
        Ok(channel) => {
            let n = channel.items.len() as int;
            let news = articles_between(feed_id, now, channel.items, 0, n);
            lemma_dated_articles(feed_id, now, later, channel.items, 0, n);
            lemma_upserted_all_twice(store.articles, ids, other_ids, news);
            assert(twice.feeds =~= once.feeds);
        },
    }
}

/// A refresh keeps the keys apart: where no two articles of one feed bore the
/// same key before, none do after.
pub proof fn refresh_keeps_keys_apart(
    store: StoreView,
    feed_id: u128,
    fetched: FetchedView,
    now: Timestamp,
    ids: Seq<u128>,
    log_id: u128,
)
    requires
        unique_keys(store.articles),
    ensures
        unique_keys(refreshed(store, feed_id, fetched, now, ids, log_id).articles),
{
    match fetched.channel {
        Err(_) => {},
        Ok(channel) => {
            lemma_upserted_all_unique(
                store.articles,
                ids,
                articles_between(feed_id, now, channel.items, 0, channel.items.len() as int),
            );
        },
    }
}

/// A refresh removes no article, and every article that was stored before
/// keeps its place, its identity, its feed and its key.
pub proof fn refresh_keeps_identity(
    store: StoreView,
    feed_id: u128,
    fetched: FetchedView,
    now: Timestamp,
    ids: Seq<u128>,
    log_id: u128,
    i: int,
)
    requires
        0 <= i < store.articles.len(),
    ensures
        refreshed(store, feed_id, fetched, now, ids, log_id).articles.len()
            >= store.articles.len(),
        refreshed(store, feed_id, fetched, now, ids, log_id).articles[i].id
            == store.articles[i].id,
        refreshed(store, feed_id, fetched, now, ids, log_id).articles[i].feed_id
            == store.articles[i].feed_id,
        refreshed(store, feed_id, fetched, now, ids, log_id).articles[i].article_id
            == store.articles[i].article_id,
{
    match fetched.channel {
        Err(_) => {},
        Ok(channel) => {
            let news = articles_between(
                feed_id,
                now,
                channel.items,
                0,
                channel.items.len() as int,
            );
            lemma_upserted_all_rows(store.articles, ids, news);
            lemma_touched_all_identity(store.articles[i], news);
        },
    }
}

/// Whether an item is brought to the storage and names the article.
pub open spec fn brings(feed_id: u128, now: Timestamp, item: ItemView, stored: ArticleView) -> bool {
    outcome(feed_id, now, item) matches Outcome::Stored { article, .. } && names(article, stored)
}

/// Items that do not name an article leave it as it is.
proof fn lemma_untouched_between(
    feed_id: u128,
    now: Timestamp,
    items: Seq<ItemView>,
    lo: int,
    hi: int,
    stored: ArticleView,
)
    requires
        0 <= lo <= hi <= items.len(),
        forall|j: int| lo <= j < hi ==> !brings(feed_id, now, #[trigger] items[j], stored),
    ensures
        touched_all(stored, articles_between(feed_id, now, items, lo, hi)) == stored,
    decreases hi - lo,
{
    if lo < hi {
        lemma_untouched_between(feed_id, now, items, lo, hi - 1, stored);
        let before = articles_between(feed_id, now, items, lo, hi - 1);
        let these = articles_of(outcome(feed_id, now, items[hi - 1]));
        lemma_touched_all_append(stored, before, these);
        assert(!brings(feed_id, now, items[hi - 1], stored));
        if these.len() > 0 {
            reveal_with_fuel(touched_all, 2);
            assert(these.drop_last() =~= Seq::<ArticleNewView>::empty());
            assert(touched_all(stored, these) == touched(stored, these.last()));
        }
    }
}

/// The article of an item that is brought to the storage is among those that
/// the items around it bring.
proof fn lemma_article_between(
    feed_id: u128,
    now: Timestamp,
    items: Seq<ItemView>,
    lo: int,
    hi: int,
    j: int,
)
    requires
        0 <= lo <= j < hi <= items.len(),
        outcome(feed_id, now, items[j]) is Stored,
    ensures
        articles_between(feed_id, now, items, lo, hi).contains(
            outcome(feed_id, now, items[j])->Stored_article,
        ),
    decreases hi - lo,
{
    let all = articles_between(feed_id, now, items, lo, hi);
    let before = articles_between(feed_id, now, items, lo, hi - 1);
    let article = outcome(feed_id, now, items[j])->Stored_article;
    if j == hi - 1 {
        assert(all[before.len() as int] == article);
    } else {
        lemma_article_between(feed_id, now, items, lo, hi - 1, j);
        let p = choose|p: int| 0 <= p < before.len() && before[p] == article;
        assert(all[p] == article);
    }
}

/// A refresh writes over a stored article what the last item says that
/// names it: title, content, link and publish time are the item's, the
/// identity stays.
pub proof fn refresh_overwrites(
    store: StoreView,
    feed_id: u128,
    channel: ChannelView,
    answer: Result<HttpReplyView, Seq<char>>,
    now: Timestamp,
    ids: Seq<u128>,
    log_id: u128,
    i: int,
    k: int,
)
    requires
        0 <= i < store.articles.len(),
        0 <= k < channel.items.len(),
        brings(feed_id, now, channel.items[k], store.articles[i]),
        forall|j: int|
            k < j < channel.items.len() ==> !brings(
                feed_id,
                now,
                #[trigger] channel.items[j],
                store.articles[i],
            ),
    ensures
        refreshed(
            store,
            feed_id,
            FetchedView { channel: Ok(channel), icon: answer },
            now,
            ids,
            log_id,
        ).articles[i] == overwritten(
            store.articles[i],
            outcome(feed_id, now, channel.items[k])->Stored_article,
        ),
{
    let items = channel.items;
    let n = items.len() as int;
    let stored = store.articles[i];
    let article = outcome(feed_id, now, items[k])->Stored_article;
    let news = articles_between(feed_id, now, items, 0, n);
    let before = articles_between(feed_id, now, items, 0, k);
    let upto = articles_between(feed_id, now, items, 0, k + 1);
    let after = articles_between(feed_id, now, items, k + 1, n);
    lemma_upserted_all_rows(store.articles, ids, news);
    crate::refresh::lemma_articles_split(feed_id, now, items, 0, k + 1, n);
    assert(upto =~= before.push(article));
    assert(upto.drop_last() =~= before);
    lemma_touched_all_identity(stored, before);
    let written = touched_all(stored, upto);
    assert(written == overwritten(stored, article));
    lemma_touched_all_append(stored, upto, after);
    assert forall|j: int| k + 1 <= j < n implies !brings(feed_id, now, #[trigger] items[j], written) by {
        assert(!brings(feed_id, now, items[j], stored));
    }
    lemma_untouched_between(feed_id, now, items, k + 1, n, written);
}

/// A refresh whose feed document was had goes through, whatever its icon
/// and its items do: it ends well and leaves a log entry of success.
pub proof fn refresh_goes_through(
    feed_id: u128,
    channel: ChannelView,
    answer: Result<HttpReplyView, Seq<char>>,
    now: Timestamp,
    log_id: u128,
)
    ensures
        refresh_result(FetchedView { channel: Ok(channel), icon: answer }) == Ok::<
            (),
            AppErrorView,
        >(()),
        log_entry(log_id, feed_id, now, FetchedView { channel: Ok(channel), icon: answer }).success,
{
}

/// Every item of a refreshed feed that can be read and has a body has its
/// article stored afterwards, whatever becomes of the other items.
pub proof fn refresh_stores_every_good_item(
    store: StoreView,
    feed_id: u128,
    channel: ChannelView,
    answer: Result<HttpReplyView, Seq<char>>,
    now: Timestamp,
    ids: Seq<u128>,
    log_id: u128,
    j: int,
)
    requires
        0 <= j < channel.items.len(),
        outcome(feed_id, now, channel.items[j]) is Stored,
    ensures
        is_stored(
            refreshed(
                store,
                feed_id,
                FetchedView { channel: Ok(channel), icon: answer },
                now,
                ids,
                log_id,
            ).articles,
            outcome(feed_id, now, channel.items[j])->Stored_article,
        ),
{
    let n = channel.items.len() as int;
    let news = articles_between(feed_id, now, channel.items, 0, n);
    let article = outcome(feed_id, now, channel.items[j])->Stored_article;
    lemma_article_between(feed_id, now, channel.items, 0, n, j);
    lemma_upserted_all_stored(store.articles, ids, news);
    let p = choose|p: int| 0 <= p < news.len() && news[p] == article;
    assert(is_stored(upserted_all(store.articles, ids, news), news[p]));
}

/// The error of an item that cannot be read is among those that the items
/// around it put on record.
proof fn lemma_error_between(
    feed_id: u128,
    now: Timestamp,
    items: Seq<ItemView>,
    lo: int,
    hi: int,
    j: int,
)
    requires
        0 <= lo <= j < hi <= items.len(),
        outcome(feed_id, now, items[j]) is Failed,
    ensures
        errors_between(feed_id, now, items, lo, hi).contains(
            outcome(feed_id, now, items[j])->Failed_error,
        ),
    decreases hi - lo,
{
    let all = errors_between(feed_id, now, items, lo, hi);
    let before = errors_between(feed_id, now, items, lo, hi - 1);
    let error = outcome(feed_id, now, items[j])->Failed_error;
    if j == hi - 1 {
        assert(all[before.len() as int] == error);
    } else {
        lemma_error_between(feed_id, now, items, lo, hi - 1, j);
        let p = choose|p: int| 0 <= p < before.len() && before[p] == error;
        assert(all[p] == error);
    }
}

/// Every item of a refreshed feed that cannot be read has its error on
/// record in the log entry of the refresh, and the refresh goes through all
/// the same.
pub proof fn refresh_records_every_bad_item(
    feed_id: u128,
    channel: ChannelView,
    answer: Result<HttpReplyView, Seq<char>>,
    now: Timestamp,
    j: int,
)
    requires
        0 <= j < channel.items.len(),
        outcome(feed_id, now, channel.items[j]) is Failed,
    ensures
        caveats(feed_id, now, channel, answer).contains(
            outcome(feed_id, now, channel.items[j])->Failed_error,
        ),
        refresh_result(FetchedView { channel: Ok(channel), icon: answer }) == Ok::<
            (),
            AppErrorView,
        >(()),
{
    let n = channel.items.len() as int;
    let errors = errors_between(feed_id, now, channel.items, 0, n);
    let error = outcome(feed_id, now, channel.items[j])->Failed_error;
    lemma_error_between(feed_id, now, channel.items, 0, n, j);
    let p = choose|p: int| 0 <= p < errors.len() && errors[p] == error;
    let all = caveats(feed_id, now, channel, answer);
    assert(all[all.len() - errors.len() + p] == error);
}

/// A refresh appends one entry to the log of its feed and changes none that
/// was there: of success where the feed document was had, of failure where
/// it was not.
pub proof fn refresh_appends_one_log_entry(
    store: StoreView,
    feed_id: u128,
    fetched: FetchedView,
    now: Timestamp,
    ids: Seq<u128>,
    log_id: u128,
)
    ensures
        refreshed(store, feed_id, fetched, now, ids, log_id).logs == store.logs.push(
            log_entry(log_id, feed_id, now, fetched),
        ),
        log_entry(log_id, feed_id, now, fetched).id == log_id,
        log_entry(log_id, feed_id, now, fetched).feed_id == feed_id,
        log_entry(log_id, feed_id, now, fetched).time == now,
        log_entry(log_id, feed_id, now, fetched).success == (fetched.channel is Ok),
{
}

/// A refresh whose feed document could not be had changes nothing but the
/// log, which gains an entry of failure with the reason.
pub proof fn failed_refresh_only_logs(
    store: StoreView,
    feed_id: u128,
    why: Seq<char>,
    answer: Result<HttpReplyView, Seq<char>>,
    now: Timestamp,
    ids: Seq<u128>,
    log_id: u128,
)
    ensures
        refreshed(store, feed_id, FetchedView { channel: Err(why), icon: answer }, now, ids, log_id)
            == (StoreView {
            logs: store.logs.push(
                FeedLogView { id: log_id, time: now, feed_id, success: false, message: Some(why) },
            ),
            ..store
        }),
        refresh_result(FetchedView { channel: Err(why), icon: answer }) == Err::<(), AppErrorView>(
            AppErrorView::FetchFailure(why),
        ),
{
}

/// A refresh loses no stored article.
proof fn lemma_refreshed_keeps(
    store: StoreView,
    feed_id: u128,
    fetched: FetchedView,
    now: Timestamp,
    ids: Seq<u128>,
    log_id: u128,
    other: ArticleNewView,
)
    requires
        is_stored(store.articles, other),
    ensures
        is_stored(refreshed(store, feed_id, fetched, now, ids, log_id).articles, other),
{
    match fetched.channel {
        Err(_) => {},
        Ok(channel) => {
            lemma_upserted_all_keeps(
                store.articles,
                ids,
                articles_between(feed_id, now, channel.items, 0, channel.items.len() as int),
                other,
            );
        },
    }
}

/// A run over the feeds neither adds nor removes a feed, and leaves every
/// feed its identity.
pub proof fn refresh_all_keeps_the_feeds(
    store: StoreView,
    fetched: Seq<FetchedView>,
    now: Timestamp,
    ids: Seq<Seq<u128>>,
    log_ids: Seq<u128>,
    n: nat,
)
    ensures
        refreshed_all(store, fetched, now, ids, log_ids, n).feeds.len() == store.feeds.len(),
        forall|k: int|
            0 <= k < store.feeds.len() ==> (#[trigger] refreshed_all(
                store,
                fetched,
                now,
                ids,
                log_ids,
                n,
            ).feeds[k]).id == store.feeds[k].id,
    decreases n,
{
    if n > 0 {
        refresh_all_keeps_the_feeds(store, fetched, now, ids, log_ids, (n - 1) as nat);
        lemma_refreshed_feeds(
            refreshed_all(store, fetched, now, ids, log_ids, (n - 1) as nat),
            store.feeds[n - 1].id,
            fetched[n - 1],
            now,
            ids[n - 1],
            log_ids[n - 1],
        );
    }
}

/// A run over the feeds leaves one log entry for each feed, in the order of
/// the feeds and behind the entries that were there: of success where the
/// feed document was had, of failure where it was not.
pub proof fn refresh_all_logs_every_feed(
    store: StoreView,
    fetched: Seq<FetchedView>,
    now: Timestamp,
    ids: Seq<Seq<u128>>,
    log_ids: Seq<u128>,
    n: nat,
)
    ensures
        refreshed_all(store, fetched, now, ids, log_ids, n).logs == store.logs + Seq::new(
            n,
            |k: int| log_entry(log_ids[k], store.feeds[k].id, now, fetched[k]),
        ),
        forall|k: int|
            0 <= k < n ==> (#[trigger] refreshed_all(store, fetched, now, ids, log_ids, n).logs[store.logs.len()
                + k]).success == (fetched[k].channel is Ok),
    decreases n,
{
    let entries = Seq::new(n, |k: int| log_entry(log_ids[k], store.feeds[k].id, now, fetched[k]));
    if n > 0 {
        refresh_all_logs_every_feed(store, fetched, now, ids, log_ids, (n - 1) as nat);
        let before = Seq::new(
            (n - 1) as nat,
            |k: int| log_entry(log_ids[k], store.feeds[k].id, now, fetched[k]),
        );
        assert(store.logs + entries =~= (store.logs + before).push(entries[n - 1]));
    } else {
        assert(store.logs + entries =~= store.logs);
    }
}

/// After a run over the feeds, every item of every feed whose document was
/// had, if it can be read and has a body, has its article stored, whichever
/// of the other feeds could not be refreshed.
pub proof fn refresh_all_stores_every_good_item(
    store: StoreView,
    fetched: Seq<FetchedView>,
    now: Timestamp,
    ids: Seq<Seq<u128>>,
    log_ids: Seq<u128>,
    n: nat,
    k: int,
    j: int,
)
    requires
        0 <= k < n,
        fetched[k].channel matches Ok(channel) && 0 <= j < channel.items.len() && outcome(
            store.feeds[k].id,
            now,
            channel.items[j],
        ) is Stored,
    ensures
        is_stored(
            refreshed_all(store, fetched, now, ids, log_ids, n).articles,
            outcome(store.feeds[k].id, now, fetched[k].channel->Ok_0.items[j])->Stored_article,
        ),
    decreases n,
{
    let before = refreshed_all(store, fetched, now, ids, log_ids, (n - 1) as nat);
    let article = outcome(store.feeds[k].id, now, fetched[k].channel->Ok_0.items[j])->Stored_article;
    if k == n - 1 {
        refresh_stores_every_good_item(
            before,
            store.feeds[k].id,
            fetched[k].channel->Ok_0,
            fetched[k].icon,
            now,
            ids[k],
            log_ids[k],
            j,
        );
        assert(fetched[k] == (FetchedView {
            channel: Ok(fetched[k].channel->Ok_0),
            icon: fetched[k].icon,
        }));
    } else {
        refresh_all_stores_every_good_item(store, fetched, now, ids, log_ids, (n - 1) as nat, k, j);
        lemma_refreshed_keeps(
            before,
            store.feeds[n - 1].id,
            fetched[n - 1],
            now,
            ids[n - 1],
            log_ids[n - 1],
            article,
        );
    }
}

/// Whether the feed document has been had and the refresh is not yet at its
/// end.
pub open spec fn past_download(phase: Phase) -> bool {
    phase is FetchingIcon || phase is StoringIcon || phase is Upserting || phase is LoggingSuccess
}

/// Once the feed document has been had, nothing that happens makes the
/// refresh fail: whatever the event, the refresh goes on or ends well, the
/// log entry that it asks for is one of success, and no error that is on
/// record is lost.
pub proof fn nothing_after_download_is_fatal(m: RefresherView, event: EventView)
    requires
        past_download(m.phase),
    ensures
        past_download(stepped(m, event).0.phase) || stepped(m, event).0.phase is Done,
        stepped(m, event).1 matches ActionView::Finish { result } ==> result is Ok,
        stepped(m, event).1 matches ActionView::AppendLog { success, .. } ==> success,
        m.errors.is_prefix_of(stepped(m, event).0.errors),
{
}

/// A write that the storage refuses goes on record, behind the errors that
/// are on record already, and the refresh goes on.
pub proof fn refused_write_goes_on_record(m: RefresherView, why: Seq<char>)
    requires
        m.phase is StoringIcon || m.phase is Upserting,
    ensures
        stepped(m, EventView::Written(Err(why))).0.errors.len() > m.errors.len(),
        stepped(m, EventView::Written(Err(why))).0.errors[m.errors.len() as int] == (if m.phase
            is Upserting {
            AppErrorView::PersistenceFailure(article_store_failure(why))
        } else {
            AppErrorView::PersistenceFailure(icon_store_failure(why))
        }),
        stepped(m, EventView::Written(Err(why))).0.phase is Upserting || stepped(
            m,
            EventView::Written(Err(why)),
        ).0.phase is LoggingSuccess,
{
}

} // verus!
