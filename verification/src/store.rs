//! What is stored of feeds, articles and refresh logs, and how an item is
//! reconciled with the article that it names.

use crate::address::{Link, LinkView};
use crate::clock::Timestamp;
use uuid::Uuid;
use vstd::prelude::*;

verus! {

/// The format of a feed document.
#[derive(Clone, Copy, Debug, PartialEq, Eq, Structural)]
pub enum FeedKind {
    Rss,
    Atom,
}

/// A registered feed.
#[derive(Debug)]
pub struct Feed {
    pub id: u128,
    pub url: String,
    pub title: String,
    pub kind: FeedKind,
    pub disabled: bool,
    pub icon: Option<String>,
    pub html_url: Option<String>,
}

/// A stored article. Within a feed, `article_id` names it.
#[derive(Debug)]
pub struct Article {
    pub id: u128,
    pub feed_id: u128,
    pub article_id: String,
    pub title: String,
    pub content: String,
    pub link: Option<String>,
    pub published: Timestamp,
}

/// What an item of a feed brings for the article that it names.
#[derive(Debug)]
pub struct ArticleNew {
    pub content: String,
    pub feed_id: u128,
    pub article_id: String,
    pub title: String,
    pub link: Option<Link>,
    pub published: Timestamp,
}

/// One entry of the refresh log of a feed.
#[derive(Debug)]
pub struct FeedLog {
    pub id: u128,
    pub time: Timestamp,
    pub feed_id: u128,
    pub success: bool,
    pub message: Option<String>,
}

/// A feed as a value of mathematics.
pub struct FeedView {
    pub id: u128,
    pub url: Seq<char>,
    pub title: Seq<char>,
    pub kind: FeedKind,
    pub disabled: bool,
    pub icon: Option<Seq<char>>,
    pub html_url: Option<Seq<char>>,
}

/// An article as a value of mathematics.
pub struct ArticleView {
    pub id: u128,
    pub feed_id: u128,
    pub article_id: Seq<char>,
    pub title: Seq<char>,
    pub content: Seq<char>,
    pub link: Option<Seq<char>>,
    pub published: Timestamp,
}

/// What an item brings, as a value of mathematics.
pub struct ArticleNewView {
    pub content: Seq<char>,
    pub feed_id: u128,
    pub article_id: Seq<char>,
    pub title: Seq<char>,
    pub link: Option<LinkView>,
    pub published: Timestamp,
}

/// A log entry as a value of mathematics.
pub struct FeedLogView {
    pub id: u128,
    pub time: Timestamp,
    pub feed_id: u128,
    pub success: bool,
    pub message: Option<Seq<char>>,
}

impl DeepView for Feed {
    type V = FeedView;

    open spec fn deep_view(&self) -> FeedView {
        FeedView {
            id: self.id,
            url: self.url@,
            title: self.title@,
            kind: self.kind,
            disabled: self.disabled,
            icon: self.icon.deep_view(),
            html_url: self.html_url.deep_view(),
        }
    }
}

impl DeepView for Article {
    type V = ArticleView;

    open spec fn deep_view(&self) -> ArticleView {
        ArticleView {
            id: self.id,
            feed_id: self.feed_id,
            article_id: self.article_id@,
            title: self.title@,
            content: self.content@,
            link: self.link.deep_view(),
            published: self.published,
        }
    }
}

impl DeepView for ArticleNew {
    type V = ArticleNewView;

    open spec fn deep_view(&self) -> ArticleNewView {
        ArticleNewView {
            content: self.content@,
            feed_id: self.feed_id,
            article_id: self.article_id@,
            title: self.title@,
            link: match self.link {
                Some(l) => Some(l@),
                None => None,
            },
            published: self.published,
        }
    }
}

impl DeepView for FeedLog {
    type V = FeedLogView;

    open spec fn deep_view(&self) -> FeedLogView {
        FeedLogView {
            id: self.id,
            time: self.time,
            feed_id: self.feed_id,
            success: self.success,
            message: self.message.deep_view(),
        }
    }
}

/// The text of a link that may be absent.
pub open spec fn link_text(link: Option<LinkView>) -> Option<Seq<char>> {
    match link {
        Some(l) => Some(l.text),
        None => None,
    }
}

/// Whether a stored article is the one that an item names.
pub open spec fn names(data: ArticleNewView, article: ArticleView) -> bool {
    article.feed_id == data.feed_id && article.article_id == data.article_id
}

/// Whether some stored article is the one that an item names.
pub open spec fn is_stored(articles: Seq<ArticleView>, data: ArticleNewView) -> bool {
    exists|i: int| 0 <= i < articles.len() && names(data, #[trigger] articles[i])
}

/// No two articles of one feed bear the same `article_id`.
pub open spec fn unique_keys(articles: Seq<ArticleView>) -> bool {
    forall|i: int, j: int|
        0 <= i < j < articles.len() ==> !(#[trigger] articles[i].feed_id
            == #[trigger] articles[j].feed_id && articles[i].article_id == articles[j].article_id)
}

/// A stored article after an item has been written over it: who it is stays,
/// what it says is the item's.
pub open spec fn overwritten(article: ArticleView, data: ArticleNewView) -> ArticleView {
    ArticleView {
        id: article.id,
        feed_id: article.feed_id,
        article_id: article.article_id,
        title: data.title,
        content: data.content,
        link: link_text(data.link),
        published: data.published,
    }
}

/// The article that an item becomes where none is stored for it yet.
pub open spec fn created(id: u128, data: ArticleNewView) -> ArticleView {
    ArticleView {
        id,
        feed_id: data.feed_id,
        article_id: data.article_id,
        title: data.title,
        content: data.content,
        link: link_text(data.link),
        published: data.published,
    }
}

/// A stored article after an item has been brought: written over if the item
/// names it, else as it was.
pub open spec fn touched(article: ArticleView, data: ArticleNewView) -> ArticleView {
    if names(data, article) {
        overwritten(article, data)
    } else {
        article
    }
}

/// The stored articles after an item has been brought: the article that the
/// item names is written over; where there is none, a new one with the
/// identity `id` comes last.
pub open spec fn upserted(articles: Seq<ArticleView>, id: u128, data: ArticleNewView) -> Seq<
    ArticleView,
> {
    if is_stored(articles, data) {
        Seq::new(articles.len(), |i: int| touched(articles[i], data))
    } else {
        articles.push(created(id, data))
    }
}

/// The stored articles after items have been brought one after the other, the
/// item at position `k` with the identity `ids[k]` on offer.
pub open spec fn upserted_all(
    articles: Seq<ArticleView>,
    ids: Seq<u128>,
    news: Seq<ArticleNewView>,
) -> Seq<ArticleView>
    decreases news.len(),
{
    if news.len() == 0 {
        articles
    } else {
        upserted(
            upserted_all(articles, ids, news.drop_last()),
            ids[news.len() - 1],
            news.last(),
        )
    }
}

/// The feeds after the icon of the feed `feed_id` has been set.
pub open spec fn with_icon(feeds: Seq<FeedView>, feed_id: u128, icon: Seq<char>) -> Seq<FeedView> {
    Seq::new(
        feeds.len(),
        |i: int|
            if feeds[i].id == feed_id {
                FeedView { icon: Some(icon), ..feeds[i] }
            } else {
                feeds[i]
            },
    )
}

/// What is stored, as a value of mathematics.
pub struct StoreView {
    pub feeds: Seq<FeedView>,
    pub articles: Seq<ArticleView>,
    pub logs: Seq<FeedLogView>,
}

/// Feeds, their articles and their refresh logs, held in memory. For a feed
/// and an `article_id` there is at most one article.
pub struct Store {
    feeds: Vec<Feed>,
    articles: Vec<Article>,
    logs: Vec<FeedLog>,
}

impl DeepView for Store {
    type V = StoreView;

    closed spec fn deep_view(&self) -> StoreView {
        StoreView {
            feeds: self.feeds.deep_view(),
            articles: self.articles.deep_view(),
            logs: self.logs.deep_view(),
        }
    }
}

/// `uuid::Uuid::new_v4`, read as a number: a random identifier, of which
/// nothing is promised.
#[verifier::external_body]
fn fresh_id() -> u128 {
    Uuid::new_v4().as_u128()
}

/// Bringing an item keeps the keys apart.
pub proof fn lemma_upserted_unique(articles: Seq<ArticleView>, id: u128, data: ArticleNewView)
    requires
        unique_keys(articles),
    ensures
        unique_keys(upserted(articles, id, data)),
{
    let after = upserted(articles, id, data);
    if is_stored(articles, data) {
        assert forall|i: int, j: int| 0 <= i < j < after.len() implies !(#[trigger] after[i].feed_id
            == #[trigger] after[j].feed_id && after[i].article_id == after[j].article_id) by {
            assert(after[i].feed_id == articles[i].feed_id);
            assert(after[j].feed_id == articles[j].feed_id);
        }
    } else {
        assert forall|i: int, j: int| 0 <= i < j < after.len() implies !(#[trigger] after[i].feed_id
            == #[trigger] after[j].feed_id && after[i].article_id == after[j].article_id) by {
            if j == articles.len() {
                assert(!names(data, articles[i]));
            } else {
                assert(after[i].feed_id == articles[i].feed_id);
                assert(after[j].feed_id == articles[j].feed_id);
            }
        }
    }
}

/// Only the identities on offer to the items count.
pub proof fn lemma_upserted_all_ids(
    articles: Seq<ArticleView>,
    ids: Seq<u128>,
    others: Seq<u128>,
    news: Seq<ArticleNewView>,
)
    requires
        forall|k: int| 0 <= k < news.len() ==> ids[k] == others[k],
    ensures
        upserted_all(articles, ids, news) == upserted_all(articles, others, news),
    decreases news.len(),
{
    if news.len() > 0 {
        lemma_upserted_all_ids(articles, ids, others, news.drop_last());
    }
}

/// Bringing items one after the other keeps the keys apart.
pub proof fn lemma_upserted_all_unique(
    articles: Seq<ArticleView>,
    ids: Seq<u128>,
    news: Seq<ArticleNewView>,
)
    requires
        unique_keys(articles),
    ensures
        unique_keys(upserted_all(articles, ids, news)),
    decreases news.len(),
{
    if news.len() > 0 {
        lemma_upserted_all_unique(articles, ids, news.drop_last());
        lemma_upserted_unique(
            upserted_all(articles, ids, news.drop_last()),
            ids[news.len() - 1],
            news.last(),
        );
    }
}

/// A stored article after items have been brought one after the other.
pub open spec fn touched_all(article: ArticleView, news: Seq<ArticleNewView>) -> ArticleView
    decreases news.len(),
{
    if news.len() == 0 {
        article
    } else {
        touched(touched_all(article, news.drop_last()), news.last())
    }
}

/// Whether each of the items names some stored article.
pub open spec fn all_stored(articles: Seq<ArticleView>, news: Seq<ArticleNewView>) -> bool {
    forall|k: int| 0 <= k < news.len() ==> is_stored(articles, #[trigger] news[k])
}

/// Whatever is brought, a stored article stays who it is.
pub proof fn lemma_touched_all_identity(article: ArticleView, news: Seq<ArticleNewView>)
    ensures
        touched_all(article, news).id == article.id,
        touched_all(article, news).feed_id == article.feed_id,
        touched_all(article, news).article_id == article.article_id,
    decreases news.len(),
{
    if news.len() > 0 {
        lemma_touched_all_identity(article, news.drop_last());
    }
}

/// Once an item has been brought, the article that it names is stored, and so
/// is every article that was stored before.
pub proof fn lemma_upserted_stored(
    articles: Seq<ArticleView>,
    id: u128,
    data: ArticleNewView,
    other: ArticleNewView,
)
    ensures
        is_stored(upserted(articles, id, data), data),
        is_stored(articles, other) ==> is_stored(upserted(articles, id, data), other),
{
    let after = upserted(articles, id, data);
    if is_stored(articles, data) {
        let i = choose|i: int| 0 <= i < articles.len() && names(data, #[trigger] articles[i]);
        assert(names(data, after[i]));
    } else {
        assert(names(data, after[articles.len() as int]));
    }
    if is_stored(articles, other) {
        let j = choose|j: int| 0 <= j < articles.len() && names(other, #[trigger] articles[j]);
        assert(names(other, after[j]));
    }
}

/// Bringing items one after the other loses no stored article.
pub proof fn lemma_upserted_all_keeps(
    articles: Seq<ArticleView>,
    ids: Seq<u128>,
    news: Seq<ArticleNewView>,
    other: ArticleNewView,
)
    requires
        is_stored(articles, other),
    ensures
        is_stored(upserted_all(articles, ids, news), other),
    decreases news.len(),
{
    if news.len() > 0 {
        lemma_upserted_all_keeps(articles, ids, news.drop_last(), other);
        lemma_upserted_stored(
            upserted_all(articles, ids, news.drop_last()),
            ids[news.len() - 1],
            news.last(),
            other,
        );
    }
}

/// Once items have been brought one after the other, the article that each
/// of them names is stored.
pub proof fn lemma_upserted_all_stored(
    articles: Seq<ArticleView>,
    ids: Seq<u128>,
    news: Seq<ArticleNewView>,
)
    ensures
        all_stored(upserted_all(articles, ids, news), news),
    decreases news.len(),
{
    if news.len() > 0 {
        let before = upserted_all(articles, ids, news.drop_last());
        let id = ids[news.len() - 1];
        lemma_upserted_all_stored(articles, ids, news.drop_last());
        assert forall|k: int| 0 <= k < news.len() implies is_stored(
            upserted_all(articles, ids, news),
            #[trigger] news[k],
        ) by {
            if k < news.len() - 1 {
                assert(news[k] == news.drop_last()[k]);
            }
            lemma_upserted_stored(before, id, news.last(), news[k]);
        }
    }
}

/// Every article that was stored before items were brought is stored after,
/// at its place, written over by the items that name it.
pub proof fn lemma_upserted_all_rows(
    articles: Seq<ArticleView>,
    ids: Seq<u128>,
    news: Seq<ArticleNewView>,
)
    ensures
        upserted_all(articles, ids, news).len() >= articles.len(),
        forall|i: int|
            0 <= i < articles.len() ==> #[trigger] upserted_all(articles, ids, news)[i]
                == touched_all(articles[i], news),
    decreases news.len(),
{
    if news.len() > 0 {
        let before = upserted_all(articles, ids, news.drop_last());
        lemma_upserted_all_rows(articles, ids, news.drop_last());
        assert forall|i: int| 0 <= i < articles.len() implies #[trigger] upserted_all(
            articles,
            ids,
            news,
        )[i] == touched_all(articles[i], news) by {
            assert(before[i] == touched_all(articles[i], news.drop_last()));
            if !is_stored(before, news.last()) {
                assert(!names(news.last(), before[i]));
            }
        }
    }
}

/// Where each of the items names a stored article, bringing them adds none:
/// every article is written over by the items that name it.
pub proof fn lemma_upserted_all_closed(
    articles: Seq<ArticleView>,
    ids: Seq<u128>,
    news: Seq<ArticleNewView>,
)
    requires
        all_stored(articles, news),
    ensures
        upserted_all(articles, ids, news) == Seq::new(
            articles.len(),
            |i: int| touched_all(articles[i], news),
        ),
    decreases news.len(),
{
    let wanted = Seq::new(articles.len(), |i: int| touched_all(articles[i], news));
    if news.len() == 0 {
        assert(upserted_all(articles, ids, news) =~= wanted);
    } else {
        let before = upserted_all(articles, ids, news.drop_last());
        assert(all_stored(articles, news.drop_last())) by {
            assert forall|k: int| 0 <= k < news.drop_last().len() implies is_stored(
                articles,
                #[trigger] news.drop_last()[k],
            ) by {
                assert(news.drop_last()[k] == news[k]);
            }
        }
        lemma_upserted_all_closed(articles, ids, news.drop_last());
        assert(is_stored(articles, news[news.len() - 1]));
        let i = choose|i: int| 0 <= i < articles.len() && names(news.last(), #[trigger] articles[i]);
        lemma_touched_all_identity(articles[i], news.drop_last());
        assert(names(news.last(), before[i]));
        assert(is_stored(before, news.last()));
        assert(upserted_all(articles, ids, news) =~= wanted);
    }
}

/// Once items have been brought one after the other, bringing them again
/// would change no stored article.
pub proof fn lemma_upserted_all_settled(
    articles: Seq<ArticleView>,
    ids: Seq<u128>,
    news: Seq<ArticleNewView>,
    i: int,
)
    requires
        0 <= i < upserted_all(articles, ids, news).len(),
    ensures
        touched_all(upserted_all(articles, ids, news)[i], news) == upserted_all(
            articles,
            ids,
            news,
        )[i],
    decreases news.len(),
{
    if news.len() > 0 {
        let before = upserted_all(articles, ids, news.drop_last());
        let id = ids[news.len() - 1];
        let last = news.last();
        let row = upserted_all(articles, ids, news)[i];
        lemma_touched_all_identity(row, news.drop_last());
        if is_stored(before, last) {
            lemma_upserted_all_settled(articles, ids, news.drop_last(), i);
            if names(last, before[i]) {
                assert(row == overwritten(before[i], last));
            } else {
                assert(row == before[i]);
            }
        } else {
            if i < before.len() {
                lemma_upserted_all_settled(articles, ids, news.drop_last(), i);
                assert(!names(last, before[i]));
                assert(row == before[i]);
            } else {
                assert(row == created(id, last));
            }
        }
    }
}

/// Bringing two runs of items one after the other is bringing the first
/// run, then the second.
pub proof fn lemma_touched_all_append(
    article: ArticleView,
    first: Seq<ArticleNewView>,
    second: Seq<ArticleNewView>,
)
    ensures
        touched_all(article, first + second) == touched_all(touched_all(article, first), second),
    decreases second.len(),
{
    if second.len() == 0 {
        assert(first + second =~= first);
    } else {
        lemma_touched_all_append(article, first, second.drop_last());
        assert((first + second).drop_last() =~= first + second.drop_last());
        assert((first + second).last() == second.last());
    }
}

/// Bringing the same items a second time changes no stored article, whatever
/// identities are on offer.
pub proof fn lemma_upserted_all_twice(
    articles: Seq<ArticleView>,
    ids: Seq<u128>,
    others: Seq<u128>,
    news: Seq<ArticleNewView>,
)
    ensures
        upserted_all(upserted_all(articles, ids, news), others, news) == upserted_all(
            articles,
            ids,
            news,
        ),
{
    let once = upserted_all(articles, ids, news);
    lemma_upserted_all_stored(articles, ids, news);
    lemma_upserted_all_closed(once, others, news);
    assert forall|i: int| 0 <= i < once.len() implies touched_all(once[i], news) == once[i] by {
        lemma_upserted_all_settled(articles, ids, news, i);
    }
    assert(upserted_all(once, others, news) =~= once);
}

impl Store {
    /// What holds of every store that this library hands out: no two
    /// articles of one feed bear the same `article_id`.
    pub open spec fn wf(&self) -> bool {
        unique_keys(self.deep_view().articles)
    }

    /// A store that holds nothing.
    pub fn new() -> (r: Store)
        ensures
            r.deep_view().feeds.len() == 0,
            r.deep_view().articles.len() == 0,
            r.deep_view().logs.len() == 0,
            r.wf(),
    {
        Store { feeds: Vec::new(), articles: Vec::new(), logs: Vec::new() }
    }

    /// The feeds, in the order in which they came.
    pub fn feeds(&self) -> (r: &Vec<Feed>)
        ensures
            r.deep_view() == self.deep_view().feeds,
    {
        &self.feeds
    }

    /// The articles, in the order in which they came.
    pub fn articles(&self) -> (r: &Vec<Article>)
        ensures
            r.deep_view() == self.deep_view().articles,
    {
        &self.articles
    }

    /// The log entries, oldest first.
    pub fn logs(&self) -> (r: &Vec<FeedLog>)
        ensures
            r.deep_view() == self.deep_view().logs,
    {
        &self.logs
    }

    /// Registers a feed.
    pub fn add_feed(&mut self, feed: Feed)
        ensures
            final(self).deep_view() == (StoreView {
                feeds: old(self).deep_view().feeds.push(feed.deep_view()),
                ..old(self).deep_view()
            }),
    {
        let ghost before = self.feeds.deep_view();
        self.feeds.push(feed);
        assert(self.feeds.deep_view() =~= before.push(feed.deep_view()));
    }

    /// Sets the icon of the feed `feed_id`. Where no such feed is stored,
    /// nothing changes.
    pub fn update_feed_icon(&mut self, feed_id: u128, icon: &str)
        ensures
            final(self).deep_view() == (StoreView {
                feeds: with_icon(old(self).deep_view().feeds, feed_id, icon@),
                ..old(self).deep_view()
            }),
    {
        let ghost before = self.feeds.deep_view();
        let mut i: usize = 0;
        while i < self.feeds.len()
            invariant
                i <= self.feeds.len(),
                self.feeds.len() == before.len(),
                self.articles == old(self).articles,
                self.logs == old(self).logs,
                forall|k: int|
                    0 <= k < i ==> (#[trigger] self.feeds[k]).deep_view() == with_icon(
                        before,
                        feed_id,
                        icon@,
                    )[k],
                forall|k: int|
                    i <= k < before.len() ==> (#[trigger] self.feeds[k]).deep_view() == before[k],
            decreases self.feeds.len() - i,
        {
            if self.feeds[i].id == feed_id {
                let feed = &self.feeds[i];
                let changed = Feed {
                    id: feed.id,
                    url: feed.url.clone(),
                    title: feed.title.clone(),
                    kind: feed.kind,
                    disabled: feed.disabled,
                    icon: Some(icon.to_owned()),
                    html_url: feed.html_url.clone(),
                };
                self.feeds.set(i, changed);
            }
            i += 1;
        }
        assert(self.feeds.deep_view() =~= with_icon(before, feed_id, icon@));
    }

    /// Brings an item: the article that it names is written over; where there
    /// is none, a new one with the identity `id` comes last. Hands out a copy
    /// of the article as it is stored now.
    pub fn upsert_article(&mut self, id: u128, data: ArticleNew) -> (r: Article)
        requires
            old(self).wf(),
        ensures
            final(self).deep_view() == (StoreView {
                articles: upserted(old(self).deep_view().articles, id, data.deep_view()),
                ..old(self).deep_view()
            }),
            final(self).wf(),
            names(data.deep_view(), r.deep_view()),
            r.deep_view() == touched(r.deep_view(), data.deep_view()),
            final(self).deep_view().articles.contains(r.deep_view()),
    {
        proof {
            lemma_upserted_unique(self.articles.deep_view(), id, data.deep_view());
        }
        let ghost before = self.articles.deep_view();
        let ghost item = data.deep_view();
        let mut i: usize = 0;
        while i < self.articles.len()
            invariant
                i <= self.articles.len(),
                self.articles.deep_view() == before,
                item == data.deep_view(),
                before == old(self).deep_view().articles,
                unique_keys(before),
                self.feeds == old(self).feeds,
                self.logs == old(self).logs,
                forall|k: int| 0 <= k < i ==> !names(item, #[trigger] before[k]),
            decreases self.articles.len() - i,
        {
            let found = self.articles[i].feed_id == data.feed_id && self.articles[i].article_id
                == data.article_id;
            assert(found == names(item, before[i as int])) by {
                assert(before[i as int] == self.articles[i as int].deep_view());
            }
            if found {
                let stored = &self.articles[i];
                let link = match &data.link {
                    Some(l) => Some(l.text.clone()),
                    None => None,
                };
                let copy = Article {
                    id: stored.id,
                    feed_id: stored.feed_id,
                    article_id: stored.article_id.clone(),
                    title: data.title.clone(),
                    content: data.content.clone(),
                    link: link.clone(),
                    published: data.published,
                };
                let changed = Article {
                    id: stored.id,
                    feed_id: stored.feed_id,
                    article_id: stored.article_id.clone(),
                    title: data.title,
                    content: data.content,
                    link,
                    published: data.published,
                };
                assert(changed.deep_view() == overwritten(before[i as int], item));
                self.articles.set(i, changed);
                proof {
                    let after = self.articles.deep_view();
                    let wanted = upserted(before, id, item);
                    assert(is_stored(before, item));
                    assert forall|k: int| 0 <= k < before.len() implies after[k] == wanted[k] by {
                        if k != i {
                            assert(after[k] == before[k]);
                            if k > i && names(item, before[k]) {
                                assert(before[i as int].feed_id == before[k].feed_id);
                            }
                            assert(!names(item, before[k]));
                        }
                    }
                    assert(after =~= wanted);
                    assert(copy.deep_view() == after[i as int]);
                }
                return copy;
            }
            i += 1;
        }
        let link = match &data.link {
            Some(l) => Some(l.text.clone()),
            None => None,
        };
        let copy = Article {
            id,
            feed_id: data.feed_id,
            article_id: data.article_id.clone(),
            title: data.title.clone(),
            content: data.content.clone(),
            link: link.clone(),
            published: data.published,
        };
        let fresh = Article {
            id,
            feed_id: data.feed_id,
            article_id: data.article_id,
            title: data.title,
            content: data.content,
            link,
            published: data.published,
        };
        assert(fresh.deep_view() == created(id, item));
        self.articles.push(fresh);
        proof {
            let after = self.articles.deep_view();
            assert(!is_stored(before, item));
            assert(after =~= before.push(created(id, item)));
            assert(copy.deep_view() == after[before.len() as int]);
        }
        copy
    }

    /// Appends an entry to the refresh log.
    pub fn append_log(&mut self, entry: FeedLog)
        ensures
            final(self).deep_view() == (StoreView {
                logs: old(self).deep_view().logs.push(entry.deep_view()),
                ..old(self).deep_view()
            }),
    {
        let ghost before = self.logs.deep_view();
        self.logs.push(entry);
        assert(self.logs.deep_view() =~= before.push(entry.deep_view()));
    }
}

impl Feed {
    /// Registers a feed under a fresh identity: enabled, without icon.
    pub fn create(store: &mut Store, url: &Link, title: String, kind: FeedKind) -> (r: Feed)
        ensures
            r.deep_view() == (FeedView {
                id: r.id,
                url: url@.text,
                title: title@,
                kind,
                disabled: false,
                icon: None,
                html_url: None,
            }),
            final(store).deep_view() == (StoreView {
                feeds: old(store).deep_view().feeds.push(r.deep_view()),
                ..old(store).deep_view()
            }),
    {
        let id = fresh_id();
        let feed = Feed {
            id,
            url: url.text.clone(),
            title: title.clone(),
            kind,
            disabled: false,
            icon: None,
            html_url: None,
        };
        store.add_feed(feed);
        Feed { id, url: url.text.clone(), title, kind, disabled: false, icon: None, html_url: None }
    }
}

impl Article {
    /// Brings an item to the store, with a fresh identity on offer: the
    /// article that the item names is written over; where there is none, a
    /// new one comes last. Hands out a copy of the article as it is stored.
    pub fn create(store: &mut Store, data: ArticleNew) -> (r: Article)
        requires
            old(store).wf(),
        ensures
            final(store).wf(),
            exists|id: u128|
                final(store).deep_view() == (StoreView {
                    articles: #[trigger] upserted(
                        old(store).deep_view().articles,
                        id,
                        data.deep_view(),
                    ),
                    ..old(store).deep_view()
                }),
            names(data.deep_view(), r.deep_view()),
            r.deep_view() == touched(r.deep_view(), data.deep_view()),
            final(store).deep_view().articles.contains(r.deep_view()),
    {
        let id = fresh_id();
        store.upsert_article(id, data)
    }
}

impl FeedLog {
    /// Appends an entry, under a fresh identity, to the refresh log.
    pub fn create(
        store: &mut Store,
        time: Timestamp,
        feed_id: u128,
        success: bool,
        message: Option<String>,
    ) -> (r: FeedLog)
        ensures
            r.deep_view() == (FeedLogView {
                id: r.id,
                time,
                feed_id,
                success,
                message: message.deep_view(),
            }),
            final(store).deep_view() == (StoreView {
                logs: old(store).deep_view().logs.push(r.deep_view()),
                ..old(store).deep_view()
            }),
    {
        let id = fresh_id();
        store.append_log(FeedLog { id, time, feed_id, success, message: message.clone() });
        FeedLog { id, time, feed_id, success, message }
    }
}

} // verus!
