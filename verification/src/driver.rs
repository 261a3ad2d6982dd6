//! Refreshing feeds on a store in memory, the answers of the network being
//! given: the state machine of `refresh` is driven to its end, and what is
//! stored afterwards is said in full.

use crate::clock::Timestamp;
use crate::error::{AppError, AppErrorView};
use crate::feed::{Channel, ChannelView};
use crate::icon::{icon_candidate, icon_of_reply, HttpReply, HttpReplyView};
use crate::refresh::{
    advanced, articles_between, errors_between, first_stored, icon_error, icon_failure,
    lemma_articles_split, lemma_errors_split, lemma_first_stored, lemma_stepped_wf, log_message,
    outcome, stepped, Action, ActionView, Event, EventView, Outcome, Phase, Refresher,
    RefresherView,
};
use crate::store::{
    lemma_upserted_all_ids, upserted, upserted_all, with_icon, Article, Feed, FeedLog,
    FeedLogView, FeedView, Store, StoreView,
};
use vstd::prelude::*;

verus! {

/// What the network answers for one feed: the feed document, or why there is
/// none; and the server's answer on the icon, or why there is none. The
/// second is looked at only if there is a place to look for the icon.
#[derive(Debug)]
pub struct Fetched {
    pub channel: Result<Channel, String>,
    pub icon: Result<HttpReply, String>,
}

/// The network's answer as a value of mathematics.
pub struct FetchedView {
    pub channel: Result<ChannelView, Seq<char>>,
    pub icon: Result<HttpReplyView, Seq<char>>,
}

impl DeepView for Fetched {
    type V = FetchedView;

    open spec fn deep_view(&self) -> FetchedView {
        FetchedView {
            channel: match self.channel {
                Ok(c) => Ok(c.deep_view()),
                Err(why) => Err(why@),
            },
            icon: match self.icon {
                Ok(reply) => Ok(reply.deep_view()),
                Err(why) => Err(why@),
            },
        }
    }
}

/// How the search for an icon ends: the icon to store, if one was found, and
/// the errors that go on record.
pub struct IconOutcome {
    pub icon: Option<Seq<char>>,
    pub errors: Seq<AppErrorView>,
}

/// How the search for the icon of a channel ends, given the server's answer.
pub open spec fn icon_outcome(channel: ChannelView, answer: Result<HttpReplyView, Seq<char>>) -> IconOutcome {
    match icon_candidate(channel) {
        Err(e) => IconOutcome { icon: None, errors: seq![icon_error(e)] },
        Ok(None) => IconOutcome { icon: None, errors: Seq::empty() },
        Ok(Some(_)) => match answer {
            Err(why) => IconOutcome {
                icon: None,
                errors: seq![AppErrorView::IconResolutionFailure(icon_failure(why))],
            },
            Ok(reply) => match icon_of_reply(reply) {
                Err(e) => IconOutcome { icon: None, errors: seq![icon_error(e)] },
                Ok(None) => IconOutcome { icon: None, errors: Seq::empty() },
                Ok(Some(link)) => IconOutcome { icon: Some(link.text), errors: Seq::empty() },
            },
        },
    }
}

/// The feeds after the search for an icon.
pub open spec fn feeds_after(feeds: Seq<FeedView>, feed_id: u128, icon: Option<Seq<char>>) -> Seq<
    FeedView,
> {
    match icon {
        Some(icon) => with_icon(feeds, feed_id, icon),
        None => feeds,
    }
}

/// The errors that the refresh of a channel puts on record: those of the
/// search for the icon, then those of the items.
pub open spec fn caveats(
    feed_id: u128,
    now: Timestamp,
    channel: ChannelView,
    answer: Result<HttpReplyView, Seq<char>>,
) -> Seq<AppErrorView> {
    icon_outcome(channel, answer).errors + errors_between(
        feed_id,
        now,
        channel.items,
        0,
        channel.items.len() as int,
    )
}

/// The log entry that a refresh leaves.
pub open spec fn log_entry(
    id: u128,
    feed_id: u128,
    now: Timestamp,
    fetched: FetchedView,
) -> FeedLogView {
    match fetched.channel {
        Err(why) => FeedLogView { id, time: now, feed_id, success: false, message: Some(why) },
        Ok(channel) => FeedLogView {
            id,
            time: now,
            feed_id,
            success: true,
            message: Some(log_message(caveats(feed_id, now, channel, fetched.icon))),
        },
    }
}

/// What is stored after the feed `feed_id` has been refreshed at the instant
/// `now`, the network having answered `fetched`. Without a feed document
/// only the log grows. With one, the icon is set if one was found, every
/// item that can be read and has a body is brought to the articles, in
/// document order, and the log grows by an entry that lists what went wrong
/// on the way. `ids` are the identities on offer to the articles, `log_id`
/// is that of the log entry.
pub open spec fn refreshed(
    store: StoreView,
    feed_id: u128,
    fetched: FetchedView,
    now: Timestamp,
    ids: Seq<u128>,
    log_id: u128,
) -> StoreView {
    let logs = store.logs.push(log_entry(log_id, feed_id, now, fetched));
    match fetched.channel {
        Err(_) => StoreView { logs, ..store },
        Ok(channel) => StoreView {
            feeds: feeds_after(store.feeds, feed_id, icon_outcome(channel, fetched.icon).icon),
            articles: upserted_all(
                store.articles,
                ids,
                articles_between(feed_id, now, channel.items, 0, channel.items.len() as int),
            ),
            logs,
        },
    }
}

/// How a refresh ends for its caller: only a feed document that could not be
/// had makes it fail.
pub open spec fn refresh_result(fetched: FetchedView) -> Result<(), AppErrorView> {
    match fetched.channel {
        Err(why) => Err(AppErrorView::FetchFailure(why)),
        Ok(_) => Ok(()),
    }
}

/// The view of a refresh's end.
pub open spec fn result_view(r: Result<(), AppError>) -> Result<(), AppErrorView> {
    match r {
        Ok(_) => Ok(()),
        Err(e) => Err(e.deep_view()),
    }
}

/// Whether a refresh that is under way is where it should be: `store` is
/// what has become of `origin`, `ids` are the identities that were on offer
/// so far.
spec fn on_course(
    m: RefresherView,
    action: ActionView,
    store: StoreView,
    origin: StoreView,
    feed_id: u128,
    fetched: FetchedView,
    now: Timestamp,
    ids: Seq<u128>,
    log_id: u128,
) -> bool {
    &&& m.wf()
    &&& m.feed_id == feed_id
    &&& m.now == now
    &&& match m.phase {
        Phase::Downloading => false,
        Phase::LoggingFailure => {
            &&& fetched.channel matches Err(why)
            &&& action == (ActionView::AppendLog { feed_id, success: false, message: why })
            &&& m.failure == Some(AppErrorView::FetchFailure(why))
            &&& store == origin
        },
        Phase::FetchingIcon => {
            &&& fetched.channel matches Ok(channel)
            &&& icon_candidate(channel) matches Ok(Some(link))
            &&& action == (ActionView::FetchIcon { url: link.text })
            &&& m.items == channel.items
            &&& m.next == 0
            &&& m.errors == Seq::<AppErrorView>::empty()
            &&& store == origin
            &&& ids.len() == 0
        },
        Phase::StoringIcon => {
            &&& fetched.channel matches Ok(channel)
            &&& icon_outcome(channel, fetched.icon).icon matches Some(icon)
            &&& action == (ActionView::UpdateIcon { feed_id, icon })
            &&& m.items == channel.items
            &&& m.next == 0
            &&& m.errors == Seq::<AppErrorView>::empty()
            &&& store == origin
            &&& ids.len() == 0
        },
        Phase::Upserting => {
            &&& fetched.channel matches Ok(channel)
            &&& m.items == channel.items
            &&& 1 <= m.next
            &&& outcome(feed_id, now, channel.items[m.next - 1]) matches Outcome::Stored {
                article,
                ..
            }
            &&& action == (ActionView::Upsert { article })
            &&& store.feeds == feeds_after(
                origin.feeds,
                feed_id,
                icon_outcome(channel, fetched.icon).icon,
            )
            &&& store.logs == origin.logs
            &&& store.articles == upserted_all(
                origin.articles,
                ids,
                articles_between(feed_id, now, channel.items, 0, m.next - 1),
            )
            &&& ids.len() == articles_between(feed_id, now, channel.items, 0, m.next - 1).len()
            &&& m.errors == icon_outcome(channel, fetched.icon).errors + errors_between(
                feed_id,
                now,
                channel.items,
                0,
                m.next,
            )
        },
        Phase::LoggingSuccess => {
            &&& fetched.channel matches Ok(channel)
            &&& m.items == channel.items
            &&& m.next == channel.items.len()
            &&& action == (ActionView::AppendLog {
                feed_id,
                success: true,
                message: log_message(caveats(feed_id, now, channel, fetched.icon)),
            })
            &&& store.feeds == feeds_after(
                origin.feeds,
                feed_id,
                icon_outcome(channel, fetched.icon).icon,
            )
            &&& store.logs == origin.logs
            &&& store.articles == upserted_all(
                origin.articles,
                ids,
                articles_between(feed_id, now, channel.items, 0, channel.items.len() as int),
            )
        },
        Phase::Done => {
            &&& action == (ActionView::Finish { result: refresh_result(fetched) })
            &&& store == refreshed(origin, feed_id, fetched, now, ids, log_id)
        },
    }
}

/// A refresh that goes on with its items from the start, the icon being
/// settled, is on course.
proof fn lemma_items_entered(
    m: RefresherView,
    store: StoreView,
    origin: StoreView,
    feed_id: u128,
    fetched: FetchedView,
    now: Timestamp,
    log_id: u128,
)
    requires
        m.wf(),
        m.feed_id == feed_id,
        m.now == now,
        m.next == 0,
        fetched.channel matches Ok(channel) && m.items == channel.items && m.errors == icon_outcome(
            channel,
            fetched.icon,
        ).errors && store.feeds == feeds_after(
            origin.feeds,
            feed_id,
            icon_outcome(channel, fetched.icon).icon,
        ),
        store.logs == origin.logs,
        store.articles == origin.articles,
    ensures
        on_course(
            advanced(m).0,
            advanced(m).1,
            store,
            origin,
            feed_id,
            fetched,
            now,
            Seq::empty(),
            log_id,
        ),
        advanced(m).0.phase == Phase::LoggingSuccess || advanced(m).0.phase == Phase::Upserting,
{
    let items = m.items;
    let first = first_stored(feed_id, now, items, 0);
    lemma_first_stored(feed_id, now, items, 0);
    if first < items.len() {
        assert(errors_between(feed_id, now, items, 0, first + 1) == errors_between(
            feed_id,
            now,
            items,
            0,
            first + 1,
        ));
    } else {
        assert(first == items.len());
    }
}

/// A refresh that goes on with its items after one of them has been brought
/// to the storage is on course.
proof fn lemma_item_brought(
    m: RefresherView,
    action: ActionView,
    before: StoreView,
    store: StoreView,
    origin: StoreView,
    feed_id: u128,
    fetched: FetchedView,
    now: Timestamp,
    ids: Seq<u128>,
    id: u128,
    log_id: u128,
)
    requires
        m.phase == Phase::Upserting,
        on_course(m, action, before, origin, feed_id, fetched, now, ids, log_id),
        action matches ActionView::Upsert { article } && store == (StoreView {
            articles: upserted(before.articles, id, article),
            ..before
        }),
    ensures
        on_course(
            advanced(m).0,
            advanced(m).1,
            store,
            origin,
            feed_id,
            fetched,
            now,
            ids.push(id),
            log_id,
        ),
        advanced(m).0.items == m.items,
        advanced(m).0.phase == Phase::LoggingSuccess || (advanced(m).0.phase == Phase::Upserting
            && advanced(m).0.next > m.next),
{
    let items = m.items;
    let n = m.next;
    let article = action->Upsert_article;
    let first = first_stored(feed_id, now, items, n);
    let upto = if first < items.len() {
        first + 1
    } else {
        items.len() as int
    };
    lemma_first_stored(feed_id, now, items, n);
    let done = articles_between(feed_id, now, items, 0, n - 1);
    let with_this = articles_between(feed_id, now, items, 0, n);
    assert(with_this =~= done.push(article));
    assert(with_this.drop_last() =~= done);
    lemma_upserted_all_ids(origin.articles, ids, ids.push(id), done);
    assert(store.articles == upserted_all(origin.articles, ids.push(id), with_this));
    lemma_articles_split(feed_id, now, items, 0, n, first);
    assert(articles_between(feed_id, now, items, 0, first) =~= with_this);
    lemma_errors_split(feed_id, now, items, 0, n, upto);
    let channel = fetched.channel->Ok_0;
    assert(advanced(m).0.errors =~= icon_outcome(channel, fetched.icon).errors + errors_between(
        feed_id,
        now,
        items,
        0,
        upto,
    ));
}

/// How far a refresh is from its end, by what it waits for.
spec fn rank(phase: Phase) -> nat {
    match phase {
        Phase::Downloading => 6,
        Phase::FetchingIcon => 5,
        Phase::StoringIcon => 4,
        Phase::Upserting => 3,
        Phase::LoggingSuccess => 2,
        Phase::LoggingFailure => 2,
        Phase::Done => 1,
    }
}

/// Carries a refresh that has just begun to its end, on a store in memory:
/// the network's answers are `fetched`, and every write goes through.
fn complete(begun: Refresher, store: &mut Store, fetched: Fetched, now: Timestamp) -> (r: Result<
    (),
    AppError,
>)
    requires
        old(store).wf(),
        begun.deep_view().wf(),
        begun.deep_view().phase == Phase::Downloading,
        begun.deep_view().errors == Seq::<AppErrorView>::empty(),
        begun.deep_view().now == now,
    ensures
        final(store).wf(),
        result_view(r) == refresh_result(fetched.deep_view()),
        exists|ids: Seq<u128>, log_id: u128|
            final(store).deep_view() == #[trigger] refreshed(
                old(store).deep_view(),
                begun.deep_view().feed_id,
                fetched.deep_view(),
                now,
                ids,
                log_id,
            ),
{
    let ghost origin = store.deep_view();
    let ghost f = fetched.deep_view();
    let ghost feed_id = begun.deep_view().feed_id;
    let ghost mut ids: Seq<u128> = Seq::empty();
    let ghost mut log_id: u128 = 0;
    let Fetched { channel, icon } = fetched;
    let ghost downloaded = Event::Downloaded(channel).deep_view();
    let (m, action) = begun.step(Event::Downloaded(channel));
    proof {
        lemma_stepped_wf(begun.deep_view(), downloaded);
        match f.channel {
            Err(_) => {},
            Ok(c) => {
                let loaded = RefresherView { items: c.items, next: 0, ..begun.deep_view() };
                match icon_candidate(c) {
                    Err(e) => {
                        lemma_items_entered(
                            loaded.with_error(icon_error(e)),
                            origin,
                            origin,
                            feed_id,
                            f,
                            now,
                            log_id,
                        );
                    },
                    Ok(None) => {
                        lemma_items_entered(loaded, origin, origin, feed_id, f, now, log_id);
                    },
                    Ok(Some(_)) => {},
                }
            },
        }
    }
    let ghost asked = m.deep_view();
    let ghost answered = Event::IconFetched(icon).deep_view();
    let (m, action) = match action {
        Action::FetchIcon { url } => m.step(Event::IconFetched(icon)),
        other => (m, other),
    };
    proof {
        lemma_stepped_wf(asked, answered);
        if asked.phase == Phase::FetchingIcon {
            let c = f.channel->Ok_0;
            match f.icon {
                Err(why) => {
                    lemma_items_entered(
                        asked.with_error(AppErrorView::IconResolutionFailure(icon_failure(why))),
                        origin,
                        origin,
                        feed_id,
                        f,
                        now,
                        log_id,
                    );
                },
                Ok(reply) => match icon_of_reply(reply) {
                    Err(e) => {
                        lemma_items_entered(
                            asked.with_error(icon_error(e)),
                            origin,
                            origin,
                            feed_id,
                            f,
                            now,
                            log_id,
                        );
                    },
                    Ok(None) => {
                        lemma_items_entered(asked, origin, origin, feed_id, f, now, log_id);
                    },
                    Ok(Some(_)) => {},
                },
            }
        }
    }
    let mut m = m;
    let mut action = action;
    loop
        invariant
            store.wf(),
            on_course(
                m.deep_view(),
                action.deep_view(),
                store.deep_view(),
                origin,
                feed_id,
                f,
                now,
                ids,
                log_id,
            ),
            m.deep_view().phase != Phase::FetchingIcon,
            origin == old(store).deep_view(),
            f == fetched.deep_view(),
            feed_id == begun.deep_view().feed_id,
        decreases rank(m.deep_view().phase), m.deep_view().items.len() - m.deep_view().next,
    {
        let ghost before = store.deep_view();
        let ghost state = m.deep_view();
        let ghost asked = action.deep_view();
        let ghost written = EventView::Written(Ok(()));
        let event = match action {
            Action::UpdateIcon { feed_id: feed, icon } => {
                store.update_feed_icon(feed, icon.as_str());
                proof {
                    lemma_items_entered(state, store.deep_view(), origin, feed_id, f, now, log_id);
                    assert(stepped(state, written) == advanced(state));
                    assert(ids =~= Seq::empty());
                }
                Event::Written(Ok(()))
            },
            Action::Upsert { article } => {
                let ghost brought = article.deep_view();
                let _ = Article::create(store, article);
                proof {
                    let id = choose|id: u128|
                        store.deep_view() == (StoreView {
                            articles: #[trigger] upserted(before.articles, id, brought),
                            ..before
                        });
                    lemma_item_brought(
                        state,
                        asked,
                        before,
                        store.deep_view(),
                        origin,
                        feed_id,
                        f,
                        now,
                        ids,
                        id,
                        log_id,
                    );
                    ids = ids.push(id);
                    assert(stepped(state, written) == advanced(state));
                }
                Event::Written(Ok(()))
            },
            Action::AppendLog { feed_id: feed, success, message } => {
                let entry = FeedLog::create(store, now, feed, success, Some(message));
                proof {
                    log_id = entry.id;
                    assert(entry.deep_view() == log_entry(log_id, feed_id, now, f));
                    assert(store.deep_view() == refreshed(origin, feed_id, f, now, ids, log_id));
                }
                Event::Written(Ok(()))
            },
            Action::Finish { result } => {
                return result;
            },
            Action::Download { .. } | Action::FetchIcon { .. } | Action::Rejected => {
                // The document and the icon were asked for before the loop,
                // and every event above answers what was asked.
                assert(false);
                return Ok(());
            },
        };
        proof {
            lemma_stepped_wf(state, written);
        }
        let (next_state, next_action) = m.step(event);
        m = next_state;
        action = next_action;
    }
}

/// What is stored after the first `n` feeds have been refreshed one after
/// the other, in the order in which the store lists them: the network
/// answers `fetched[k]` for the feed at position `k`; `ids[k]` and
/// `log_ids[k]` are the identities on offer to its articles and to its log
/// entry.
pub open spec fn refreshed_all(
    store: StoreView,
    fetched: Seq<FetchedView>,
    now: Timestamp,
    ids: Seq<Seq<u128>>,
    log_ids: Seq<u128>,
    n: nat,
) -> StoreView
    decreases n,
{
    if n == 0 {
        store
    } else {
        refreshed(
            refreshed_all(store, fetched, now, ids, log_ids, (n - 1) as nat),
            store.feeds[n - 1].id,
            fetched[n - 1],
            now,
            ids[n - 1],
            log_ids[n - 1],
        )
    }
}

/// How many feeds a run over all feeds refreshes: those for which the
/// network's answers are given.
pub open spec fn covered(store: StoreView, fetched: Seq<FetchedView>) -> nat {
    if store.feeds.len() <= fetched.len() {
        store.feeds.len()
    } else {
        fetched.len()
    }
}

/// A refresh neither adds nor removes a feed, and leaves every feed its
/// identity.
pub proof fn lemma_refreshed_feeds(
    store: StoreView,
    feed_id: u128,
    fetched: FetchedView,
    now: Timestamp,
    ids: Seq<u128>,
    log_id: u128,
)
    ensures
        refreshed(store, feed_id, fetched, now, ids, log_id).feeds.len() == store.feeds.len(),
        forall|k: int|
            0 <= k < store.feeds.len() ==> (#[trigger] refreshed(
                store,
                feed_id,
                fetched,
                now,
                ids,
                log_id,
            ).feeds[k]).id == store.feeds[k].id,
{
}

/// Only the identities on offer to the first `n` feeds count.
proof fn lemma_refreshed_all_ids(
    store: StoreView,
    fetched: Seq<FetchedView>,
    now: Timestamp,
    ids: Seq<Seq<u128>>,
    log_ids: Seq<u128>,
    more_ids: Seq<Seq<u128>>,
    more_log_ids: Seq<u128>,
    n: nat,
)
    requires
        forall|k: int| 0 <= k < n ==> ids[k] == more_ids[k] && log_ids[k] == more_log_ids[k],
    ensures
        refreshed_all(store, fetched, now, ids, log_ids, n) == refreshed_all(
            store,
            fetched,
            now,
            more_ids,
            more_log_ids,
            n,
        ),
    decreases n,
{
    if n > 0 {
        lemma_refreshed_all_ids(
            store,
            fetched,
            now,
            ids,
            log_ids,
            more_ids,
            more_log_ids,
            (n - 1) as nat,
        );
    }
}

impl Feed {
    /// Refreshes the feed at the instant `now`, on a store in memory and with
    /// the network's answers given. A feed document that could not be had
    /// is logged and makes the refresh fail. Whatever else goes wrong goes
    /// into the log entry of a refresh that went through: an icon that
    /// could not be had, an item that cannot be read.
    pub fn refresh(&self, store: &mut Store, fetched: Fetched, now: Timestamp) -> (r: Result<
        (),
        AppError,
    >)
        requires
            old(store).wf(),
        ensures
            final(store).wf(),
            result_view(r) == refresh_result(fetched.deep_view()),
            exists|ids: Seq<u128>, log_id: u128|
                final(store).deep_view() == #[trigger] refreshed(
                    old(store).deep_view(),
                    self.id,
                    fetched.deep_view(),
                    now,
                    ids,
                    log_id,
                ),
    {
        let (begun, _) = Refresher::start(self, now);
        complete(begun, store, fetched, now)
    }

    /// Refreshes, at the instant `now` and in the order in which the store
    /// lists them, every feed for which the network's answers are given:
    /// `fetched[k]` for the feed at position `k`. A feed whose refresh fails
    /// holds up none of the others. A disabled feed is refreshed like any
    /// other.
    pub fn refresh_all(store: &mut Store, fetched: Vec<Fetched>, now: Timestamp)
        requires
            old(store).wf(),
        ensures
            final(store).wf(),
            exists|ids: Seq<Seq<u128>>, log_ids: Seq<u128>|
                final(store).deep_view() == #[trigger] refreshed_all(
                    old(store).deep_view(),
                    fetched.deep_view(),
                    now,
                    ids,
                    log_ids,
                    covered(old(store).deep_view(), fetched.deep_view()),
                ),
    {
        let ghost origin = store.deep_view();
        let ghost answers = fetched.deep_view();
        let ghost mut ids: Seq<Seq<u128>> = Seq::empty();
        let ghost mut log_ids: Seq<u128> = Seq::empty();
        let mut rest = fetched;
        let n = if store.feeds().len() <= rest.len() {
            store.feeds().len()
        } else {
            rest.len()
        };
        let mut i: usize = 0;
        while i < n
            invariant
                i <= n,
                n == covered(origin, answers),
                store.wf(),
                n <= answers.len(),
                rest.len() == answers.len() - i,
                rest.deep_view() == answers.skip(i as int),
                ids.len() == i,
                log_ids.len() == i,
                store.deep_view() == refreshed_all(origin, answers, now, ids, log_ids, i as nat),
                store.deep_view().feeds.len() == origin.feeds.len(),
                forall|k: int|
                    0 <= k < origin.feeds.len() ==> (#[trigger] store.deep_view().feeds[k]).id
                        == origin.feeds[k].id,
            decreases n - i,
        {
            let ghost before = store.deep_view();
            let ghost left = rest.deep_view();
            let ghost held = rest@;
            let answer = rest.remove(0);
            proof {
                assert(answer == held[0]);
                assert(left[0] == held[0].deep_view());
                assert(left[0] == answers[i as int]);
                assert forall|k: int| 0 <= k < rest.len() implies rest.deep_view()[k]
                    == answers.skip(i + 1)[k] by {
                    assert(rest@[k] == held[k + 1]);
                    assert(left[k + 1] == held[k + 1].deep_view());
                }
                assert(rest.deep_view() =~= answers.skip(i + 1));
            }
            let feeds = store.feeds();
            assert(feeds[i as int].deep_view() == feeds.deep_view()[i as int]);
            let (begun, _) = Refresher::start(&feeds[i], now);
            assert(begun.deep_view().feed_id == origin.feeds[i as int].id);
            let _ = complete(begun, store, answer, now);
            proof {
                let feed_id = origin.feeds[i as int].id;
                let (these, log_id) = choose|these: Seq<u128>, log_id: u128|
                    store.deep_view() == #[trigger] refreshed(
                        before,
                        feed_id,
                        answers[i as int],
                        now,
                        these,
                        log_id,
                    );
                lemma_refreshed_feeds(before, feed_id, answers[i as int], now, these, log_id);
                lemma_refreshed_all_ids(
                    origin,
                    answers,
                    now,
                    ids,
                    log_ids,
                    ids.push(these),
                    log_ids.push(log_id),
                    i as nat,
                );
                ids = ids.push(these);
                log_ids = log_ids.push(log_id);
            }
            i += 1;
        }
    }
}

} // verus!
