//! The refresh of one feed as a state machine: from what happened to what
//! was asked for, it says what is to be done next.

use crate::clock::Timestamp;
use crate::content::{normalize, normalized};
use crate::error::{AppError, AppErrorView};
use crate::feed::{Channel, ChannelView, Item, ItemView};
use crate::icon::{get_icon, get_icon_url, icon_candidate, icon_of_reply, HttpReply, HttpReplyView};
use crate::store::{ArticleNew, ArticleNewView, Feed, FeedView};
use crate::text::{conjoin, extend, join, joined};
use vstd::prelude::*;
use vstd::string::*;

verus! {

/// Where the refresh of a feed stands: what it waits for.
#[derive(Clone, Copy, Debug, PartialEq, Eq, Structural)]
pub enum Phase {
    /// For the feed document.
    Downloading,
    /// For the server's answer on the icon.
    FetchingIcon,
    /// For the storage's word on the icon.
    StoringIcon,
    /// For the storage's word on an article.
    Upserting,
    /// For the storage's word on the log entry of a refresh that went through.
    LoggingSuccess,
    /// For the storage's word on the log entry of a refresh that failed.
    LoggingFailure,
    /// For nothing more.
    Done,
}

/// What the refresh of a feed asks to have done next.
#[derive(Debug)]
pub enum Action {
    /// Download the feed document from `url`.
    Download { url: String },
    /// Request the icon from `url`.
    FetchIcon { url: String },
    /// Store `icon` as the icon of the feed.
    UpdateIcon { feed_id: u128, icon: String },
    /// Store the article: over the one that it names, else as a new one.
    Upsert { article: ArticleNew },
    /// Append an entry to the refresh log of the feed.
    AppendLog { feed_id: u128, success: bool, message: String },
    /// Nothing more: the refresh ended so.
    Finish { result: Result<(), AppError> },
    /// The event did not answer what was asked; nothing changed.
    Rejected,
}

/// What happened to what the refresh asked for.
#[derive(Debug)]
pub enum Event {
    /// The feed document, or why there is none.
    Downloaded(Result<Channel, String>),
    /// The server's answer on the icon, or why there is none.
    IconFetched(Result<HttpReply, String>),
    /// The storage wrote, or why it did not.
    Written(Result<(), String>),
}

/// An action as a value of mathematics.
pub enum ActionView {
    Download { url: Seq<char> },
    FetchIcon { url: Seq<char> },
    UpdateIcon { feed_id: u128, icon: Seq<char> },
    Upsert { article: ArticleNewView },
    AppendLog { feed_id: u128, success: bool, message: Seq<char> },
    Finish { result: Result<(), AppErrorView> },
    Rejected,
}

/// An event as a value of mathematics.
pub enum EventView {
    Downloaded(Result<ChannelView, Seq<char>>),
    IconFetched(Result<HttpReplyView, Seq<char>>),
    Written(Result<(), Seq<char>>),
}

impl DeepView for Action {
    type V = ActionView;

    open spec fn deep_view(&self) -> ActionView {
        match self {
            Action::Download { url } => ActionView::Download { url: url@ },
            Action::FetchIcon { url } => ActionView::FetchIcon { url: url@ },
            Action::UpdateIcon { feed_id, icon } => ActionView::UpdateIcon {
                feed_id: *feed_id,
                icon: icon@,
            },
            Action::Upsert { article } => ActionView::Upsert { article: article.deep_view() },
            Action::AppendLog { feed_id, success, message } => ActionView::AppendLog {
                feed_id: *feed_id,
                success: *success,
                message: message@,
            },
            Action::Finish { result } => ActionView::Finish {
                result: match result {
                    Ok(_) => Ok(()),
                    Err(e) => Err(e.deep_view()),
                },
            },
            Action::Rejected => ActionView::Rejected,
        }
    }
}

impl DeepView for Event {
    type V = EventView;

    open spec fn deep_view(&self) -> EventView {
        match self {
            Event::Downloaded(Ok(channel)) => EventView::Downloaded(Ok(channel.deep_view())),
            Event::Downloaded(Err(why)) => EventView::Downloaded(Err(why@)),
            Event::IconFetched(Ok(reply)) => EventView::IconFetched(Ok(reply.deep_view())),
            Event::IconFetched(Err(why)) => EventView::IconFetched(Err(why@)),
            Event::Written(Ok(_)) => EventView::Written(Ok(())),
            Event::Written(Err(why)) => EventView::Written(Err(why@)),
        }
    }
}

/// What becomes of one item of a channel.
pub enum Outcome {
    /// It cannot be read; the error goes on record.
    Failed { error: AppErrorView },
    /// It has no body and is passed over.
    Skipped { warnings: Seq<Seq<char>> },
    /// It is brought to the storage.
    Stored { article: ArticleNewView, warnings: Seq<Seq<char>> },
}

/// The account of an item that cannot be read.
pub open spec fn item_failure(why: Seq<char>) -> Seq<char> {
    "error reading item: "@ + why
}

/// The account of an icon that could not be had.
pub open spec fn icon_failure(why: Seq<char>) -> Seq<char> {
    "error getting icon: "@ + why
}

/// The account of an icon that the storage did not take.
pub open spec fn icon_store_failure(why: Seq<char>) -> Seq<char> {
    "error updating icon: "@ + why
}

/// The account of an article that the storage did not take.
pub open spec fn article_store_failure(why: Seq<char>) -> Seq<char> {
    "error creating article: "@ + why
}

/// What becomes of an item of the feed `feed_id` that is read at `now`.
pub open spec fn outcome(feed_id: u128, now: Timestamp, item: ItemView) -> Outcome {
    match normalized(item, now) {
        Err(why) => Outcome::Failed { error: AppErrorView::ParseFailure(item_failure(why)) },
        Ok(c) => match c.content {
            None => Outcome::Skipped { warnings: c.warnings },
            Some(body) => Outcome::Stored {
                article: ArticleNewView {
                    content: body,
                    feed_id,
                    article_id: c.article_id,
                    title: c.title,
                    link: c.link,
                    published: c.published,
                },
                warnings: c.warnings,
            },
        },
    }
}

/// The errors that an outcome puts on record.
pub open spec fn errors_of(o: Outcome) -> Seq<AppErrorView> {
    match o {
        Outcome::Failed { error } => seq![error],
        _ => Seq::empty(),
    }
}

/// The remarks that an outcome brings.
pub open spec fn warnings_of(o: Outcome) -> Seq<Seq<char>> {
    match o {
        Outcome::Failed { .. } => Seq::empty(),
        Outcome::Skipped { warnings } => warnings,
        Outcome::Stored { warnings, .. } => warnings,
    }
}

/// The articles that an outcome brings to the storage.
pub open spec fn articles_of(o: Outcome) -> Seq<ArticleNewView> {
    match o {
        Outcome::Stored { article, .. } => seq![article],
        _ => Seq::empty(),
    }
}

/// The errors that the items from `lo` up to `hi` put on record, in order.
pub open spec fn errors_between(
    feed_id: u128,
    now: Timestamp,
    items: Seq<ItemView>,
    lo: int,
    hi: int,
) -> Seq<AppErrorView>
    decreases hi - lo,
{
    if hi <= lo {
        Seq::empty()
    } else {
        errors_between(feed_id, now, items, lo, hi - 1) + errors_of(
            outcome(feed_id, now, items[hi - 1]),
        )
    }
}

/// The remarks that the items from `lo` up to `hi` bring, in order.
pub open spec fn warnings_between(
    feed_id: u128,
    now: Timestamp,
    items: Seq<ItemView>,
    lo: int,
    hi: int,
) -> Seq<Seq<char>>
    decreases hi - lo,
{
    if hi <= lo {
        Seq::empty()
    } else {
        warnings_between(feed_id, now, items, lo, hi - 1) + warnings_of(
            outcome(feed_id, now, items[hi - 1]),
        )
    }
}

/// The articles that the items from `lo` up to `hi` bring, in order.
pub open spec fn articles_between(
    feed_id: u128,
    now: Timestamp,
    items: Seq<ItemView>,
    lo: int,
    hi: int,
) -> Seq<ArticleNewView>
    decreases hi - lo,
{
    if hi <= lo {
        Seq::empty()
    } else {
        articles_between(feed_id, now, items, lo, hi - 1) + articles_of(
            outcome(feed_id, now, items[hi - 1]),
        )
    }
}

/// The position of the first item at or after `from` that is brought to the
/// storage; the number of items where there is none.
pub open spec fn first_stored(feed_id: u128, now: Timestamp, items: Seq<ItemView>, from: int) -> int
    decreases items.len() - from,
{
    if from < 0 || from >= items.len() {
        items.len() as int
    } else if outcome(feed_id, now, items[from]) is Stored {
        from
    } else {
        first_stored(feed_id, now, items, from + 1)
    }
}

/// The accounts of the errors of a list, in order.
pub open spec fn messages(errors: Seq<AppErrorView>) -> Seq<Seq<char>> {
    Seq::new(errors.len(), |i: int| errors[i].text())
}

/// The message of the log entry of a refresh that went through: the accounts
/// of its errors, one to a line.
pub open spec fn log_message(errors: Seq<AppErrorView>) -> Seq<char> {
    joined(messages(errors), "\n"@)
}

/// The refresh of one feed, as a value of mathematics.
pub struct RefresherView {
    pub feed_id: u128,
    pub url: Seq<char>,
    pub now: Timestamp,
    pub phase: Phase,
    pub items: Seq<ItemView>,
    pub next: int,
    pub errors: Seq<AppErrorView>,
    pub warnings: Seq<Seq<char>>,
    pub failure: Option<AppErrorView>,
}

/// The refresh of one feed: what has been learnt so far, and what it waits
/// for. Whoever drives it does what `start` and `step` ask, and hands the
/// result to `step`.
#[derive(Debug)]
pub struct Refresher {
    feed_id: u128,
    url: String,
    now: Timestamp,
    phase: Phase,
    items: Vec<Item>,
    next: usize,
    errors: Vec<AppError>,
    warnings: Vec<String>,
    failure: Option<AppError>,
}

impl DeepView for Refresher {
    type V = RefresherView;

    closed spec fn deep_view(&self) -> RefresherView {
        RefresherView {
            feed_id: self.feed_id,
            url: self.url@,
            now: self.now,
            phase: self.phase,
            items: self.items.deep_view(),
            next: self.next as int,
            errors: self.errors.deep_view(),
            warnings: self.warnings.deep_view(),
            failure: self.failure.deep_view(),
        }
    }
}

impl RefresherView {
    /// The refresh with one more error on record.
    pub open spec fn with_error(self, error: AppErrorView) -> RefresherView {
        RefresherView { errors: self.errors.push(error), ..self }
    }

    /// What holds of every refresh that this library hands out: it has
    /// gone through no more items than there are.
    pub open spec fn wf(self) -> bool {
        0 <= self.next <= self.items.len()
    }
}

/// The refresh of a feed before anything has happened.
pub open spec fn started(feed: FeedView, now: Timestamp) -> RefresherView {
    RefresherView {
        feed_id: feed.id,
        url: feed.url,
        now,
        phase: Phase::Downloading,
        items: Seq::empty(),
        next: 0,
        errors: Seq::empty(),
        warnings: Seq::empty(),
        failure: None,
    }
}

/// The refresh as it goes on with its items: those that cannot be read go on
/// record and those without a body are passed over, up to the first that is
/// brought to the storage; where there is none, the log entry is next.
pub open spec fn advanced(m: RefresherView) -> (RefresherView, ActionView) {
    let first = first_stored(m.feed_id, m.now, m.items, m.next);
    let upto = if first < m.items.len() {
        first + 1
    } else {
        m.items.len() as int
    };
    let errors = m.errors + errors_between(m.feed_id, m.now, m.items, m.next, upto);
    let warnings = m.warnings + warnings_between(m.feed_id, m.now, m.items, m.next, upto);
    if first < m.items.len() {
        (
            RefresherView { phase: Phase::Upserting, next: upto, errors, warnings, ..m },
            ActionView::Upsert {
                article: outcome(m.feed_id, m.now, m.items[first])->Stored_article,
            },
        )
    } else {
        (
            RefresherView { phase: Phase::LoggingSuccess, next: upto, errors, warnings, ..m },
            ActionView::AppendLog {
                feed_id: m.feed_id,
                success: true,
                message: log_message(errors),
            },
        )
    }
}

/// The refresh once the icon is settled: with the error on record, if there
/// was one, it goes on with its items.
pub open spec fn settled(m: RefresherView, error: Option<AppErrorView>) -> (
    RefresherView,
    ActionView,
) {
    match error {
        Some(e) => advanced(m.with_error(e)),
        None => advanced(m),
    }
}

/// The error that goes on record for an icon that could not be had.
pub open spec fn icon_error(e: AppErrorView) -> AppErrorView {
    AppErrorView::IconResolutionFailure(icon_failure(e.text()))
}

/// What the refresh does on an event: the state after it, and what is to be
/// done next.
pub open spec fn stepped(m: RefresherView, event: EventView) -> (RefresherView, ActionView) {
    match (m.phase, event) {
        (Phase::Downloading, EventView::Downloaded(Err(why))) => (
            RefresherView {
                phase: Phase::LoggingFailure,
                failure: Some(AppErrorView::FetchFailure(why)),
                ..m
            },
            ActionView::AppendLog { feed_id: m.feed_id, success: false, message: why },
        ),
        (Phase::Downloading, EventView::Downloaded(Ok(channel))) => {
            let loaded = RefresherView { items: channel.items, next: 0, ..m };
            match icon_candidate(channel) {
                Err(e) => settled(loaded, Some(icon_error(e))),
                Ok(None) => settled(loaded, None),
                Ok(Some(link)) => (
                    RefresherView { phase: Phase::FetchingIcon, ..loaded },
                    ActionView::FetchIcon { url: link.text },
                ),
            }
        },
        (Phase::FetchingIcon, EventView::IconFetched(Err(why))) => settled(
            m,
            Some(AppErrorView::IconResolutionFailure(icon_failure(why))),
        ),
        (Phase::FetchingIcon, EventView::IconFetched(Ok(reply))) => match icon_of_reply(reply) {
            Err(e) => settled(m, Some(icon_error(e))),
            Ok(None) => settled(m, None),
            Ok(Some(icon)) => (
                RefresherView { phase: Phase::StoringIcon, ..m },
                ActionView::UpdateIcon { feed_id: m.feed_id, icon: icon.text },
            ),
        },
        (Phase::StoringIcon, EventView::Written(Ok(_))) => settled(m, None),
        (Phase::StoringIcon, EventView::Written(Err(why))) => settled(
            m,
            Some(AppErrorView::PersistenceFailure(icon_store_failure(why))),
        ),
        (Phase::Upserting, EventView::Written(Ok(_))) => advanced(m),
        (Phase::Upserting, EventView::Written(Err(why))) => advanced(
            m.with_error(AppErrorView::PersistenceFailure(article_store_failure(why))),
        ),
        (Phase::LoggingSuccess, EventView::Written(_)) => (
            RefresherView { phase: Phase::Done, ..m },
            ActionView::Finish { result: Ok(()) },
        ),
        (Phase::LoggingFailure, EventView::Written(_)) => (
            RefresherView { phase: Phase::Done, ..m },
            ActionView::Finish {
                result: match m.failure {
                    Some(e) => Err(e),
                    None => Ok(()),
                },
            },
        ),
        _ => (m, ActionView::Rejected),
    }
}

/// The errors of a range of items are those of its two parts, one after the
/// other.
pub proof fn lemma_errors_split(
    feed_id: u128,
    now: Timestamp,
    items: Seq<ItemView>,
    lo: int,
    mid: int,
    hi: int,
)
    requires
        lo <= mid <= hi,
    ensures
        errors_between(feed_id, now, items, lo, hi) == errors_between(feed_id, now, items, lo, mid)
            + errors_between(feed_id, now, items, mid, hi),
    decreases hi - mid,
{
    if mid < hi {
        lemma_errors_split(feed_id, now, items, lo, mid, hi - 1);
    }
    assert(errors_between(feed_id, now, items, lo, hi) =~= errors_between(
        feed_id,
        now,
        items,
        lo,
        mid,
    ) + errors_between(feed_id, now, items, mid, hi));
}

/// The articles of a range of items are those of its two parts, one after
/// the other.
pub proof fn lemma_articles_split(
    feed_id: u128,
    now: Timestamp,
    items: Seq<ItemView>,
    lo: int,
    mid: int,
    hi: int,
)
    requires
        lo <= mid <= hi,
    ensures
        articles_between(feed_id, now, items, lo, hi) == articles_between(
            feed_id,
            now,
            items,
            lo,
            mid,
        ) + articles_between(feed_id, now, items, mid, hi),
    decreases hi - mid,
{
    if mid < hi {
        lemma_articles_split(feed_id, now, items, lo, mid, hi - 1);
    }
    assert(articles_between(feed_id, now, items, lo, hi) =~= articles_between(
        feed_id,
        now,
        items,
        lo,
        mid,
    ) + articles_between(feed_id, now, items, mid, hi));
}

/// The first item that is brought to the storage lies at or after the place
/// where the search began, and no item between the two is brought.
pub proof fn lemma_first_stored(feed_id: u128, now: Timestamp, items: Seq<ItemView>, from: int)
    requires
        0 <= from <= items.len(),
    ensures
        from <= first_stored(feed_id, now, items, from) <= items.len(),
        first_stored(feed_id, now, items, from) < items.len() ==> outcome(
            feed_id,
            now,
            items[first_stored(feed_id, now, items, from)],
        ) is Stored,
        articles_between(feed_id, now, items, from, first_stored(feed_id, now, items, from))
            == Seq::<ArticleNewView>::empty(),
    decreases items.len() - from,
{
    let first = first_stored(feed_id, now, items, from);
    if from < items.len() && !(outcome(feed_id, now, items[from]) is Stored) {
        lemma_first_stored(feed_id, now, items, from + 1);
        lemma_articles_split(feed_id, now, items, from, from + 1, first);
        assert(articles_between(feed_id, now, items, from, from) =~= Seq::empty());
        assert(articles_between(feed_id, now, items, from, from + 1) =~= Seq::empty());
    }
    assert(articles_between(feed_id, now, items, from, first) =~= Seq::empty());
}

/// A refresh never goes through more items than there are.
pub proof fn lemma_stepped_wf(m: RefresherView, event: EventView)
    requires
        m.wf(),
    ensures
        stepped(m, event).0.wf(),
{
    lemma_first_stored(m.feed_id, m.now, m.items, m.next);
    match event {
        EventView::Downloaded(Ok(channel)) => {
            lemma_first_stored(m.feed_id, m.now, channel.items, 0);
        },
        _ => {},
    }
}

/// Writes down the accounts of the errors of a list.
fn messages_of(errors: &Vec<AppError>) -> (r: Vec<String>)
    ensures
        r.deep_view() == messages(errors.deep_view()),
{
    let mut r: Vec<String> = Vec::new();
    let mut i: usize = 0;
    while i < errors.len()
        invariant
            i <= errors.len(),
            r.len() == i,
            forall|k: int| 0 <= k < i ==> (#[trigger] r[k])@ == errors[k].deep_view().text(),
        decreases errors.len() - i,
    {
        r.push(errors[i].message());
        i += 1;
    }
    assert(r.deep_view() =~= messages(errors.deep_view()));
    r
}

/// Puts one more error on a record.
fn record(errors: &mut Vec<AppError>, error: AppError)
    ensures
        final(errors).deep_view() == old(errors).deep_view().push(error.deep_view()),
{
    let ghost before = errors.deep_view();
    errors.push(error);
    assert(errors.deep_view() =~= before.push(error.deep_view()));
}

impl Refresher {
    /// What the refresh waits for.
    pub fn phase(&self) -> (r: Phase)
        ensures
            r == self.deep_view().phase,
    {
        self.phase
    }

    /// The errors on record so far, in the order in which they were met.
    pub fn errors(&self) -> (r: &Vec<AppError>)
        ensures
            r.deep_view() == self.deep_view().errors,
    {
        &self.errors
    }

    /// The remarks made so far on items that were read all the same.
    pub fn warnings(&self) -> (r: &Vec<String>)
        ensures
            r.deep_view() == self.deep_view().warnings,
    {
        &self.warnings
    }

    /// Begins the refresh of a feed at the instant `now`: the feed document
    /// is to be downloaded.
    pub fn start(feed: &Feed, now: Timestamp) -> (r: (Refresher, Action))
        ensures
            r.0.deep_view() == started(feed.deep_view(), now),
            r.1.deep_view() == (ActionView::Download { url: feed.url@ }),
    {
        let m = Refresher {
            feed_id: feed.id,
            url: feed.url.clone(),
            now,
            phase: Phase::Downloading,
            items: Vec::new(),
            next: 0,
            errors: Vec::new(),
            warnings: Vec::new(),
            failure: None,
        };
        assert(m.deep_view().items =~= Seq::empty());
        assert(m.deep_view().errors =~= Seq::empty());
        assert(m.deep_view().warnings =~= Seq::empty());
        (m, Action::Download { url: feed.url.clone() })
    }

    /// Goes on with the items.
    fn advance(self) -> (r: (Refresher, Action))
        ensures
            (r.0.deep_view(), r.1.deep_view()) == advanced(self.deep_view()),
    {
        let ghost start = self.deep_view();
        let mut m = self;
        let mut i: usize = m.next;
        proof {
            assert(m.errors.deep_view() =~= start.errors + errors_between(
                start.feed_id,
                start.now,
                start.items,
                start.next,
                i as int,
            ));
            assert(m.warnings.deep_view() =~= start.warnings + warnings_between(
                start.feed_id,
                start.now,
                start.items,
                start.next,
                i as int,
            ));
        }
        while i < m.items.len()
            invariant
                start.next <= i,
                i <= m.items.len() || i == start.next,
                start == self.deep_view(),
                m.feed_id == start.feed_id,
                m.url@ == start.url,
                m.now == start.now,
                m.items.deep_view() == start.items,
                m.failure.deep_view() == start.failure,
                m.errors.deep_view() == start.errors + errors_between(
                    start.feed_id,
                    start.now,
                    start.items,
                    start.next,
                    i as int,
                ),
                m.warnings.deep_view() == start.warnings + warnings_between(
                    start.feed_id,
                    start.now,
                    start.items,
                    start.next,
                    i as int,
                ),
                first_stored(start.feed_id, start.now, start.items, start.next) == first_stored(
                    start.feed_id,
                    start.now,
                    start.items,
                    i as int,
                ),
            decreases m.items.len() - i,
        {
            let ghost item = start.items[i as int];
            let ghost result = outcome(start.feed_id, start.now, item);
            let ghost errors = m.errors.deep_view();
            let ghost warnings = m.warnings.deep_view();
            assert(m.items[i as int].deep_view() == item);
            match normalize(&m.items[i], m.now) {
                Err(e) => {
                    let why = e.message();
                    record(
                        &mut m.errors,
                        AppError::ParseFailure(conjoin("error reading item: ", why.as_str())),
                    );
                    proof {
                        assert(result == Outcome::Failed {
                            error: AppErrorView::ParseFailure(item_failure(why@)),
                        });
                        assert(m.errors.deep_view() =~= errors + errors_of(result));
                        assert(m.warnings.deep_view() =~= warnings + warnings_of(result));
                    }
                },
                Ok(c) => {
                    extend(&mut m.warnings, &c.warnings);
                    proof {
                        assert(m.errors.deep_view() =~= errors + errors_of(result));
                        assert(m.warnings.deep_view() =~= warnings + warnings_of(result));
                    }
                    match c.content {
                        None => {},
                        Some(body) => {
                            let article = ArticleNew {
                                content: body,
                                feed_id: m.feed_id,
                                article_id: c.article_id,
                                title: c.title,
                                link: c.link,
                                published: c.published,
                            };
                            m.next = i + 1;
                            m.phase = Phase::Upserting;
                            proof {
                                assert(result is Stored);
                                assert(article.deep_view() == result->Stored_article);
                                assert(first_stored(
                                    start.feed_id,
                                    start.now,
                                    start.items,
                                    i as int,
                                ) == i);
                                assert(m.errors.deep_view() =~= start.errors + errors_between(
                                    start.feed_id,
                                    start.now,
                                    start.items,
                                    start.next,
                                    i + 1,
                                ));
                                assert(m.warnings.deep_view() =~= start.warnings
                                    + warnings_between(
                                    start.feed_id,
                                    start.now,
                                    start.items,
                                    start.next,
                                    i + 1,
                                ));
                            }
                            return (m, Action::Upsert { article });
                        },
                    }
                },
            }
            proof {
                assert(!(result is Stored));
                assert(m.errors.deep_view() =~= start.errors + errors_between(
                    start.feed_id,
                    start.now,
                    start.items,
                    start.next,
                    i + 1,
                ));
                assert(m.warnings.deep_view() =~= start.warnings + warnings_between(
                    start.feed_id,
                    start.now,
                    start.items,
                    start.next,
                    i + 1,
                ));
            }
            i += 1;
        }
        m.next = m.items.len();
        m.phase = Phase::LoggingSuccess;
        let message = join(&messages_of(&m.errors), "\n");
        let action = Action::AppendLog { feed_id: m.feed_id, success: true, message };
        (m, action)
    }

    /// Puts an error on record, if there is one, and goes on with the items.
    fn settle(self, error: Option<AppError>) -> (r: (Refresher, Action))
        ensures
            (r.0.deep_view(), r.1.deep_view()) == settled(self.deep_view(), error.deep_view()),
    {
        let mut m = self;
        match error {
            Some(e) => {
                record(&mut m.errors, e);
                m.advance()
            },
            None => m.advance(),
        }
    }

    /// Takes what happened to what was asked for, and says what is to be done
    /// next. An event that does not answer what was asked changes nothing.
    pub fn step(self, event: Event) -> (r: (Refresher, Action))
        ensures
            (r.0.deep_view(), r.1.deep_view()) == stepped(self.deep_view(), event.deep_view()),
    {
        let mut m = self;
        match m.phase {
            Phase::Downloading => match event {
                Event::Downloaded(Err(why)) => {
                    m.phase = Phase::LoggingFailure;
                    m.failure = Some(AppError::FetchFailure(why.clone()));
                    let action = Action::AppendLog {
                        feed_id: m.feed_id,
                        success: false,
                        message: why,
                    };
                    (m, action)
                },
                Event::Downloaded(Ok(channel)) => {
                    let candidate = get_icon_url(&channel);
                    m.items = channel.items;
                    m.next = 0;
                    match candidate {
                        Err(e) => {
                            let why = conjoin("error getting icon: ", e.message().as_str());
                            m.settle(Some(AppError::IconResolutionFailure(why)))
                        },
                        Ok(None) => m.settle(None),
                        Ok(Some(link)) => {
                            m.phase = Phase::FetchingIcon;
                            (m, Action::FetchIcon { url: link.text })
                        },
                    }
                },
                _ => (m, Action::Rejected),
            },
            Phase::FetchingIcon => match event {
                Event::IconFetched(Err(why)) => {
                    let why = conjoin("error getting icon: ", why.as_str());
                    m.settle(Some(AppError::IconResolutionFailure(why)))
                },
                Event::IconFetched(Ok(reply)) => match get_icon(&reply) {
                    Err(e) => {
                        let why = conjoin("error getting icon: ", e.message().as_str());
                        m.settle(Some(AppError::IconResolutionFailure(why)))
                    },
                    Ok(None) => m.settle(None),
                    Ok(Some(icon)) => {
                        m.phase = Phase::StoringIcon;
                        let action = Action::UpdateIcon { feed_id: m.feed_id, icon: icon.text };
                        (m, action)
                    },
                },
                _ => (m, Action::Rejected),
            },
            Phase::StoringIcon => match event {
                Event::Written(Ok(_)) => m.settle(None),
                Event::Written(Err(why)) => {
                    let why = conjoin("error updating icon: ", why.as_str());
                    m.settle(Some(AppError::PersistenceFailure(why)))
                },
                _ => (m, Action::Rejected),
            },
            Phase::Upserting => match event {
                Event::Written(Ok(_)) => m.settle(None),
                Event::Written(Err(why)) => {
                    let why = conjoin("error creating article: ", why.as_str());
                    m.settle(Some(AppError::PersistenceFailure(why)))
                },
                _ => (m, Action::Rejected),
            },
            Phase::LoggingSuccess => match event {
                Event::Written(_) => {
                    m.phase = Phase::Done;
                    (m, Action::Finish { result: Ok(()) })
                },
                _ => (m, Action::Rejected),
            },
            Phase::LoggingFailure => match event {
                Event::Written(_) => {
                    m.phase = Phase::Done;
                    let result = match &m.failure {
                        Some(e) => Err(e.duplicate()),
                        None => Ok(()),
                    };
                    (m, Action::Finish { result })
                },
                _ => (m, Action::Rejected),
            },
            Phase::Done => (m, Action::Rejected),
        }
    }
}

} // verus!
