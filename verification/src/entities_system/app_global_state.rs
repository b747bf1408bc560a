//! The coordinator: the shared record of which URLs are known and which of
//! them were visited, the count of visits, and the channel on which URLs are
//! handed to the producers.
use vstd::prelude::*;
use crossbeam::channel::Sender;
use crate::channel::{open_channel, Inbox, Outbox};
use crate::constants::{initial_url_list, initial_urls, string_views, MAX_URLS_TO_PROCESS, THREAD_COUNT};
use crate::url_table::{table_get, table_insert, table_new, table_entries, url_table, UrlTable};

verus! {

/// What the coordinator records of one URL.
#[derive(Clone, Copy, Debug, PartialEq, Eq, Structural)]
pub struct UrlData {
    pub visited: bool,
}

/// A URL handed to a producer to be crawled.
#[derive(Debug)]
pub struct GuardedUrlDataType(pub String);

/// What the coordinator sends to the producers.
#[derive(Debug)]
pub enum GlobalStateChannelData {
    ContinueProcessing(GuardedUrlDataType),
    EndProcessing,
}

/// The coordinator's state. Its operations take it by `&mut` (or `&`): the
/// threads that share it hold it behind one mutex, so each operation runs
/// alone and its contract holds as stated; the URL table inside is a
/// `DashMap`, reached only through this state.
pub struct GlobalState {
    urls_data_vec: Vec<String>,
    urls_data: UrlTable,
    url_visited: isize,
    global_state_tx: Outbox<GlobalStateChannelData>,
    global_state_rx_array: Vec<Inbox<GlobalStateChannelData>>,
}

/// The mathematical content of a `GlobalState`.
pub struct GlobalStateView {
    /// URLs not yet handed to the producers, in order.
    pub pending: Seq<Seq<char>>,
    /// Every known URL, with whether it was visited.
    pub urls: Map<Seq<char>, bool>,
    /// The visit counter (it wraps around as an atomic counter does).
    pub visited: isize,
    /// The channel on which the coordinator hands URLs to the producers.
    pub channel: Sender<GlobalStateChannelData>,
    /// What the coordinator handed to that channel, in order: a URL to crawl,
    /// or `None` for the end signal.
    pub handed: Seq<Option<Seq<char>>>,
    /// For each message handed to that channel, whether the channel took it.
    pub delivered: Seq<bool>,
    /// The channels of the receiving ends still waiting to be handed to
    /// producer tasks (handed out from the end).
    pub receivers: Seq<Sender<GlobalStateChannelData>>,
}

/// What a message to the producers carries: the URL to crawl, or `None` for
/// the end signal.
pub open spec fn dispatch_view(m: GlobalStateChannelData) -> Option<Seq<char>> {
    match m {
        GlobalStateChannelData::ContinueProcessing(data) => Some(data.0@),
        GlobalStateChannelData::EndProcessing => None,
    }
}

/// The views of a sequence of messages to the producers.
pub open spec fn dispatch_views(s: Seq<GlobalStateChannelData>) -> Seq<Option<Seq<char>>> {
    s.map_values(|m: GlobalStateChannelData| dispatch_view(m))
}

/// The messages that hand the given URLs out, in order.
pub open spec fn url_dispatches(urls: Seq<Seq<char>>) -> Seq<Option<Seq<char>>> {
    urls.map_values(|u: Seq<char>| Some(u))
}

/// The table in which each of the given URLs is known and not visited.
pub open spec fn unvisited_table(urls: Seq<Seq<char>>) -> Map<Seq<char>, bool> {
    Map::new(|k: Seq<char>| urls.contains(k), |k: Seq<char>| false)
}

/// Every known URL was visited.
pub open spec fn all_visited(urls: Map<Seq<char>, bool>) -> bool {
    forall|k: Seq<char>| #[trigger] urls.contains_key(k) ==> urls[k]
}

/// The counter after one more visit, wrapping at the top of `isize`.
pub open spec fn counter_up(c: isize) -> isize {
    if c == isize::MAX { isize::MIN } else { (c + 1) as isize }
}

impl GlobalStateView {
    /// The state the crawl starts in: the starting URLs known, not visited
    /// and waiting, nothing counted or handed out, and one receiving end of
    /// the coordinator's own channel prepared for each producer thread.
    pub open spec fn is_initial(self) -> bool {
        &&& self.pending == initial_urls()
        &&& self.urls == unvisited_table(initial_urls())
        &&& self.visited == 0
        &&& self.handed == Seq::<Option<Seq<char>>>::empty()
        &&& self.delivered == Seq::<bool>::empty()
        &&& self.receivers.len() == THREAD_COUNT
        &&& forall|i: int| 0 <= i < self.receivers.len() ==> #[trigger] self.receivers[i] == self.channel
    }

    /// Enough URLs were visited, and every known URL was visited.
    pub open spec fn visiting_done(self) -> bool {
        self.visited >= MAX_URLS_TO_PROCESS && all_visited(self.urls)
    }

    /// A discovered URL becomes known (not visited) unless it already was known.
    pub open spec fn register(self, url: Seq<char>) -> GlobalStateView {
        if self.urls.contains_key(url) {
            self
        } else {
            GlobalStateView { urls: self.urls.insert(url, false), ..self }
        }
    }

    /// A crawled URL is marked visited and counted, once, if it is known.
    pub open spec fn mark_visited(self, url: Seq<char>) -> GlobalStateView {
        if self.urls.contains_key(url) && !self.urls[url] {
            GlobalStateView { urls: self.urls.insert(url, true), visited: counter_up(self.visited), ..self }
        } else {
            self
        }
    }
}

/// The URLs recorded as visited.
pub open spec fn visited_urls(urls: Map<Seq<char>, bool>) -> Set<Seq<char>> {
    urls.dom().filter(|k: Seq<char>| urls[k])
}

/// Registering a discovered URL loses nothing: every URL known before stays
/// known with the same flag, the URL is known afterwards, and registering a
/// URL that is already known changes nothing at all.
pub proof fn lemma_register_keeps_records(s: GlobalStateView, url: Seq<char>)
    ensures
        s.register(url).urls.contains_key(url),
        forall|k: Seq<char>| #[trigger] s.urls.contains_key(k) ==> s.register(url).urls.contains_key(k)
            && s.register(url).urls[k] == s.urls[k],
        s.urls.contains_key(url) ==> s.register(url) == s,
        s.register(url).visited == s.visited,
        s.register(url).pending == s.pending,
{
}

/// A URL is crawled into the record at most once: marking it visited a
/// second time changes nothing.
pub proof fn lemma_mark_visited_once(s: GlobalStateView, url: Seq<char>)
    ensures
        s.mark_visited(url).mark_visited(url) == s.mark_visited(url),
{
}

/// No step of the coordinator's record forgets a URL or un-visits it.
pub proof fn lemma_visits_are_never_undone(s: GlobalStateView, url: Seq<char>, k: Seq<char>)
    requires
        s.urls.contains_key(k),
    ensures
        s.register(url).urls.contains_key(k),
        s.mark_visited(url).urls.contains_key(k),
        s.urls[k] ==> s.register(url).urls[k] && s.mark_visited(url).urls[k],
        s.mark_visited(url).urls.contains_key(url) == s.urls.contains_key(url),
        s.urls.contains_key(url) ==> s.mark_visited(url).urls[url],
{
}

/// The counter counts visited URLs: when it equals the number of URLs
/// recorded as visited (and has room to grow), it still does after a URL is
/// registered or marked visited.
pub proof fn lemma_counter_counts_visited_urls(s: GlobalStateView, url: Seq<char>)
    requires
        s.urls.dom().finite(),
        s.visited == visited_urls(s.urls).len(),
        s.visited < isize::MAX,
    ensures
        s.register(url).urls.dom().finite(),
        s.register(url).visited == visited_urls(s.register(url).urls).len(),
        s.mark_visited(url).urls.dom().finite(),
        s.mark_visited(url).visited == visited_urls(s.mark_visited(url).urls).len(),
{
    if !s.urls.contains_key(url) {
        let t = s.urls.insert(url, false);
        assert(visited_urls(t) =~= visited_urls(s.urls));
    }
    if s.urls.contains_key(url) && !s.urls[url] {
        let t = s.urls.insert(url, true);
        assert(visited_urls(t) =~= visited_urls(s.urls).insert(url));
        assert(visited_urls(s.urls).finite()) by {
            s.urls.dom().lemma_len_filter(|k: Seq<char>| s.urls[k]);
        }
        assert(!visited_urls(s.urls).contains(url));
    }
}

/// One step of a run on the coordinator's record: a discovered URL is
/// registered, or a crawled URL's report was delivered (`true`) or refused.
pub enum RecordStep {
    Register(Seq<char>),
    Crawl(Seq<char>, bool),
}

/// The record after one step.
pub open spec fn apply_record_step(s: GlobalStateView, step: RecordStep) -> GlobalStateView {
    match step {
        RecordStep::Register(u) => s.register(u),
        RecordStep::Crawl(u, delivered) => if delivered { s.mark_visited(u) } else { s },
    }
}

/// The record after a run of steps, in order.
pub open spec fn apply_record_steps(s: GlobalStateView, steps: Seq<RecordStep>) -> GlobalStateView
    decreases steps.len(),
{
    if steps.len() == 0 {
        s
    } else {
        apply_record_step(apply_record_steps(s, steps.drop_last()), steps.last())
    }
}

/// At the start of the crawl the counter counts the visited URLs: none.
pub proof fn lemma_initial_counter_counts_visited_urls(s: GlobalStateView)
    requires
        s.is_initial(),
    ensures
        s.urls.dom().finite(),
        s.visited == visited_urls(s.urls).len(),
{
    broadcast use vstd::seq_lib::seq_to_set_is_finite;

    assert(s.urls.dom() =~= initial_urls().to_set());
    assert(visited_urls(s.urls) =~= Set::<Seq<char>>::empty());
}

/// Over any run of registrations and crawls, the counter keeps counting the
/// visited URLs (each visited URL once, refused reports not at all), as long
/// as it has room to grow.
pub proof fn lemma_counter_counts_visited_urls_over_run(s: GlobalStateView, steps: Seq<RecordStep>)
    requires
        s.urls.dom().finite(),
        s.visited == visited_urls(s.urls).len(),
        s.visited + steps.len() < isize::MAX,
    ensures
        apply_record_steps(s, steps).urls.dom().finite(),
        apply_record_steps(s, steps).visited == visited_urls(apply_record_steps(s, steps).urls).len(),
        apply_record_steps(s, steps).visited <= s.visited + steps.len(),
    decreases steps.len(),
{
    if steps.len() > 0 {
        lemma_counter_counts_visited_urls_over_run(s, steps.drop_last());
        let t = apply_record_steps(s, steps.drop_last());
        match steps.last() {
            RecordStep::Register(u) => lemma_counter_counts_visited_urls(t, u),
            RecordStep::Crawl(u, delivered) => lemma_counter_counts_visited_urls(t, u),
        }
    }
}

/// A run on the coordinator's record, with every URL handed to the
/// producers: first those waiting at the start (handed out by
/// `send_data_to_producer`), then each URL a registration found unknown (and
/// so queued by the consumer), in order.
pub open spec fn dispatch_run(s: GlobalStateView, steps: Seq<RecordStep>) -> (GlobalStateView, Seq<Seq<char>>)
    decreases steps.len(),
{
    if steps.len() == 0 {
        (s, s.pending)
    } else {
        let (t, handed) = dispatch_run(s, steps.drop_last());
        match steps.last() {
            RecordStep::Register(u) => if t.urls.contains_key(u) {
                (t, handed)
            } else {
                (t.register(u), handed.push(u))
            },
            RecordStep::Crawl(u, delivered) => (apply_record_step(t, steps.last()), handed),
        }
    }
}

/// No page is crawled twice: over a whole run of registrations and crawls,
/// the URLs handed to the producers (the waiting ones, then the newly
/// registered ones) are all distinct, each of them is known, and the record
/// is the one the run's steps give.
pub proof fn lemma_no_url_dispatched_twice(s: GlobalStateView, steps: Seq<RecordStep>)
    requires
        s.pending.no_duplicates(),
        forall|i: int| 0 <= i < s.pending.len() ==> s.urls.contains_key(#[trigger] s.pending[i]),
    ensures
        dispatch_run(s, steps).1.no_duplicates(),
        forall|i: int| 0 <= i < dispatch_run(s, steps).1.len() ==> dispatch_run(s, steps).0.urls.contains_key(
            #[trigger] dispatch_run(s, steps).1[i],
        ),
        dispatch_run(s, steps).0 == apply_record_steps(s, steps),
    decreases steps.len(),
{
    if steps.len() > 0 {
        let prefix = steps.drop_last();
        lemma_no_url_dispatched_twice(s, prefix);
        let (t, handed) = dispatch_run(s, prefix);
        let st = steps.last();
        match st {
            RecordStep::Register(u) => {
                if !t.urls.contains_key(u) {
                    let h1 = handed.push(u);
                    assert forall|i: int, k: int| 0 <= i < h1.len() && 0 <= k < h1.len() && i != k implies h1[i]
                        != h1[k] by {
                        if i < handed.len() && k < handed.len() {
                        } else if i < handed.len() {
                            assert(t.urls.contains_key(handed[i]));
                        } else {
                            assert(t.urls.contains_key(handed[k]));
                        }
                    }
                    assert forall|i: int| 0 <= i < h1.len() implies t.register(u).urls.contains_key(
                        #[trigger] h1[i],
                    ) by {
                        if i < handed.len() {
                            assert(t.urls.contains_key(handed[i]));
                        }
                    }
                }
            },
            RecordStep::Crawl(u, delivered) => {
                assert forall|i: int| 0 <= i < handed.len() implies apply_record_step(t, st).urls.contains_key(
                    #[trigger] handed[i],
                ) by {
                    assert(t.urls.contains_key(handed[i]));
                    lemma_visits_are_never_undone(t, u, handed[i]);
                }
            },
        }
    }
}

/// At the start of the crawl the waiting URLs are distinct and known, so
/// the run law above applies from the start.
pub proof fn lemma_initial_dispatches_distinct(s: GlobalStateView)
    requires
        s.is_initial(),
    ensures
        s.pending.no_duplicates(),
        forall|i: int| 0 <= i < s.pending.len() ==> s.urls.contains_key(#[trigger] s.pending[i]),
{
    reveal_strlit("https://www.example.com");
    reveal_strlit("https://www.rust-lang.org");
    reveal_strlit("https://www.wikipedia.org");
    reveal_strlit("https://www.github.com");
    reveal_strlit("https://www.stackoverflow.com");
    let u = initial_urls();
    assert(u[0].len() != u[1].len());
    assert(u[0].len() != u[2].len());
    assert(u[0].len() != u[3].len());
    assert(u[0].len() != u[4].len());
    assert(u[1][12] != u[2][12]);
    assert(u[1].len() != u[3].len());
    assert(u[1].len() != u[4].len());
    assert(u[2].len() != u[3].len());
    assert(u[2].len() != u[4].len());
    assert(u[3].len() != u[4].len());
    assert forall|i: int| 0 <= i < u.len() implies s.urls.contains_key(#[trigger] u[i]) by {
        assert(u.contains(u[i]));
    }
}

/// The URLs among messages to the producers, in order (end signals left out).
pub open spec fn handed_urls(h: Seq<Option<Seq<char>>>) -> Seq<Seq<char>>
    decreases h.len(),
{
    if h.len() == 0 {
        Seq::empty()
    } else {
        match h.last() {
            Some(u) => handed_urls(h.drop_last()).push(u),
            None => handed_urls(h.drop_last()),
        }
    }
}

/// No page is crawled twice: every URL the coordinator handed to the
/// producers, every URL still waiting to be handed out, and every URL the
/// consumer queued for the producers (`queued`, its messages) occur once
/// among them all, and each is known.
pub open spec fn no_url_twice(s: GlobalStateView, queued: Seq<Option<Seq<char>>>) -> bool {
    let all = handed_urls(s.handed) + s.pending + handed_urls(queued);
    &&& all.no_duplicates()
    &&& forall|i: int| 0 <= i < all.len() ==> s.urls.contains_key(#[trigger] all[i])
}

/// Handing out URLs adds them, in order, to the handed URLs.
pub proof fn lemma_handed_urls_dispatches(h: Seq<Option<Seq<char>>>, p: Seq<Seq<char>>)
    ensures
        handed_urls(h + url_dispatches(p)) == handed_urls(h) + p,
    decreases p.len(),
{
    if p.len() == 0 {
        assert(h + url_dispatches(p) =~= h);
        assert(handed_urls(h) + p =~= handed_urls(h));
    } else {
        lemma_handed_urls_dispatches(h, p.drop_last());
        assert((h + url_dispatches(p)).drop_last() =~= h + url_dispatches(p.drop_last()));
        assert(handed_urls(h) + p =~= (handed_urls(h) + p.drop_last()).push(p.last()));
    }
}

/// A step that only adds known URLs (or changes nothing but the record's
/// flags, counter or receivers) keeps the no-page-twice property.
pub proof fn lemma_no_url_twice_kept(
    s: GlobalStateView,
    t: GlobalStateView,
    q: Seq<Option<Seq<char>>>,
)
    requires
        no_url_twice(s, q),
        handed_urls(t.handed) == handed_urls(s.handed),
        t.pending == s.pending,
        forall|k: Seq<char>| #[trigger] s.urls.contains_key(k) ==> t.urls.contains_key(k),
    ensures
        no_url_twice(t, q),
{
    let all = handed_urls(s.handed) + s.pending + handed_urls(q);
    assert forall|i: int| 0 <= i < all.len() implies t.urls.contains_key(#[trigger] all[i]) by {
        assert(s.urls.contains_key(all[i]));
    }
}

/// The consumer queueing a URL the coordinator did not know keeps the
/// no-page-twice property.
pub proof fn lemma_no_url_twice_queue_new(s: GlobalStateView, q: Seq<Option<Seq<char>>>, u: Seq<char>)
    requires
        no_url_twice(s, q),
        !s.urls.contains_key(u),
    ensures
        no_url_twice(s.register(u), q.push(Some(u))),
{
    let all = handed_urls(s.handed) + s.pending + handed_urls(q);
    let t = s.register(u);
    assert(handed_urls(q.push(Some(u))) =~= handed_urls(q).push(u)) by {
        assert(q.push(Some(u)).drop_last() =~= q);
    }
    let all1 = handed_urls(t.handed) + t.pending + handed_urls(q.push(Some(u)));
    assert(all1 =~= all.push(u));
    assert forall|i: int, k: int| 0 <= i < all1.len() && 0 <= k < all1.len() && i != k implies all1[i]
        != all1[k] by {
        if i < all.len() && k < all.len() {
        } else if i < all.len() {
            assert(s.urls.contains_key(all[i]));
        } else {
            assert(s.urls.contains_key(all[k]));
        }
    }
    assert forall|i: int| 0 <= i < all1.len() implies t.urls.contains_key(#[trigger] all1[i]) by {
        if i < all.len() {
            assert(s.urls.contains_key(all[i]));
        }
    }
}

/// The crawl is done exactly when at least 50 visits were counted and every
/// known URL was visited, however many URLs are known: a visited URL never
/// keeps it from being done, and an unvisited known URL always does.
pub proof fn lemma_visiting_done_exactly(s: GlobalStateView)
    ensures
        s.visiting_done() <==> (s.visited >= 50 && forall|k: Seq<char>| #[trigger] s.urls.contains_key(k)
            ==> s.urls[k]),
        all_visited(s.urls) <==> forall|k: Seq<char>| #[trigger] s.urls.contains_key(k) ==> s.urls[k],
        forall|k: Seq<char>| s.urls.contains_key(k) && !s.urls[k] ==> !#[trigger] all_visited(s.urls.insert(k, false)),
        forall|k: Seq<char>| #[trigger] all_visited(s.urls.insert(k, true)) <== all_visited(s.urls),
{
    assert forall|k: Seq<char>| s.urls.contains_key(k) && !s.urls[k] implies !#[trigger] all_visited(
        s.urls.insert(k, false),
    ) by {
        assert(s.urls.insert(k, false).contains_key(k));
    }
    assert forall|k: Seq<char>| #[trigger] all_visited(s.urls.insert(k, true)) <== all_visited(s.urls) by {
        if all_visited(s.urls) {
            assert forall|j: Seq<char>| #[trigger] s.urls.insert(k, true).contains_key(j) implies s.urls.insert(
                k,
                true,
            )[j] by {
                if j != k {
                    assert(s.urls.contains_key(j));
                }
            }
        }
    }
}

/// A visit counts a known, not yet visited URL: it becomes visited and the
/// counter goes up by one (wrapping only at the top of `isize`); any other
/// URL leaves the record as it was.
pub proof fn lemma_mark_visited_counts(s: GlobalStateView, url: Seq<char>)
    ensures
        s.urls.contains_key(url) && !s.urls[url] ==> {
            &&& s.mark_visited(url).urls == s.urls.insert(url, true)
            &&& s.visited < isize::MAX ==> s.mark_visited(url).visited == s.visited + 1
            &&& s.visited == isize::MAX ==> s.mark_visited(url).visited == isize::MIN
        },
        !(s.urls.contains_key(url) && !s.urls[url]) ==> s.mark_visited(url) == s,
{
}

/// One more, wrapping at the top of `isize`.
pub fn wrapping_increment(c: isize) -> (r: isize)
    ensures
        r == counter_up(c),
{
    if c == isize::MAX { isize::MIN } else { c + 1 }
}

proof fn lemma_unvisited_table_push(s: Seq<Seq<char>>, x: Seq<char>)
    ensures
        unvisited_table(s.push(x)) == unvisited_table(s).insert(x, false),
{
    let a = unvisited_table(s.push(x));
    let b = unvisited_table(s).insert(x, false);
    assert forall|k: Seq<char>| #[trigger] a.contains_key(k) <==> b.contains_key(k) by {
        if s.push(x).contains(k) {
            let i = choose|i: int| 0 <= i < s.push(x).len() && s.push(x)[i] == k;
            if i < s.len() {
                assert(s[i] == k);
                assert(s.contains(k));
            }
        }
        if s.contains(k) {
            let i = choose|i: int| 0 <= i < s.len() && s[i] == k;
            assert(s.push(x)[i] == k);
        }
        if k == x {
            assert(s.push(x)[s.len() as int] == k);
        }
    }
    assert(a =~= b);
}

impl View for GlobalState {
    type V = GlobalStateView;

    closed spec fn view(&self) -> GlobalStateView {
        GlobalStateView {
            pending: string_views(self.urls_data_vec@),
            urls: url_table(self.urls_data),
            visited: self.url_visited,
            channel: self.global_state_tx.channel(),
            handed: dispatch_views(self.global_state_tx.handed()),
            delivered: self.global_state_tx.delivered(),
            receivers: self.global_state_rx_array@.map_values(|rx: Inbox<GlobalStateChannelData>| rx.channel()),
        }
    }
}

impl GlobalState {
    /// The coordinator at the start: every starting URL is known, not visited
    /// and waiting to be handed out; nothing was counted or handed out; one
    /// receiving end of the coordinator's own channel is ready for each
    /// producer thread.
    pub fn new() -> (gs: GlobalState)
        ensures
            gs@.is_initial(),
            no_url_twice(gs@, Seq::empty()),
    {
        let (global_state_tx, global_state_rx) = open_channel::<GlobalStateChannelData>();

        let mut global_state_rx_array: Vec<Inbox<GlobalStateChannelData>> = Vec::new();
        let mut n: isize = 0;
        while n < THREAD_COUNT
            invariant
                0 <= n <= THREAD_COUNT,
                global_state_rx_array.len() == n,
                forall|k: int| 0 <= k < n ==> #[trigger] global_state_rx_array@[k].channel() == global_state_tx.channel(),
                global_state_rx.channel() == global_state_tx.channel(),
            decreases THREAD_COUNT - n,
        {
            global_state_rx_array.push(global_state_rx.duplicate());
            n = n + 1;
        }

        let urls_data_vec = initial_url_list();
        let mut urls_data = table_new();
        let mut i: usize = 0;
        while i < urls_data_vec.len()
            invariant
                i <= urls_data_vec.len(),
                string_views(urls_data_vec@) == initial_urls(),
                url_table(urls_data) == unvisited_table(initial_urls().take(i as int)),
            decreases urls_data_vec.len() - i,
        {
            let url = urls_data_vec[i].clone();
            proof {
                assert(initial_urls()[i as int] == url@);
                assert(initial_urls().take(i as int + 1) =~= initial_urls().take(i as int).push(url@));
                lemma_unvisited_table_push(initial_urls().take(i as int), url@);
            }
            table_insert(&mut urls_data, url, UrlData { visited: false });
            i = i + 1;
        }
        assert(initial_urls().take(i as int) =~= initial_urls());

        let gs = GlobalState {
            urls_data_vec,
            urls_data,
            url_visited: 0,
            global_state_tx,
            global_state_rx_array,
        };
        assert(dispatch_views(gs.global_state_tx.handed()) =~= Seq::<Option<Seq<char>>>::empty());
        proof {
            lemma_initial_dispatches_distinct(gs@);
            let all = handed_urls(gs@.handed) + gs@.pending + handed_urls(Seq::<Option<Seq<char>>>::empty());
            assert(all =~= gs@.pending);
        }
        gs
    }

    /// Hands every waiting URL, in order, to the producers; afterwards none is
    /// waiting. Whether the channel takes a URL does not change what happens
    /// next: the call always succeeds.
    pub fn send_data_to_producer(&mut self) -> (r: Result<(), &'static str>)
        ensures
            r is Ok,
            final(self)@ == (GlobalStateView {
                pending: Seq::empty(),
                handed: old(self)@.handed + url_dispatches(old(self)@.pending),
                delivered: final(self)@.delivered,
                ..old(self)@
            }),
            final(self)@.delivered.len() == old(self)@.delivered.len() + old(self)@.pending.len(),
            final(self)@.delivered.subrange(0, old(self)@.delivered.len() as int) == old(self)@.delivered,
            forall|q: Seq<Option<Seq<char>>>| #![trigger no_url_twice(final(self)@, q)]
                no_url_twice(old(self)@, q) ==> no_url_twice(final(self)@, q),
    {
        let ghost before = self@;
        let mut pending: Vec<String> = Vec::new();
        std::mem::swap(&mut pending, &mut self.urls_data_vec);
        let mut i: usize = 0;
        assert(before.handed + url_dispatches(string_views(pending@).take(0)) =~= before.handed);
        while i < pending.len()
            invariant
                i <= pending.len(),
                string_views(pending@) == before.pending,
                self.urls_data_vec@ == Seq::<String>::empty(),
                url_table(self.urls_data) == before.urls,
                self.url_visited == before.visited,
                self.global_state_rx_array@.map_values(|rx: Inbox<GlobalStateChannelData>| rx.channel())
                    == before.receivers,
                self.global_state_tx.channel() == before.channel,
                self.global_state_tx.delivered().len() == before.delivered.len() + i,
                self.global_state_tx.delivered().subrange(0, before.delivered.len() as int) == before.delivered,
                dispatch_views(self.global_state_tx.handed()) == before.handed + url_dispatches(
                    before.pending.take(i as int),
                ),
            decreases pending.len() - i,
        {
            let url = pending[i].clone();
            let ghost handed_before = self.global_state_tx.handed();
            let ghost delivered_before = self.global_state_tx.delivered();
            let msg = GlobalStateChannelData::ContinueProcessing(GuardedUrlDataType(url));
            let _ = self.global_state_tx.send(msg);
            proof {
                assert(self.global_state_tx.delivered().subrange(0, before.delivered.len() as int)
                    =~= delivered_before.subrange(0, before.delivered.len() as int));
                assert(before.pending[i as int] == url@);
                assert(before.pending.take(i as int + 1) =~= before.pending.take(i as int).push(url@));
                assert(dispatch_views(self.global_state_tx.handed()) =~= dispatch_views(handed_before).push(
                    Some(url@),
                ));
                assert(url_dispatches(before.pending.take(i as int + 1)) =~= url_dispatches(
                    before.pending.take(i as int),
                ).push(Some(url@)));
            }
            i = i + 1;
        }
        assert(before.pending.take(i as int) =~= before.pending);
        assert(string_views(self.urls_data_vec@) =~= Seq::<Seq<char>>::empty());
        proof {
            lemma_handed_urls_dispatches(before.handed, before.pending);
            assert forall|q: Seq<Option<Seq<char>>>| #![trigger no_url_twice(self@, q)]
                no_url_twice(before, q) implies no_url_twice(self@, q) by {
                assert(handed_urls(self@.handed) + self@.pending + handed_urls(q) =~= handed_urls(before.handed)
                    + before.pending + handed_urls(q));
            }
        }
        Ok(())
    }

    /// Hands the end signal to the producers' channel. The answer is `Ok`
    /// exactly when the channel took it; when no producer is listening any
    /// more the signal comes back as the error.
    pub fn send_end_process_signal(&mut self) -> (r: Result<(), GlobalStateChannelData>)
        ensures
            final(self)@ == (GlobalStateView {
                handed: old(self)@.handed.push(None),
                delivered: old(self)@.delivered.push(r is Ok),
                ..old(self)@
            }),
            r matches Err(back) ==> back is EndProcessing,
            forall|q: Seq<Option<Seq<char>>>| #![trigger no_url_twice(final(self)@, q)]
                no_url_twice(old(self)@, q) ==> no_url_twice(final(self)@, q),
    {
        let ghost before = self@;
        let ghost handed_before = self.global_state_tx.handed();
        let r = self.global_state_tx.send(GlobalStateChannelData::EndProcessing);
        assert(dispatch_views(self.global_state_tx.handed()) =~= dispatch_views(handed_before).push(None));
        proof {
            assert(self@.handed.drop_last() =~= before.handed);
            assert forall|q: Seq<Option<Seq<char>>>| #![trigger no_url_twice(self@, q)]
                no_url_twice(before, q) implies no_url_twice(self@, q) by {
                lemma_no_url_twice_kept(before, self@, q);
            }
        }
        r
    }

    fn is_max_url_visited(&self) -> (r: bool)
        ensures
            r == (self@.visited >= MAX_URLS_TO_PROCESS),
    {
        self.url_visited >= MAX_URLS_TO_PROCESS
    }

    fn are_all_url_visited(&self) -> (r: bool)
        ensures
            r == all_visited(self@.urls),
            r <==> (forall|k: Seq<char>| #[trigger] self@.urls.contains_key(k) ==> self@.urls[k]),
    {
        let entries = table_entries(&self.urls_data);
        let mut i: usize = 0;
        while i < entries.len()
            invariant
                i <= entries.len(),
                forall|j: int| 0 <= j < i ==> entries@[j].1,
                forall|j: int| #![trigger entries@[j]] 0 <= j < entries.len() ==> url_table(self.urls_data).contains_key(entries@[j].0@)
                    && url_table(self.urls_data)[entries@[j].0@] == entries@[j].1,
            decreases entries.len() - i,
        {
            if !entries[i].1 {
                assert(url_table(self.urls_data).contains_key(entries@[i as int].0@));
                assert(!all_visited(url_table(self.urls_data)));
                return false;
            }
            i = i + 1;
        }
        assert forall|k: Seq<char>| #[trigger] url_table(self.urls_data).contains_key(k) implies url_table(
            self.urls_data,
        )[k] by {
            let j = choose|j: int| 0 <= j < entries.len() && entries@[j].0@ == k;
            assert(url_table(self.urls_data).contains_key(entries@[j].0@));
        }
        true
    }

    /// The crawl is over: enough URLs were visited and every known URL was visited.
    pub fn is_all_urls_visiting_done(&self) -> (r: bool)
        ensures
            r == self@.visiting_done(),
            r <==> (self@.visited >= 50 && forall|k: Seq<char>| #[trigger] self@.urls.contains_key(k)
                ==> self@.urls[k]),
    {
        let max_url_visited = self.is_max_url_visited();
        let all_url_visited = self.are_all_url_visited();
        max_url_visited && all_url_visited
    }

    /// What is recorded of a URL, if it is known.
    pub fn url_data(&self, url: &String) -> (r: Option<UrlData>)
        ensures
            r is Some <==> self@.urls.contains_key(url@),
            r matches Some(d) ==> d.visited == self@.urls[url@],
    {
        table_get(&self.urls_data, url)
    }

    /// Records a URL; nothing else changes.
    pub fn set_url_data(&mut self, url: String, data: UrlData)
        ensures
            final(self)@ == (GlobalStateView { urls: old(self)@.urls.insert(url@, data.visited), ..old(self)@ }),
    {
        let _ = table_insert(&mut self.urls_data, url, data);
    }

    /// Counts one more visit.
    pub fn count_visit(&mut self)
        ensures
            final(self)@ == (GlobalStateView { visited: counter_up(old(self)@.visited), ..old(self)@ }),
    {
        self.url_visited = wrapping_increment(self.url_visited);
    }

    /// Hands out one of the receiving ends prepared for the producer tasks,
    /// the last one, if one is left.
    pub fn take_receiver(&mut self) -> (r: Option<Inbox<GlobalStateChannelData>>)
        ensures
            r is Some <==> old(self)@.receivers.len() > 0,
            r matches Some(rx) ==> rx.channel() == old(self)@.receivers.last(),
            final(self)@ == (GlobalStateView {
                receivers: if old(self)@.receivers.len() > 0 {
                    old(self)@.receivers.drop_last()
                } else {
                    old(self)@.receivers
                },
                ..old(self)@
            }),
    {
        let ghost before = self.global_state_rx_array@;
        let r = self.global_state_rx_array.pop();
        proof {
            if before.len() > 0 {
                assert(self.global_state_rx_array@ =~= before.drop_last());
                assert(self.global_state_rx_array@.map_values(|rx: Inbox<GlobalStateChannelData>| rx.channel())
                    =~= before.map_values(|rx: Inbox<GlobalStateChannelData>| rx.channel()).drop_last());
            }
        }
        r
    }

    /// The coordinator's own sending end.
    pub closed spec fn sending_end(&self) -> Outbox<GlobalStateChannelData> {
        self.global_state_tx
    }

    /// The sending end on which URLs go to the producers.
    pub fn sender(&self) -> (tx: &Outbox<GlobalStateChannelData>)
        ensures
            *tx == self.sending_end(),
            tx.channel() == self@.channel,
    {
        &self.global_state_tx
    }

    /// How many URLs are known.
    pub fn known_url_count(&self) -> (n: usize)
        ensures
            n == self@.urls.len(),
    {
        let entries = table_entries(&self.urls_data);
        entries.len()
    }

    /// The visit counter.
    pub fn visited_count(&self) -> (r: isize)
        ensures
            r == self@.visited,
    {
        self.url_visited
    }

    /// Every known URL with its visited flag, each once, in no particular order.
    pub fn url_entries(&self) -> (entries: Vec<(String, bool)>)
        ensures
            entries.len() == self@.urls.len(),
            forall|i: int| #![trigger entries@[i]] 0 <= i < entries.len() ==> self@.urls.contains_key(entries@[i].0@)
                && self@.urls[entries@[i].0@] == entries@[i].1,
            forall|k: Seq<char>| #[trigger] self@.urls.contains_key(k) ==> exists|i: int|
                0 <= i < entries.len() && #[trigger] entries@[i].0@ == k,
            forall|i: int, j: int| 0 <= i < j < entries.len() ==> entries@[i].0@ != entries@[j].0@,
    {
        table_entries(&self.urls_data)
    }
}

} // verus!
