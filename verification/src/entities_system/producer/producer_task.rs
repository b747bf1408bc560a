//! One producer: it receives a URL from the coordinator, "crawls" it, reports
//! the page and two discovered URLs to the consumer, and marks the crawled URL
//! visited.
use vstd::prelude::*;
use vstd::string::{StrSliceExecFns, StringExecFns};
use crate::channel::{Inbox, Outbox};
use crate::constants::MAX_URLS_TO_PROCESS;
use crate::entities_system::app_global_state::{
    counter_up, lemma_no_url_twice_kept, lemma_visits_are_never_undone, no_url_twice, GlobalState, GlobalStateChannelData, GlobalStateView, GuardedUrlDataType, UrlData,
};
use crate::entities_system::producer::{
    lemma_taking_two_splits_pool, opt_view, pool_rest, present_urls, taken_urls, Message,
    NewUrls, ProducerChannelData, ProducerErr, UrlPool,
};

verus! {

/// A producer's private state: where it receives URLs, where it reports to
/// the consumer, and its name.
pub struct ProducerTask {
    global_state_receiver: Inbox<GlobalStateChannelData>,
    producer_tx: Outbox<ProducerChannelData>,
    threat_name: String,
}

/// What a producer did with one message from the coordinator.
#[derive(Debug)]
pub enum ProducerStep {
    /// The coordinator ended the crawl: the producer stops.
    Finished,
    /// A URL was processed, with the outcome of the report to the consumer.
    Processed(Result<(), String>),
}

/// What a report to the consumer carries.
pub struct ReportView {
    pub urls1: Option<Seq<char>>,
    pub urls2: Option<Seq<char>>,
    pub url: Seq<char>,
    pub words: nat,
}

/// The view of a message to the consumer: the report, or `None` for the end signal.
pub open spec fn report_view(m: ProducerChannelData) -> Option<ReportView> {
    match m {
        ProducerChannelData::ContinueProcessing(found, page) => Some(
            ReportView { urls1: opt_view(found.urls1), urls2: opt_view(found.urls2), url: page.url@, words: page.words as nat },
        ),
        ProducerChannelData::EndProcessing => None,
    }
}

/// The views of a sequence of messages to the consumer.
pub open spec fn report_views(s: Seq<ProducerChannelData>) -> Seq<Option<ReportView>> {
    s.map_values(|m: ProducerChannelData| report_view(m))
}

/// The two fake pages discovered on a crawled page once the pool is used up.
pub open spec fn fake_pages(crawled: Seq<char>) -> Seq<Seq<char>> {
    seq![crawled + "/page1"@, crawled + "/page2"@]
}

/// The URLs newly made up while crawling: the fake pages, when the pool is
/// empty and fewer than `MAX_URLS_TO_PROCESS` URLs are known; otherwise none.
/// The cap is this library's rule: it bounds the known URLs near the limit,
/// so that every known URL can be visited and the crawl can end. Past it a
/// report still goes to the consumer (its page's words are still counted),
/// carrying no discovered URL.
pub open spec fn fresh_urls(known: nat, pool: Seq<Seq<char>>, crawled: Seq<char>) -> Seq<Seq<char>> {
    if pool.len() == 0 && known < MAX_URLS_TO_PROCESS {
        fake_pages(crawled)
    } else {
        Seq::empty()
    }
}

/// The URLs discovered while crawling, in order: up to two taken from the
/// pool; with an empty pool, the fresh fake pages.
pub open spec fn discovered_urls(known: nat, pool: Seq<Seq<char>>, crawled: Seq<char>) -> Seq<Seq<char>> {
    if pool.len() > 0 {
        taken_urls(pool)
    } else {
        fresh_urls(known, pool, crawled)
    }
}

/// The report of crawling `crawled` with `known` URLs known and the given pool.
pub open spec fn expected_report(known: nat, pool: Seq<Seq<char>>, crawled: Seq<char>) -> ReportView {
    let d = discovered_urls(known, pool, crawled);
    ReportView {
        urls1: if d.len() >= 1 { Some(d[0]) } else { None },
        urls2: if d.len() >= 2 { Some(d[1]) } else { None },
        url: crawled,
        words: crawled.len(),
    }
}

/// The pool after a report: the taken URLs are gone; when the report was
/// refused, the discovered URLs are put back (first discovered first).
pub open spec fn pool_after_report(
    known: nat,
    pool: Seq<Seq<char>>,
    crawled: Seq<char>,
    delivered: bool,
) -> Seq<Seq<char>> {
    if delivered {
        pool_rest(pool)
    } else {
        pool_rest(pool) + discovered_urls(known, pool, crawled)
    }
}

/// The outcome of a report: the pool as above, and the error text of a refusal.
pub open spec fn report_outcome(
    known: nat,
    pool0: Seq<Seq<char>>,
    crawled: Seq<char>,
    r: Result<(), String>,
    pool1: Seq<Seq<char>>,
) -> bool {
    match r {
        Ok(()) => pool1 == pool_after_report(known, pool0, crawled, true),
        Err(e) => pool1 == pool_after_report(known, pool0, crawled, false) && e@ == "Fail to send producer value"@,
    }
}

/// The outcome of crawling `url`: the report as above and, only when it was
/// delivered, the URL marked visited and counted once.
pub open spec fn crawl_outcome(
    gs0: GlobalStateView,
    pool0: Seq<Seq<char>>,
    url: Seq<char>,
    r: Result<(), String>,
    gs1: GlobalStateView,
    pool1: Seq<Seq<char>>,
) -> bool {
    &&& report_outcome(gs0.urls.len(), pool0, url, r, pool1)
    &&& gs1 == (if r is Ok { gs0.mark_visited(url) } else { gs0 })
}

/// What a crawl discovers: with URLs in the pool, the last two of it (the
/// last first); with an empty pool and fewer than `MAX_URLS_TO_PROCESS` URLs
/// known, exactly the two fake pages `<url>/page1` and `<url>/page2`; with an
/// empty pool and that many URLs known, nothing.
pub proof fn lemma_discovery(known: nat, pool: Seq<Seq<char>>, crawled: Seq<char>)
    ensures
        pool.len() >= 2 ==> discovered_urls(known, pool, crawled) == seq![pool[pool.len() - 1], pool[pool.len() - 2]],
        pool.len() == 1 ==> discovered_urls(known, pool, crawled) == seq![pool[0]],
        pool.len() == 0 && known < MAX_URLS_TO_PROCESS ==> discovered_urls(known, pool, crawled) == seq![
            crawled + "/page1"@,
            crawled + "/page2"@,
        ],
        pool.len() == 0 && known < MAX_URLS_TO_PROCESS ==> expected_report(known, pool, crawled).urls1 == Some(
            crawled + "/page1"@,
        ) && expected_report(known, pool, crawled).urls2 == Some(crawled + "/page2"@),
        pool.len() == 0 && known >= MAX_URLS_TO_PROCESS ==> discovered_urls(known, pool, crawled).len() == 0,
        expected_report(known, pool, crawled).url == crawled,
        expected_report(known, pool, crawled).words == crawled.len(),
{
}

/// A delivered report of a known URL not yet visited marks it visited and
/// counts it once, whatever URLs the report carried; a refused report
/// changes nothing in the record.
pub proof fn lemma_delivered_crawl_counts(
    gs0: GlobalStateView,
    pool0: Seq<Seq<char>>,
    url: Seq<char>,
    r: Result<(), String>,
    gs1: GlobalStateView,
    pool1: Seq<Seq<char>>,
)
    requires
        crawl_outcome(gs0, pool0, url, r, gs1, pool1),
    ensures
        r is Ok && gs0.urls.contains_key(url) && !gs0.urls[url] ==> {
            &&& gs1.urls.contains_key(url) && gs1.urls[url]
            &&& gs1.visited == counter_up(gs0.visited)
            &&& gs0.visited < isize::MAX ==> gs1.visited == gs0.visited + 1
        },
        r is Ok && gs0.urls.contains_key(url) && gs0.urls[url] ==> gs1 == gs0,
        r is Ok ==> gs1.urls.dom() == gs0.urls.dom().insert(url) || gs1.urls.dom() == gs0.urls.dom(),
        r is Err ==> gs1 == gs0,
{
    if r is Ok && gs0.urls.contains_key(url) {
        assert(gs1.urls.dom() =~= gs0.urls.dom());
    }
}

/// One report of a run of reports on a shared pool.
pub struct PoolStep {
    /// How many URLs were known when the page was crawled.
    pub known: nat,
    /// The crawled page.
    pub crawled: Seq<char>,
    /// Whether the consumer took the report.
    pub delivered: bool,
}

/// A run of reports from a pool: the pool afterwards, the URLs delivered to
/// the consumer, and the fake pages made up, each in order.
pub open spec fn pool_run(pool: Seq<Seq<char>>, steps: Seq<PoolStep>) -> (
    Seq<Seq<char>>,
    Seq<Seq<char>>,
    Seq<Seq<char>>,
)
    decreases steps.len(),
{
    if steps.len() == 0 {
        (pool, Seq::empty(), Seq::empty())
    } else {
        let (p, reported, fresh) = pool_run(pool, steps.drop_last());
        let st = steps.last();
        let d = discovered_urls(st.known, p, st.crawled);
        (
            pool_after_report(st.known, p, st.crawled, st.delivered),
            if st.delivered { reported + d } else { reported },
            fresh + fresh_urls(st.known, p, st.crawled),
        )
    }
}

/// One report keeps the URLs: what is left in the pool and what was
/// delivered hold exactly the pool's URLs and the fake pages made up.
pub proof fn lemma_report_keeps_urls(known: nat, pool: Seq<Seq<char>>, crawled: Seq<char>, delivered: bool)
    ensures
        (pool_after_report(known, pool, crawled, delivered) + (if delivered {
            discovered_urls(known, pool, crawled)
        } else {
            Seq::empty()
        })).to_multiset() == (pool + fresh_urls(known, pool, crawled)).to_multiset(),
{
    lemma_taking_two_splits_pool(pool);
    let rest = pool_rest(pool);
    let d = discovered_urls(known, pool, crawled);
    let f = fresh_urls(known, pool, crawled);
    if pool.len() > 0 {
        assert(f =~= Seq::<Seq<char>>::empty());
        assert(pool + f =~= pool);
    } else {
        assert(rest =~= Seq::<Seq<char>>::empty());
        assert(pool =~= Seq::<Seq<char>>::empty());
        assert(d == f);
    }
    if !delivered {
        assert(rest + d + Seq::<Seq<char>>::empty() =~= rest + d);
    }
}

/// A run of reports on a shared pool loses and duplicates no URL: the pool
/// afterwards together with every URL delivered to the consumer holds exactly
/// the URLs the pool started with and the fake pages made up on the way. In
/// particular, while no fake page is made, the pool and the delivered URLs
/// are exactly the starting pool.
pub proof fn lemma_pool_run_keeps_urls(pool: Seq<Seq<char>>, steps: Seq<PoolStep>)
    ensures
        (pool_run(pool, steps).0 + pool_run(pool, steps).1).to_multiset() == (pool + pool_run(
            pool,
            steps,
        ).2).to_multiset(),
    decreases steps.len(),
{
    broadcast use vstd::seq_lib::lemma_multiset_commutative;

    if steps.len() == 0 {
        assert(pool_run(pool, steps).1 =~= Seq::<Seq<char>>::empty());
        assert(pool + Seq::<Seq<char>>::empty() =~= pool);
    } else {
        lemma_pool_run_keeps_urls(pool, steps.drop_last());
        let (p, reported, fresh) = pool_run(pool, steps.drop_last());
        let st = steps.last();
        lemma_report_keeps_urls(st.known, p, st.crawled, st.delivered);
        let d = discovered_urls(st.known, p, st.crawled);
        let f = fresh_urls(st.known, p, st.crawled);
        let p1 = pool_after_report(st.known, p, st.crawled, st.delivered);
        let sent: Seq<Seq<char>> = if st.delivered { d } else { Seq::empty() };
        let r1 = if st.delivered { reported + d } else { reported };
        assert(r1 =~= reported + sent);
        assert((p1 + r1).to_multiset() =~= (p1 + sent).to_multiset().add(reported.to_multiset()));
        assert((pool + (fresh + f)).to_multiset() =~= (pool + fresh).to_multiset().add(f.to_multiset()));
        assert((p + f).to_multiset() =~= p.to_multiset().add(f.to_multiset()));
        assert((p + reported).to_multiset() =~= p.to_multiset().add(reported.to_multiset()));
    }
}

/// Settles a report once the channel answered: a delivered report needs
/// nothing more; a refused one puts the URLs it carried back at the end of
/// the pool, first carried first.
pub fn settle_report(new_urls: &mut UrlPool, sent: Result<(), ProducerChannelData>) -> (r: Result<(), String>)
    ensures
        r is Ok <==> sent is Ok,
        r matches Err(e) ==> e@ == "Fail to send producer value"@,
        final(new_urls).start() == old(new_urls).start(),
        final(new_urls).minted() == old(new_urls).minted(),
        final(new_urls).issued() == old(new_urls).issued(),
        match sent {
            Ok(()) => final(new_urls)@ == old(new_urls)@,
            Err(ProducerChannelData::ContinueProcessing(found, _)) => final(new_urls)@ == old(new_urls)@
                + present_urls(opt_view(found.urls1), opt_view(found.urls2)),
            Err(ProducerChannelData::EndProcessing) => final(new_urls)@ == old(new_urls)@,
        },
{
    match sent {
        Ok(()) => Ok(()),
        Err(error) => {
            match error {
                ProducerChannelData::ContinueProcessing(err_new_urls, _) => {
                    let ghost back = present_urls(opt_view(err_new_urls.urls1), opt_view(err_new_urls.urls2));
                    let NewUrls { urls1, urls2 } = err_new_urls;
                    let mut values: Vec<String> = Vec::new();
                    if let Some(value) = urls1 {
                        values.push(value);
                    }
                    if let Some(value) = urls2 {
                        values.push(value);
                    }
                    assert(crate::constants::string_views(values@) =~= back);
                    if values.len() > 0 {
                        new_urls.new_urls_add(values);
                    } else {
                        assert(new_urls@ + back =~= new_urls@);
                    }
                    Err("Fail to send producer value".to_owned())
                },
                ProducerChannelData::EndProcessing => Err("Fail to send producer value".to_owned()),
            }
        },
    }
}

impl ProducerTask {
    /// The task's name.
    pub closed spec fn name_view(&self) -> Seq<char> {
        self.threat_name@
    }

    /// The receiving end the task took from the coordinator.
    pub closed spec fn receiver_end(&self) -> Inbox<GlobalStateChannelData> {
        self.global_state_receiver
    }

    /// The sending end the task reports on.
    pub closed spec fn producer_end(&self) -> Outbox<ProducerChannelData> {
        self.producer_tx
    }

    /// The channel on which the task reports to the consumer.
    pub closed spec fn report_channel(&self) -> crossbeam::channel::Sender<ProducerChannelData> {
        self.producer_tx.channel()
    }

    /// For every report handed to the consumer's channel, whether it was taken.
    pub closed spec fn deliveries(&self) -> Seq<bool> {
        self.producer_tx.delivered()
    }

    /// Every report the task handed to the consumer's channel, in order.
    pub closed spec fn reported(&self) -> Seq<Option<ReportView>> {
        report_views(self.producer_tx.handed())
    }

    /// Sets up a producer with the given reporting end and the last of the
    /// receiving ends the coordinator prepared; fails when none is left.
    pub fn new(
        guarded_global_state: &mut GlobalState,
        producer_tx: Outbox<ProducerChannelData>,
        threat_name: String,
    ) -> (r: Result<ProducerTask, ProducerErr>)
        ensures
            r is Ok <==> old(guarded_global_state)@.receivers.len() > 0,
            r matches Err(e) ==> e is GlobalStateRxNoneErr,
            r matches Ok(task) ==> {
                &&& task.name_view() == threat_name@
                &&& task.producer_end() == producer_tx
                &&& task.receiver_end().channel() == old(guarded_global_state)@.receivers.last()
                &&& task.report_channel() == producer_tx.channel()
                &&& task.reported() == report_views(producer_tx.handed())
                &&& task.deliveries() == producer_tx.delivered()
            },
            final(guarded_global_state)@ == (GlobalStateView {
                receivers: if old(guarded_global_state)@.receivers.len() > 0 {
                    old(guarded_global_state)@.receivers.drop_last()
                } else {
                    old(guarded_global_state)@.receivers
                },
                ..old(guarded_global_state)@
            }),
            forall|q: Seq<Option<Seq<char>>>| #![trigger no_url_twice(final(guarded_global_state)@, q)]
                no_url_twice(old(guarded_global_state)@, q) ==> no_url_twice(final(guarded_global_state)@, q),
    {
        let ghost s0 = guarded_global_state@;
        let rx = guarded_global_state.take_receiver();
        proof {
            assert forall|q: Seq<Option<Seq<char>>>| #![trigger no_url_twice(guarded_global_state@, q)]
                no_url_twice(s0, q) implies no_url_twice(guarded_global_state@, q) by {
                lemma_no_url_twice_kept(s0, guarded_global_state@, q);
            }
        }
        match rx {
            None => Err(ProducerErr::GlobalStateRxNoneErr),
            Some(global_state_receiver) => Ok(ProducerTask { global_state_receiver, producer_tx, threat_name }),
        }
    }

    /// The end on which the coordinator's messages arrive.
    pub fn receiver(&self) -> (rx: &Inbox<GlobalStateChannelData>)
        ensures
            *rx == self.receiver_end(),
    {
        &self.global_state_receiver
    }

    /// The task's name.
    pub fn name(&self) -> (n: &String)
        ensures
            n@ == self.name_view(),
    {
        &self.threat_name
    }

    /// Handles one message from the coordinator: the end signal stops the
    /// producer; a URL is crawled (the simulated latency has already passed).
    pub fn handle_message(
        &mut self,
        guarded_global_state: &mut GlobalState,
        new_urls: &mut UrlPool,
        msg: GlobalStateChannelData,
    ) -> (step: ProducerStep)
        ensures
            final(self).receiver_end() == old(self).receiver_end(),
            final(self).report_channel() == old(self).report_channel(),
            final(self).name_view() == old(self).name_view(),
            forall|q: Seq<Option<Seq<char>>>| #![trigger no_url_twice(final(guarded_global_state)@, q)]
                no_url_twice(old(guarded_global_state)@, q) ==> no_url_twice(final(guarded_global_state)@, q),
            old(new_urls).balanced() ==> final(new_urls).balanced(),
            match msg {
                GlobalStateChannelData::EndProcessing => {
                    &&& step is Finished
                    &&& final(guarded_global_state)@ == old(guarded_global_state)@
                    &&& final(new_urls)@ == old(new_urls)@
                    &&& final(self).reported() == old(self).reported()
                    &&& final(self).deliveries() == old(self).deliveries()
                    &&& final(new_urls).start() == old(new_urls).start()
                    &&& final(new_urls).minted() == old(new_urls).minted()
                    &&& final(new_urls).issued() == old(new_urls).issued()
                },
                GlobalStateChannelData::ContinueProcessing(data) => {
                    &&& step matches ProducerStep::Processed(r) && crawl_outcome(
                        old(guarded_global_state)@,
                        old(new_urls)@,
                        data.0@,
                        r,
                        final(guarded_global_state)@,
                        final(new_urls)@,
                    )
                    &&& final(self).reported() == old(self).reported().push(
                        Some(expected_report(old(guarded_global_state)@.urls.len(), old(new_urls)@, data.0@)),
                    )
                    &&& step matches ProducerStep::Processed(r) && final(self).deliveries() == old(
                        self,
                    ).deliveries().push(r is Ok) && final(new_urls).issued() == old(new_urls).issued() + (if r is Ok {
                        discovered_urls(old(guarded_global_state)@.urls.len(), old(new_urls)@, data.0@)
                    } else {
                        Seq::empty()
                    })
                    &&& final(new_urls).start() == old(new_urls).start()
                    &&& final(new_urls).minted() == old(new_urls).minted() + fresh_urls(
                        old(guarded_global_state)@.urls.len(),
                        old(new_urls)@,
                        data.0@,
                    )
                },
            },
    {
        match msg {
            GlobalStateChannelData::EndProcessing => ProducerStep::Finished,
            GlobalStateChannelData::ContinueProcessing(data) => {
                let r = self.update_received_data(guarded_global_state, new_urls, data);
                ProducerStep::Processed(r)
            },
        }
    }

    /// Crawls one URL: reports the page and the URLs discovered on it to the
    /// consumer and, when the report was delivered, marks the URL visited and
    /// counts it if it is known and was not visited yet.
    pub fn update_received_data(
        &mut self,
        guarded_global_state: &mut GlobalState,
        new_urls: &mut UrlPool,
        data: GuardedUrlDataType,
    ) -> (r: Result<(), String>)
        ensures
            crawl_outcome(
                old(guarded_global_state)@,
                old(new_urls)@,
                data.0@,
                r,
                final(guarded_global_state)@,
                final(new_urls)@,
            ),
            final(self).reported() == old(self).reported().push(
                Some(expected_report(old(guarded_global_state)@.urls.len(), old(new_urls)@, data.0@)),
            ),
            final(self).deliveries() == old(self).deliveries().push(r is Ok),
            final(self).receiver_end() == old(self).receiver_end(),
            final(self).report_channel() == old(self).report_channel(),
            final(self).name_view() == old(self).name_view(),
            forall|q: Seq<Option<Seq<char>>>| #![trigger no_url_twice(final(guarded_global_state)@, q)]
                no_url_twice(old(guarded_global_state)@, q) ==> no_url_twice(final(guarded_global_state)@, q),
            r is Ok && old(guarded_global_state)@.urls.contains_key(data.0@) && !old(guarded_global_state)@.urls[data.0@]
                ==> final(guarded_global_state)@.urls.contains_key(data.0@) && final(guarded_global_state)@.urls[data.0@]
                && final(guarded_global_state)@.visited == counter_up(old(guarded_global_state)@.visited),
            r is Err ==> final(guarded_global_state)@ == old(guarded_global_state)@,
            old(new_urls)@.len() == 0 && old(guarded_global_state)@.urls.len() < MAX_URLS_TO_PROCESS
                ==> final(self).reported().last() == Some(
                ReportView {
                    urls1: Some(data.0@ + "/page1"@),
                    urls2: Some(data.0@ + "/page2"@),
                    url: data.0@,
                    words: data.0@.len(),
                },
            ),
            final(new_urls).start() == old(new_urls).start(),
            final(new_urls).minted() == old(new_urls).minted() + fresh_urls(old(guarded_global_state)@.urls.len(), old(new_urls)@, data.0@),
            final(new_urls).issued() == old(new_urls).issued() + (if r is Ok {
                discovered_urls(old(guarded_global_state)@.urls.len(), old(new_urls)@, data.0@)
            } else {
                Seq::empty()
            }),
            old(new_urls).balanced() ==> final(new_urls).balanced(),
    {
        let ghost s0 = guarded_global_state@;
        let send_data_res = self.send_data_to_consumer(guarded_global_state, new_urls, &data.0);
        match send_data_res {
            Ok(()) => {
                let unvisited_url_key = data.0;
                let recorded = guarded_global_state.url_data(&unvisited_url_key);
                if let Some(value) = recorded {
                    if !value.visited {
                        guarded_global_state.set_url_data(unvisited_url_key, UrlData { visited: true });
                        guarded_global_state.count_visit();
                    }
                }
                proof {
                    assert forall|q: Seq<Option<Seq<char>>>| #![trigger no_url_twice(guarded_global_state@, q)]
                        no_url_twice(s0, q) implies no_url_twice(guarded_global_state@, q) by {
                        assert forall|k: Seq<char>| #[trigger] s0.urls.contains_key(k) implies guarded_global_state@.urls.contains_key(k) by {
                            lemma_visits_are_never_undone(s0, data.0@, k);
                        }
                        lemma_no_url_twice_kept(s0, guarded_global_state@, q);
                    }
                }
                Ok(())
            },
            Err(err) => Err(err),
        }
    }

    /// The URLs discovered on a crawled page: up to two from the pool; with
    /// an empty pool, two fake pages of the crawled URL while fewer than the
    /// limit of URLs are known.
    fn discover(known: usize, new_urls: &mut UrlPool, crawled: &String) -> (found: NewUrls)
        ensures
            final(new_urls)@ == pool_rest(old(new_urls)@),
            final(new_urls).start() == old(new_urls).start(),
            final(new_urls).minted() == old(new_urls).minted(),
            final(new_urls).issued() == old(new_urls).issued(),
            old(new_urls)@.len() == 0 && known < MAX_URLS_TO_PROCESS ==> opt_view(found.urls1) == Some(
                crawled@ + "/page1"@,
            ) && opt_view(found.urls2) == Some(crawled@ + "/page2"@),
            opt_view(found.urls1) == expected_report(known as nat, old(new_urls)@, crawled@).urls1,
            opt_view(found.urls2) == expected_report(known as nat, old(new_urls)@, crawled@).urls2,
    {
        let taken = new_urls.get_new_urls_two_values();
        if taken.urls1.is_some() {
            taken
        } else if known < MAX_URLS_TO_PROCESS as usize {
            let page1 = crawled.clone().concat("/page1");
            let page2 = crawled.clone().concat("/page2");
            NewUrls { urls1: Some(page1), urls2: Some(page2) }
        } else {
            NewUrls { urls1: None, urls2: None }
        }
    }

    /// Reports a crawled page and the URLs discovered on it to the consumer.
    /// When the consumer is gone, the discovered URLs go to the pool.
    fn send_data_to_consumer(
        &mut self,
        guarded_global_state: &GlobalState,
        new_urls: &mut UrlPool,
        crawled: &String,
    ) -> (r: Result<(), String>)
        ensures
            report_outcome(guarded_global_state@.urls.len(), old(new_urls)@, crawled@, r, final(new_urls)@),
            final(self).reported() == old(self).reported().push(
                Some(expected_report(guarded_global_state@.urls.len(), old(new_urls)@, crawled@)),
            ),
            final(self).deliveries() == old(self).deliveries().push(r is Ok),
            final(self).receiver_end() == old(self).receiver_end(),
            final(self).report_channel() == old(self).report_channel(),
            final(self).name_view() == old(self).name_view(),
            final(new_urls).start() == old(new_urls).start(),
            final(new_urls).minted() == old(new_urls).minted() + fresh_urls(guarded_global_state@.urls.len(), old(new_urls)@, crawled@),
            final(new_urls).issued() == old(new_urls).issued() + (if r is Ok {
                discovered_urls(guarded_global_state@.urls.len(), old(new_urls)@, crawled@)
            } else {
                Seq::empty()
            }),
            old(new_urls).balanced() ==> final(new_urls).balanced(),
    {
        let ghost pool0 = new_urls@;
        let ghost issued0 = new_urls.issued();
        let ghost minted0 = new_urls.minted();
        let known = guarded_global_state.known_url_count();
        let found = Self::discover(known, new_urls, crawled);
        let page = Message { url: crawled.clone(), words: crawled.as_str().unicode_len() };
        let msg = ProducerChannelData::ContinueProcessing(found, page);
        let ghost handed0 = self.producer_tx.handed();
        let ghost d = discovered_urls(known as nat, pool0, crawled@);
        proof {
            assert(present_urls(opt_view(found.urls1), opt_view(found.urls2)) =~= d);
        }
        let sent = self.producer_tx.send(msg);
        assert(report_views(self.producer_tx.handed()) =~= report_views(handed0).push(report_view(msg)));
        let r = settle_report(new_urls, sent);
        let ghost f = fresh_urls(known as nat, pool0, crawled@);
        let ghost out: Seq<Seq<char>> = if r is Ok { d } else { Seq::empty() };
        new_urls.minted = Ghost(minted0 + f);
        new_urls.issued = Ghost(issued0 + out);
        proof {
            broadcast use vstd::seq_lib::lemma_multiset_commutative;

            lemma_report_keeps_urls(known as nat, pool0, crawled@, r is Ok);
            let p1 = new_urls@;
            let st = new_urls.start();
            assert(p1 == pool_after_report(known as nat, pool0, crawled@, r is Ok));
            let a = pool0.to_multiset();
            let i0 = issued0.to_multiset();
            let fm = f.to_multiset();
            assert((p1 + out).to_multiset() == (pool0 + f).to_multiset());
            assert((pool0 + f).to_multiset() =~= a.add(fm));
            assert((p1 + (issued0 + out)).to_multiset() =~= (p1 + out).to_multiset().add(i0)) by {
                assert((p1 + (issued0 + out)).to_multiset() =~= p1.to_multiset().add((issued0 + out).to_multiset()));
                assert((issued0 + out).to_multiset() =~= i0.add(out.to_multiset()));
                assert((p1 + out).to_multiset() =~= p1.to_multiset().add(out.to_multiset()));
            }
            assert((st + (minted0 + f)).to_multiset() =~= (st + minted0).to_multiset().add(fm)) by {
                assert((st + (minted0 + f)).to_multiset() =~= st.to_multiset().add((minted0 + f).to_multiset()));
                assert((minted0 + f).to_multiset() =~= minted0.to_multiset().add(fm));
                assert((st + minted0).to_multiset() =~= st.to_multiset().add(minted0.to_multiset()));
            }
            assert((pool0 + issued0).to_multiset() =~= a.add(i0));
            assert(a.add(fm).add(i0) =~= a.add(i0).add(fm));
        }
        r
    }
}

} // verus!
