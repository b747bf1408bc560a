//! The consumer (indexer): it registers the URLs the producers discovered,
//! queues the new ones for the producers, and keeps a running total of the
//! words of every crawled page reported to it.
use vstd::prelude::*;
use crate::channel::{Inbox, Outbox};
use crate::entities_system::app_global_state::{
    dispatch_view, dispatch_views, lemma_no_url_twice_queue_new, no_url_twice, url_dispatches, GlobalState, GlobalStateChannelData, GlobalStateView,
    GuardedUrlDataType, UrlData,
};
use crate::entities_system::producer::{opt_view, present_urls, ProducerChannelData, ProducerErr};

verus! {

/// The consumer's private state: where the producers' reports arrive, where
/// newly found URLs go to the coordinator's queue, and the word total.
pub struct ConsumerTask {
    producer_rx: Inbox<ProducerChannelData>,
    global_state_tx: Outbox<GlobalStateChannelData>,
    total_words: usize,
}

/// The word total after adding a page's words, staying at the largest
/// `usize` rather than wrapping.
pub open spec fn add_words(total: usize, words: usize) -> usize {
    if total + words > usize::MAX { usize::MAX } else { (total + words) as usize }
}

/// The word total adds up the pages' words: without overflow it grows by
/// exactly the page's words; past the largest `usize` it stays there; and two
/// reports in a row add the sum of their words.
pub proof fn lemma_add_words_sums(total: usize, a: usize, b: usize)
    ensures
        total + a <= usize::MAX ==> add_words(total, a) == total + a,
        total + a > usize::MAX ==> add_words(total, a) == usize::MAX,
        total + a + b <= usize::MAX ==> add_words(add_words(total, a), b) == total + a + b,
        add_words(total, a) >= total,
{
}

/// Registering discovered URLs one after the other: the coordinator
/// afterwards, and the URLs that were new and so queued for the producers,
/// in order.
pub open spec fn register_run(s: GlobalStateView, urls: Seq<Seq<char>>) -> (GlobalStateView, Seq<Seq<char>>)
    decreases urls.len(),
{
    if urls.len() == 0 {
        (s, Seq::empty())
    } else {
        let (t, queued) = register_run(s, urls.drop_last());
        let u = urls.last();
        if t.urls.contains_key(u) {
            (t, queued)
        } else {
            (t.register(u), queued.push(u))
        }
    }
}

/// Each URL is queued for the producers at most once, and only if it was
/// not known: in any run of registrations the queued URLs are distinct, none
/// was known before the run, and every registered URL is known afterwards.
pub proof fn lemma_each_url_queued_once(s: GlobalStateView, urls: Seq<Seq<char>>)
    ensures
        register_run(s, urls).1.no_duplicates(),
        forall|i: int| 0 <= i < register_run(s, urls).1.len() ==> !s.urls.contains_key(
            #[trigger] register_run(s, urls).1[i],
        ) && register_run(s, urls).0.urls.contains_key(register_run(s, urls).1[i]),
        forall|j: int| 0 <= j < urls.len() ==> register_run(s, urls).0.urls.contains_key(#[trigger] urls[j]),
        forall|k: Seq<char>| s.urls.contains_key(k) ==> #[trigger] register_run(s, urls).0.urls.contains_key(k)
            && register_run(s, urls).0.urls[k] == s.urls[k],
    decreases urls.len(),
{
    if urls.len() > 0 {
        let prefix = urls.drop_last();
        lemma_each_url_queued_once(s, prefix);
        let (t, q) = register_run(s, prefix);
        let u = urls.last();
        assert forall|j: int| 0 <= j < urls.len() implies register_run(s, urls).0.urls.contains_key(
            #[trigger] urls[j],
        ) by {
            if j < urls.len() - 1 {
                assert(urls[j] == prefix[j]);
            }
        }
        if !t.urls.contains_key(u) {
            let q1 = q.push(u);
            assert forall|i: int, k: int| 0 <= i < q1.len() && 0 <= k < q1.len() && i != k implies q1[i]
                != q1[k] by {
                if i < q.len() && k < q.len() {
                } else if i < q.len() {
                    assert(t.urls.contains_key(q[i]));
                } else {
                    assert(t.urls.contains_key(q[k]));
                }
            }
        }
    }
}

/// Registering the URLs of one message and then those of the next is the
/// same as registering them all in order.
pub proof fn lemma_register_run_append(s: GlobalStateView, a: Seq<Seq<char>>, b: Seq<Seq<char>>)
    ensures
        register_run(s, a + b).0 == register_run(register_run(s, a).0, b).0,
        register_run(s, a + b).1 == register_run(s, a).1 + register_run(register_run(s, a).0, b).1,
    decreases b.len(),
{
    if b.len() == 0 {
        assert(a + b =~= a);
        assert(register_run(s, a).1 + Seq::<Seq<char>>::empty() =~= register_run(s, a).1);
    } else {
        assert((a + b).drop_last() =~= a + b.drop_last());
        lemma_register_run_append(s, a, b.drop_last());
        let mid = register_run(s, a).0;
        let (t, q) = register_run(mid, b.drop_last());
        let u = b.last();
        assert((a + b).last() == u);
        if !t.urls.contains_key(u) {
            assert(register_run(s, a).1 + q.push(u) =~= (register_run(s, a).1 + q).push(u));
        }
    }
}

impl ConsumerTask {
    /// The receiving end the task was set up with.
    pub closed spec fn receiver_end(&self) -> Inbox<ProducerChannelData> {
        self.producer_rx
    }

    /// The channel on which the task queues new URLs for the producers.
    pub closed spec fn queue_channel(&self) -> crossbeam::channel::Sender<GlobalStateChannelData> {
        self.global_state_tx.channel()
    }

    /// Every message the task handed to that channel, in order.
    pub closed spec fn queued(&self) -> Seq<Option<Seq<char>>> {
        dispatch_views(self.global_state_tx.handed())
    }

    /// The running total of words of the pages reported so far.
    pub closed spec fn word_total(&self) -> usize {
        self.total_words
    }

    /// Sets up the consumer on the given receiving end, queueing on the
    /// coordinator's own channel, with nothing queued and no words counted;
    /// it cannot fail.
    pub fn new(
        guarded_global_state: &GlobalState,
        producer_rx: Inbox<ProducerChannelData>,
    ) -> (r: Result<ConsumerTask, ProducerErr>)
        ensures
            r is Ok,
            r matches Ok(task) ==> {
                &&& task.receiver_end() == producer_rx
                &&& task.queue_channel() == guarded_global_state@.channel
                &&& task.queued() == Seq::<Option<Seq<char>>>::empty()
                &&& task.word_total() == 0
            },
    {
        let global_state_tx = guarded_global_state.sender().duplicate();
        let task = ConsumerTask { producer_rx, global_state_tx, total_words: 0 };
        assert(task.queued() =~= Seq::<Option<Seq<char>>>::empty());
        Ok(task)
    }

    /// The end on which the producers' reports arrive.
    pub fn receiver(&self) -> (rx: &Inbox<ProducerChannelData>)
        ensures
            *rx == self.receiver_end(),
    {
        &self.producer_rx
    }

    /// The running total of words.
    pub fn total_words(&self) -> (n: usize)
        ensures
            n == self.word_total(),
    {
        self.total_words
    }

    /// Handles one report: the end signal stops the consumer; otherwise the
    /// page's words are added to the total and each discovered URL is
    /// registered, the first before the second, the new ones queued.
    pub fn handle_message(&mut self, guarded_global_state: &mut GlobalState, msg: ProducerChannelData) -> (keep_going:
        bool)
        ensures
            final(self).receiver_end() == old(self).receiver_end(),
            final(self).queue_channel() == old(self).queue_channel(),
            no_url_twice(old(guarded_global_state)@, old(self).queued()) ==> no_url_twice(
                final(guarded_global_state)@,
                final(self).queued(),
            ),
            match msg {
                ProducerChannelData::EndProcessing => {
                    &&& !keep_going
                    &&& final(guarded_global_state)@ == old(guarded_global_state)@
                    &&& final(self).queued() == old(self).queued()
                    &&& final(self).word_total() == old(self).word_total()
                },
                ProducerChannelData::ContinueProcessing(found, page) => {
                    let urls = present_urls(opt_view(found.urls1), opt_view(found.urls2));
                    &&& keep_going
                    &&& final(guarded_global_state)@ == register_run(old(guarded_global_state)@, urls).0
                    &&& final(self).queued() == old(self).queued() + url_dispatches(
                        register_run(old(guarded_global_state)@, urls).1,
                    )
                    &&& final(self).word_total() == add_words(old(self).word_total(), page.words)
                    &&& old(self).word_total() + page.words <= usize::MAX ==> final(self).word_total()
                        == old(self).word_total() + page.words
                    &&& old(self).word_total() + page.words > usize::MAX ==> final(self).word_total()
                        == usize::MAX
                },
            },
    {
        match msg {
            ProducerChannelData::ContinueProcessing(new_urls, page) => {
                let ghost s0 = guarded_global_state@;
                let ghost q0 = self.queued();
                let ghost urls = present_urls(opt_view(new_urls.urls1), opt_view(new_urls.urls2));
                self.total_words = if self.total_words <= usize::MAX - page.words {
                    self.total_words + page.words
                } else {
                    usize::MAX
                };
                let url_to_process_1 = new_urls.urls1;
                let url_to_process_2 = new_urls.urls2;
                let ghost first: Seq<Seq<char>> = present_urls(opt_view(url_to_process_1), None);
                if let Some(val) = url_to_process_1 {
                    self.insert_new_value(guarded_global_state, val);
                }
                proof {
                    reveal_with_fuel(register_run, 2);
                    if first.len() > 0 {
                        assert(first.drop_last() =~= Seq::<Seq<char>>::empty());
                    }
                    assert(register_run(s0, first).0 == guarded_global_state@);
                    assert(self.queued() =~= q0 + url_dispatches(register_run(s0, first).1));
                }
                let ghost s1 = guarded_global_state@;
                let ghost q1 = self.queued();
                let ghost second: Seq<Seq<char>> = present_urls(opt_view(url_to_process_2), None);
                if let Some(val) = url_to_process_2 {
                    self.insert_new_value(guarded_global_state, val);
                }
                proof {
                    reveal_with_fuel(register_run, 2);
                    if second.len() > 0 {
                        assert(second.drop_last() =~= Seq::<Seq<char>>::empty());
                    }
                    assert(register_run(s1, second).0 == guarded_global_state@);
                    assert(self.queued() =~= q1 + url_dispatches(register_run(s1, second).1));
                    assert(urls =~= first + second);
                    lemma_register_run_append(s0, first, second);
                    assert(url_dispatches(register_run(s0, urls).1) =~= url_dispatches(register_run(s0, first).1)
                        + url_dispatches(register_run(s1, second).1));
                }
                true
            },
            ProducerChannelData::EndProcessing => false,
        }
    }

    /// Registers a discovered URL: a URL not known yet is recorded as not
    /// visited and queued for the producers (the answer is then `true`); a
    /// known URL changes nothing and is not queued again.
    pub fn insert_new_value(&mut self, guarded_global_state: &mut GlobalState, val: String) -> (queued: bool)
        ensures
            final(guarded_global_state)@ == old(guarded_global_state)@.register(val@),
            queued <==> !old(guarded_global_state)@.urls.contains_key(val@),
            final(self).queued() == (if queued { old(self).queued().push(Some(val@)) } else { old(self).queued() }),
            final(self).receiver_end() == old(self).receiver_end(),
            final(self).queue_channel() == old(self).queue_channel(),
            final(self).word_total() == old(self).word_total(),
            no_url_twice(old(guarded_global_state)@, old(self).queued()) ==> no_url_twice(
                final(guarded_global_state)@,
                final(self).queued(),
            ),
    {
        let ghost s0 = guarded_global_state@;
        let ghost q0 = self.queued();
        let res = guarded_global_state.url_data(&val);
        if res.is_none() {
            guarded_global_state.set_url_data(val.clone(), UrlData { visited: false });
            let send_data: GuardedUrlDataType = GuardedUrlDataType(val);
            let msg: GlobalStateChannelData = GlobalStateChannelData::ContinueProcessing(send_data);
            let ghost handed0 = self.global_state_tx.handed();
            let _ = self.global_state_tx.send(msg);
            assert(dispatch_views(self.global_state_tx.handed()) =~= dispatch_views(handed0).push(
                dispatch_view(msg),
            ));
            proof {
                if no_url_twice(s0, q0) {
                    lemma_no_url_twice_queue_new(s0, q0, val@);
                }
            }
            true
        } else {
            false
        }
    }
}

} // verus!
