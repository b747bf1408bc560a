//! What the producers share: the messages they send to the consumer, their
//! errors, and the pool of URLs they "discover".
use vstd::prelude::*;
use crate::constants::string_views;
use vstd::string::StringExecFns;

pub mod producer_task;

verus! {

/// Up to two URLs a producer discovered while crawling.
#[derive(Debug)]
pub struct NewUrls {
    pub urls1: Option<String>,
    pub urls2: Option<String>,
}

/// What a producer reports of one crawled page: its URL and how many words
/// it holds. The pages are simulated: a page's word count is taken to be the
/// number of characters of its URL.
#[derive(Debug)]
pub struct Message {
    pub url: String,
    pub words: usize,
}

/// What a producer sends to the consumer.
#[derive(Debug)]
pub enum ProducerChannelData {
    /// The URLs discovered while crawling a page, and the page's report.
    ContinueProcessing(NewUrls, Message),
    /// Nothing more will come: the consumer stops.
    EndProcessing,
}

/// Why a producer could not be set up.
#[derive(Debug, Clone, Copy, PartialEq, Eq, Structural)]
pub enum ProducerErr {
    /// No receiving end was left for the task (or the coordinator could not be reached).
    GlobalStateRxNoneErr,
    /// The producer's thread could not be started.
    HandlerError,
}

/// The URLs the shared pool starts with, handed out as "discovered", in
/// the order they are stored.
pub open spec fn pool_start_urls() -> Seq<Seq<char>> {
    seq![
        "https://www.example2.com"@,
        "https://www.rust-lang2.org"@,
        "https://www.wikipedia2.org"@,
        "https://www.github2.com"@,
        "https://www.stackoverflow2.com"@,
        "https://www.example3.com"@,
        "https://www.rust-lang3.org"@,
        "https://www.wikipedia3.org"@,
        "https://www.github3.com"@,
        "https://www.stackoverflow3.com"@,
        "https://www.example4.com"@,
        "https://www.rust-lang4.org"@,
        "https://www.wikipedia4.org"@,
        "https://www.github4.com"@,
        "https://www.stackoverflow4.com"@,
    ]
}

/// The view of an optional string.
pub open spec fn opt_view(o: Option<String>) -> Option<Seq<char>> {
    match o {
        Some(s) => Some(s@),
        None => None,
    }
}

/// The URLs present among two optional ones, in order.
pub open spec fn present_urls(a: Option<Seq<char>>, b: Option<Seq<char>>) -> Seq<Seq<char>> {
    match (a, b) {
        (Some(x), Some(y)) => seq![x, y],
        (Some(x), None) => seq![x],
        (None, Some(y)) => seq![y],
        (None, None) => Seq::empty(),
    }
}

/// The first URL taken from a pool: its last one.
pub open spec fn first_taken(p: Seq<Seq<char>>) -> Option<Seq<char>> {
    if p.len() >= 1 { Some(p[p.len() - 1]) } else { None }
}

/// The second URL taken from a pool: the one before its last.
pub open spec fn second_taken(p: Seq<Seq<char>>) -> Option<Seq<char>> {
    if p.len() >= 2 { Some(p[p.len() - 2]) } else { None }
}

/// What is left of a pool once two URLs were taken from its end.
pub open spec fn pool_rest(p: Seq<Seq<char>>) -> Seq<Seq<char>> {
    if p.len() >= 2 { p.take(p.len() - 2) } else { Seq::empty() }
}

/// The URLs taken from a pool, in the order they were taken.
pub open spec fn taken_urls(p: Seq<Seq<char>>) -> Seq<Seq<char>> {
    if p.len() >= 2 {
        seq![p[p.len() - 1], p[p.len() - 2]]
    } else if p.len() == 1 {
        seq![p[0]]
    } else {
        Seq::empty()
    }
}

/// Taking two URLs splits the pool: what is left followed by what was taken
/// holds exactly the URLs of the pool (with their repetitions), at most two
/// are taken, and only an empty pool yields none.
pub proof fn lemma_taking_two_splits_pool(p: Seq<Seq<char>>)
    ensures
        (pool_rest(p) + taken_urls(p)).to_multiset() == p.to_multiset(),
        pool_rest(p).len() + taken_urls(p).len() == p.len(),
        taken_urls(p).len() == (if p.len() >= 2 { 2 } else { p.len() }),
        taken_urls(p).len() == 0 <==> p.len() == 0,
{
    broadcast use vstd::seq_lib::group_to_multiset_ensures;

    let n = p.len();
    if n >= 2 {
        let r = p.take(n - 2);
        assert(p =~= r.push(p[n - 2]).push(p[n - 1]));
        assert(pool_rest(p) + taken_urls(p) =~= r.push(p[n - 1]).push(p[n - 2]));
        assert(r.push(p[n - 1]).push(p[n - 2]).to_multiset() =~= r.push(p[n - 2]).push(p[n - 1]).to_multiset());
    } else if n == 1 {
        assert(pool_rest(p) + taken_urls(p) =~= p);
    } else {
        assert(pool_rest(p) + taken_urls(p) =~= p);
    }
}

/// The character of a decimal digit.
pub open spec fn digit_char(d: nat) -> char {
    (48 + d) as char
}

/// The decimal writing of a number, without leading zeros.
pub open spec fn decimal(n: nat) -> Seq<char>
    decreases n,
{
    if n < 10 {
        seq![digit_char(n)]
    } else {
        decimal(n / 10).push(digit_char(n % 10))
    }
}

/// The name of the producer thread with the given index.
pub open spec fn producer_thread_name_spec(index: nat) -> Seq<char> {
    "Producer thread "@ + decimal(index)
}

fn digit_str(d: usize) -> (s: &'static str)
    requires
        d < 10,
    ensures
        s@ == seq![digit_char(d as nat)],
{
    proof {
        reveal_strlit("0");
        reveal_strlit("1");
        reveal_strlit("2");
        reveal_strlit("3");
        reveal_strlit("4");
        reveal_strlit("5");
        reveal_strlit("6");
        reveal_strlit("7");
        reveal_strlit("8");
        reveal_strlit("9");
    }
    match d {
        0 => "0",
        1 => "1",
        2 => "2",
        3 => "3",
        4 => "4",
        5 => "5",
        6 => "6",
        7 => "7",
        8 => "8",
        _ => "9",
    }
}

/// The decimal writing of a number.
pub fn decimal_string(n: usize) -> (s: String)
    ensures
        s@ == decimal(n as nat),
    decreases n,
{
    if n < 10 {
        digit_str(n).to_owned()
    } else {
        decimal_string(n / 10).concat(digit_str(n % 10))
    }
}

/// The name of the producer thread with the given index: "Producer thread "
/// followed by the index in decimal.
pub fn producer_thread_name(index: usize) -> (name: String)
    ensures
        name@ == producer_thread_name_spec(index as nat),
{
    "Producer thread ".to_owned().concat(decimal_string(index).as_str())
}

/// The shared pool of URLs that producers report as discovered.
///
/// Besides its URLs, the pool keeps as ghost history the URLs it started
/// with, the fake pages made up and added to its supply, and the URLs that
/// left it in reports the consumer took.
pub struct UrlPool {
    urls: Vec<String>,
    start: Ghost<Seq<Seq<char>>>,
    minted: Ghost<Seq<Seq<char>>>,
    issued: Ghost<Seq<Seq<char>>>,
}

impl View for UrlPool {
    type V = Seq<Seq<char>>;

    closed spec fn view(&self) -> Seq<Seq<char>> {
        string_views(self.urls@)
    }
}

impl UrlPool {
    /// The URLs the pool started with.
    pub closed spec fn start(&self) -> Seq<Seq<char>> {
        self.start@
    }

    /// The fake pages made up so far, in order.
    pub closed spec fn minted(&self) -> Seq<Seq<char>> {
        self.minted@
    }

    /// The URLs delivered to the consumer so far, in order.
    pub closed spec fn issued(&self) -> Seq<Seq<char>> {
        self.issued@
    }

    /// No URL lost or duplicated: the pool and the delivered URLs hold
    /// exactly the starting URLs and the fake pages made up.
    pub open spec fn balanced(&self) -> bool {
        (self@ + self.issued()).to_multiset() == (self.start() + self.minted()).to_multiset()
    }

    /// The pool at the start of the crawl.
    pub fn new() -> (pool: UrlPool)
        ensures
            pool@ == pool_start_urls(),
            pool.start() == pool_start_urls(),
            pool.minted() == Seq::<Seq<char>>::empty(),
            pool.issued() == Seq::<Seq<char>>::empty(),
            pool.balanced(),
    {
        let mut urls: Vec<String> = Vec::new();
        urls.push("https://www.example2.com".to_owned());
        urls.push("https://www.rust-lang2.org".to_owned());
        urls.push("https://www.wikipedia2.org".to_owned());
        urls.push("https://www.github2.com".to_owned());
        urls.push("https://www.stackoverflow2.com".to_owned());
        urls.push("https://www.example3.com".to_owned());
        urls.push("https://www.rust-lang3.org".to_owned());
        urls.push("https://www.wikipedia3.org".to_owned());
        urls.push("https://www.github3.com".to_owned());
        urls.push("https://www.stackoverflow3.com".to_owned());
        urls.push("https://www.example4.com".to_owned());
        urls.push("https://www.rust-lang4.org".to_owned());
        urls.push("https://www.wikipedia4.org".to_owned());
        urls.push("https://www.github4.com".to_owned());
        urls.push("https://www.stackoverflow4.com".to_owned());
        let pool = UrlPool {
            urls,
            start: Ghost(pool_start_urls()),
            minted: Ghost(Seq::empty()),
            issued: Ghost(Seq::empty()),
        };
        assert(pool@ =~= pool_start_urls());
        assert(pool@ + pool.issued() =~= pool.start() + pool.minted());
        pool
    }

    /// How many URLs are in the pool.
    pub fn len(&self) -> (n: usize)
        ensures
            n == self@.len(),
    {
        self.urls.len()
    }

    /// Takes up to two URLs from the end of the pool, the last one first; an
    /// empty pool yields none.
    pub fn get_new_urls_two_values(&mut self) -> (found: NewUrls)
        ensures
            final(self)@ == pool_rest(old(self)@),
            final(self).start() == old(self).start(),
            final(self).minted() == old(self).minted(),
            final(self).issued() == old(self).issued(),
            opt_view(found.urls1) == first_taken(old(self)@),
            opt_view(found.urls2) == second_taken(old(self)@),
    {
        let ghost before = self@;
        let u1 = self.urls.pop();
        let u2 = self.urls.pop();
        proof {
            if before.len() >= 2 {
                assert(self@ =~= before.take(before.len() - 2));
            } else {
                assert(self@ =~= Seq::<Seq<char>>::empty());
            }
        }
        NewUrls { urls1: u1, urls2: u2 }
    }

    /// Puts URLs back at the end of the pool, in the given order.
    pub fn new_urls_add(&mut self, values: Vec<String>)
        ensures
            final(self)@ == old(self)@ + string_views(values@),
            final(self).start() == old(self).start(),
            final(self).minted() == old(self).minted(),
            final(self).issued() == old(self).issued(),
    {
        let ghost before = self@;
        let mut i: usize = 0;
        assert(before + string_views(values@.take(0)) =~= before);
        while i < values.len()
            invariant
                i <= values.len(),
                self@ == before + string_views(values@.take(i as int)),
                self.start() == old(self).start(),
                self.minted() == old(self).minted(),
                self.issued() == old(self).issued(),
            decreases values.len() - i,
        {
            let value = values[i].clone();
            let ghost prev = self.urls@;
            self.urls.push(value);
            assert(self.urls@ =~= prev.push(value));
            assert(string_views(self.urls@) =~= string_views(prev).push(value@));
            i = i + 1;
            assert(values@.take(i as int) =~= values@.take(i - 1).push(values@[i - 1]));
            assert(string_views(values@.take(i as int)) =~= string_views(values@.take(i - 1)).push(
                values@[i - 1]@,
            ));
            assert(self@ =~= before + string_views(values@.take(i as int)));
        }
        assert(values@.take(i as int) =~= values@);
    }
}

} // verus!
