use vstd::prelude::*;

verus! {

/// The coordinator signals the end of the crawl once at least this many URLs were visited.
pub const MAX_URLS_TO_PROCESS: isize = 50;

/// Number of producer (crawler) threads, and of receivers the coordinator prepares for them.
pub const THREAD_COUNT: isize = 4;

/// Simulated network latency of one crawl, in milliseconds.
pub const SLEEP_DURATION: u64 = 50;

/// The URLs the crawl starts from, in order.
pub open spec fn initial_urls() -> Seq<Seq<char>> {
    seq![
        "https://www.example.com"@,
        "https://www.rust-lang.org"@,
        "https://www.wikipedia.org"@,
        "https://www.github.com"@,
        "https://www.stackoverflow.com"@,
    ]
}

/// The views of a vector of strings.
pub open spec fn string_views(v: Seq<String>) -> Seq<Seq<char>> {
    v.map_values(|s: String| s@)
}

/// Builds the starting URLs of the crawl.
pub fn initial_url_list() -> (urls: Vec<String>)
    ensures
        string_views(urls@) == initial_urls(),
{
    let mut urls: Vec<String> = Vec::new();
    urls.push("https://www.example.com".to_owned());
    urls.push("https://www.rust-lang.org".to_owned());
    urls.push("https://www.wikipedia.org".to_owned());
    urls.push("https://www.github.com".to_owned());
    urls.push("https://www.stackoverflow.com".to_owned());
    assert(string_views(urls@) =~= initial_urls());
    urls
}

} // verus!
