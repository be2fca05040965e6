//! The configuration of a run, put together from what the command line and
//! the URL file supplied.

use crate::header::{
    pair_texts, parse_headers, parse_headers_spec, texts, urls_of_lines, urls_of_lines_spec,
};
use crate::scheduler::Plan;
use vstd::prelude::*;

verus! {

/// Worker threads where none are asked for.
pub const DEFAULT_WORKER_THREADS: usize = 50;

/// Request timeout in seconds where none is asked for.
pub const DEFAULT_TIMEOUT_SECS: u64 = 5;

/// Retries per URL where none are asked for.
pub const DEFAULT_MAX_RETRIES: usize = 1;

/// Everything a run needs to know. Fixed once it is built.
#[derive(Debug)]
pub struct Config {
    pub worker_threads: usize,
    pub timeout_secs: u64,
    pub max_retries: usize,
    /// `None`: run once; `Some(d)`: repeat every `d` seconds.
    pub period_secs: Option<u64>,
    /// Header expectations as (name, expected value).
    pub headers: Vec<(String, String)>,
    /// Text that the body must contain, if any.
    pub contains: Option<String>,
    /// The URLs to check, in order; one listed twice is checked twice.
    pub urls: Vec<String>,
}

/// What the user supplied, before defaults are filled in.
#[derive(Debug)]
pub struct Options {
    pub threads: Option<usize>,
    pub timeout_secs: Option<u64>,
    pub retries: Option<usize>,
    pub period_secs: Option<u64>,
    /// Header rules as written, `Name: Value` each.
    pub headers: Vec<String>,
    pub contains: Option<String>,
    /// The lines of the URL file, if one was given.
    pub file_lines: Vec<String>,
    /// The URLs given directly.
    pub urls: Vec<String>,
}

/// The URLs of a run: those of the file first, then those given directly.
pub open spec fn all_urls_spec(file_lines: Seq<String>, urls: Seq<String>) -> Seq<Seq<char>> {
    urls_of_lines_spec(file_lines) + texts(urls)
}

/// Whether `c` is the configuration that `o` asks for.
pub open spec fn config_matches(o: Options, c: Config) -> bool {
    &&& c.worker_threads == o.threads.unwrap_or(50usize)
    &&& c.timeout_secs == o.timeout_secs.unwrap_or(5u64)
    &&& c.max_retries == o.retries.unwrap_or(1usize)
    &&& c.period_secs == o.period_secs
    &&& pair_texts(c.headers@) == parse_headers_spec(o.headers@)
    &&& c.contains == o.contains
    &&& texts(c.urls@) == all_urls_spec(o.file_lines@, o.urls@)
}

/// Builds the configuration: defaults where nothing was asked for, the
/// well-formed header rules, and the URLs of the file followed by those
/// given directly. Without any URL there is no configuration.
pub fn build_config(o: Options) -> (r: Option<Config>)
    ensures
        all_urls_spec(o.file_lines@, o.urls@).len() == 0 <==> r is None,
        r matches Some(c) ==> config_matches(o, c),
{
    let Options { threads, timeout_secs, retries, period_secs, headers, contains, file_lines, urls } =
        o;
    let mut all = urls_of_lines(&file_lines);
    let mut given = urls;
    let ghost from_file = all@;
    let ghost direct = given@;
    all.append(&mut given);
    assert(texts(all@) =~= texts(from_file) + texts(direct));
    if all.len() == 0 {
        return None;
    }
    let rules = parse_headers(&headers);
    Some(
        Config {
            worker_threads: threads.unwrap_or(DEFAULT_WORKER_THREADS),
            timeout_secs: timeout_secs.unwrap_or(DEFAULT_TIMEOUT_SECS),
            max_retries: retries.unwrap_or(DEFAULT_MAX_RETRIES),
            period_secs,
            headers: rules,
            contains,
            urls: all,
        },
    )
}

impl Config {
    /// What the scheduler needs of the configuration.
    pub fn plan(&self) -> (p: Plan)
        ensures
            p.url_count == self.urls@.len(),
            p.period_secs == self.period_secs,
    {
        Plan { url_count: self.urls.len(), period_secs: self.period_secs }
    }
}

} // verus!
