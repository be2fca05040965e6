//! The statistics of a run: one set of counters per distinct URL, in the
//! order in which the URLs were first seen.

use crate::stats::{UrlStats, UrlStatsView};
use crate::status::WebsiteStatus;
use vstd::prelude::*;

verus! {

/// The mathematical content of a [`StatsBook`]: the URLs seen, in the order
/// in which they were first seen, each with its counters.
pub type BookView = Seq<(Seq<char>, UrlStatsView)>;

/// Whether `url` stands at index `i` of the book and nowhere before it.
pub open spec fn is_entry_at(b: BookView, url: Seq<char>, i: int) -> bool {
    &&& 0 <= i < b.len()
    &&& b[i].0 == url
    &&& forall|k: int| 0 <= k < i ==> b[k].0 != url
}

/// Whether the book has an entry for `url`.
pub open spec fn has_entry(b: BookView, url: Seq<char>) -> bool {
    exists|i: int| 0 <= i < b.len() && b[i].0 == url
}

/// The index of the entry for `url`, where there is one.
pub open spec fn entry_index(b: BookView, url: Seq<char>) -> int {
    choose|i: int| is_entry_at(b, url, i)
}

/// The counters that the book holds for `url`: zero where it has none.
pub open spec fn stats_of(b: BookView, url: Seq<char>) -> UrlStatsView {
    if has_entry(b, url) {
        b[entry_index(b, url)].1
    } else {
        UrlStatsView::zero()
    }
}

/// The book after one more result for `url`: its entry is updated in
/// place, or a new entry is added at the end.
pub open spec fn book_record(b: BookView, url: Seq<char>, ok: bool, elapsed_ms: nat) -> BookView {
    if has_entry(b, url) {
        b.update(entry_index(b, url), (url, stats_of(b, url).record(ok, elapsed_ms)))
    } else {
        b.push((url, UrlStatsView::zero().record(ok, elapsed_ms)))
    }
}

/// Whether no URL has two entries.
pub open spec fn distinct_urls(b: BookView) -> bool {
    forall|i: int, j: int| 0 <= i < j < b.len() ==> b[i].0 != b[j].0
}

/// One entry of a [`StatsBook`].
#[derive(Debug)]
struct Entry {
    url: String,
    stats: UrlStats,
}

/// The statistics of a run: one set of counters per distinct URL. Entries
/// are added on the first result for a URL and never removed.
#[derive(Debug)]
pub struct StatsBook {
    entries: Vec<Entry>,
}

impl View for StatsBook {
    type V = BookView;

    closed spec fn view(&self) -> BookView {
        Seq::new(self.entries@.len(), |i: int| (self.entries@[i].url@, self.entries@[i].stats@))
    }
}

impl StatsBook {
    /// An empty book.
    pub fn new() -> (r: StatsBook)
        ensures
            r@ == Seq::<(Seq<char>, UrlStatsView)>::empty(),
            distinct_urls(r@),
    {
        let r = StatsBook { entries: Vec::new() };
        assert(r@ =~= Seq::<(Seq<char>, UrlStatsView)>::empty());
        r
    }

    /// Number of entries.
    pub fn len(&self) -> (r: usize)
        ensures
            r == self@.len(),
    {
        self.entries.len()
    }

    /// The URL of the entry at index `i`.
    pub fn url_at(&self, i: usize) -> (r: &String)
        requires
            i < self@.len(),
        ensures
            r@ == self@[i as int].0,
    {
        &self.entries[i].url
    }

    /// The counters of the entry at index `i`.
    pub fn stats_at(&self, i: usize) -> (r: UrlStats)
        requires
            i < self@.len(),
        ensures
            r@ == self@[i as int].1,
    {
        self.entries[i].stats
    }

    /// The index of the entry for `url`, if there is one.
    pub fn find(&self, url: &String) -> (r: Option<usize>)
        ensures
            match r {
                Some(i) => is_entry_at(self@, url@, i as int),
                None => !has_entry(self@, url@),
            },
    {
        let mut i: usize = 0;
        while i < self.entries.len()
            invariant
                i <= self.entries.len(),
                forall|k: int| 0 <= k < i ==> self@[k].0 != url@,
            decreases self.entries.len() - i,
        {
            if self.entries[i].url == *url {
                return Some(i);
            }
            i = i + 1;
        }
        None
    }

    /// Whether one more result for `url` can be recorded without running
    /// over its counters.
    pub fn has_room(&self, url: &String, elapsed_ms: u128) -> (r: bool)
        ensures
            r == stats_of(self@, url@).has_room(elapsed_ms as nat),
    {
        match self.find(url) {
            Some(i) => {
                proof {
                    let j = entry_index(self@, url@);
                    assert(is_entry_at(self@, url@, i as int));
                    assert(j == i);
                }
                self.entries[i].stats.has_room(elapsed_ms)
            },
            None => true,
        }
    }

    /// Folds one result for `url` into the book: the counters of `url` go up
    /// by one check, by one success if `ok`, and by `elapsed_ms`. All other
    /// entries stay as they are, and a book that lists no URL twice, as every
    /// book grown from an empty one does, stays so.
    pub fn record(&mut self, url: &String, ok: bool, elapsed_ms: u128)
        requires
            stats_of(old(self)@, url@).has_room(elapsed_ms as nat),
        ensures
            final(self)@ == book_record(old(self)@, url@, ok, elapsed_ms as nat),
            distinct_urls(old(self)@) ==> distinct_urls(final(self)@),
    {
        proof {
            if distinct_urls(self@) {
                lemma_book_record_keeps(self@, url@, ok, elapsed_ms as nat);
            }
        }
        match self.find(url) {
            Some(i) => {
                proof {
                    let j = entry_index(self@, url@);
                    assert(is_entry_at(self@, url@, i as int));
                    assert(j == i);
                }
                let mut stats = self.entries[i].stats;
                stats.record(ok, elapsed_ms);
                self.entries.set(i, Entry { url: url.clone(), stats });
                assert(self@ =~= book_record(old(self)@, url@, ok, elapsed_ms as nat));
            },
            None => {
                let mut stats = UrlStats::new();
                stats.record(ok, elapsed_ms);
                self.entries.push(Entry { url: url.clone(), stats });
                assert(self@ =~= book_record(old(self)@, url@, ok, elapsed_ms as nat));
            },
        }
    }

    /// Folds one report into the book: a check for its URL, a success if
    /// its status is one, and its elapsed time.
    pub fn fold(&mut self, status: &WebsiteStatus)
        requires
            stats_of(old(self)@, status.url@).has_room(status.response_time_ms as nat),
        ensures
            final(self)@ == book_record(
                old(self)@,
                status.url@,
                status.status is Ok,
                status.response_time_ms as nat,
            ),
            distinct_urls(old(self)@) ==> distinct_urls(final(self)@),
    {
        let ok = status.is_ok();
        self.record(&status.url, ok, status.response_time_ms);
    }
}

/// Recording never removes an entry and adds at most one; the URL
/// recorded has one more check counted. A book without a URL listed twice
/// stays so.
pub proof fn lemma_book_record_keeps(b: BookView, url: Seq<char>, ok: bool, elapsed_ms: nat)
    requires
        distinct_urls(b),
    ensures
        distinct_urls(book_record(b, url, ok, elapsed_ms)),
        b.len() <= book_record(b, url, ok, elapsed_ms).len() <= b.len() + 1,
        has_entry(book_record(b, url, ok, elapsed_ms), url),
        stats_of(book_record(b, url, ok, elapsed_ms), url) == stats_of(b, url).record(
            ok,
            elapsed_ms,
        ),
{
    let nb = book_record(b, url, ok, elapsed_ms);
    let at = if has_entry(b, url) {
        lemma_entry_index(b, url);
        entry_index(b, url)
    } else {
        b.len() as int
    };
    assert(nb.len() > at && nb[at].0 == url);
    assert(forall|k: int| 0 <= k < nb.len() && k != at ==> nb[k] == b[k]);
    assert(has_entry(nb, url));
    lemma_entry_index(nb, url);
    assert(entry_index(nb, url) == at);
}

/// Recording for one URL leaves the counters of every other URL as they were.
pub proof fn lemma_book_record_spares(
    b: BookView,
    url: Seq<char>,
    ok: bool,
    elapsed_ms: nat,
    other: Seq<char>,
)
    requires
        other != url,
    ensures
        has_entry(book_record(b, url, ok, elapsed_ms), other) == has_entry(b, other),
        stats_of(book_record(b, url, ok, elapsed_ms), other) == stats_of(b, other),
{
    let nb = book_record(b, url, ok, elapsed_ms);
    let at = if has_entry(b, url) {
        lemma_entry_index(b, url);
        entry_index(b, url)
    } else {
        b.len() as int
    };
    assert(nb.len() > at && nb[at].0 == url);
    assert(forall|k: int| 0 <= k < nb.len() && k != at ==> nb[k] == b[k]);
    if has_entry(b, other) {
        lemma_entry_index(b, other);
        let o = entry_index(b, other);
        assert(nb[o].0 == other);
        assert(has_entry(nb, other));
        lemma_entry_index(nb, other);
        assert(entry_index(nb, other) == o);
    } else {
        if has_entry(nb, other) {
            let o = choose|i: int| 0 <= i < nb.len() && nb[i].0 == other;
            assert(b[o].0 == other);
        }
    }
}

/// Where the book has an entry for `url`, its index is that of the first
/// entry with this URL.
pub proof fn lemma_entry_index(b: BookView, url: Seq<char>)
    requires
        has_entry(b, url),
    ensures
        is_entry_at(b, url, entry_index(b, url)),
{
    let w = choose|i: int| 0 <= i < b.len() && b[i].0 == url;
    lemma_first_entry_exists(b, url, w);
}

/// An entry for `url` at index `w` means that there is a first one.
pub proof fn lemma_first_entry_exists(b: BookView, url: Seq<char>, w: int)
    requires
        0 <= w < b.len(),
        b[w].0 == url,
    ensures
        exists|i: int| is_entry_at(b, url, i),
    decreases w,
{
    if exists|k: int| 0 <= k < w && b[k].0 == url {
        let k = choose|k: int| 0 <= k < w && b[k].0 == url;
        lemma_first_entry_exists(b, url, k);
    } else {
        assert(is_entry_at(b, url, w));
    }
}

} // verus!
