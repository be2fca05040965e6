//! Splitting text into words and finding the word that occurs most often.

use crate::header::texts;
use crate::text::{chars_of, is_space, is_space_char};
use vstd::prelude::*;
use vstd::string::*;

verus! {

/// Reads `s` from the left: the words completed so far, and the word that
/// is being read (empty between words).
pub open spec fn scan_words(s: Seq<char>) -> (Seq<Seq<char>>, Seq<char>)
    decreases s.len(),
{
    if s.len() == 0 {
        (Seq::empty(), Seq::empty())
    } else {
        let (done, cur) = scan_words(s.drop_last());
        if is_space(s.last()) {
            if cur.len() > 0 {
                (done.push(cur), Seq::empty())
            } else {
                (done, cur)
            }
        } else {
            (done, cur.push(s.last()))
        }
    }
}

/// The words of `s`: its maximal runs of characters that are not white
/// space, in order.
pub open spec fn words_of(s: Seq<char>) -> Seq<Seq<char>> {
    let (done, cur) = scan_words(s);
    if cur.len() > 0 {
        done.push(cur)
    } else {
        done
    }
}

/// How often `w` occurs in `ws`.
pub open spec fn count_of(ws: Seq<Seq<char>>, w: Seq<char>) -> nat
    decreases ws.len(),
{
    if ws.len() == 0 {
        0
    } else {
        count_of(ws.drop_last(), w) + if ws.last() == w {
            1nat
        } else {
            0nat
        }
    }
}

/// Whether the word at index `i` occurs at least as often as every word
/// and more often than every word before it: the most frequent word, and
/// among several the one that comes first.
pub open spec fn is_most_frequent_at(ws: Seq<Seq<char>>, i: int) -> bool {
    &&& 0 <= i < ws.len()
    &&& forall|j: int| 0 <= j < ws.len() ==> count_of(ws, #[trigger] ws[j]) <= count_of(ws, ws[i])
    &&& forall|j: int| 0 <= j < i ==> count_of(ws, #[trigger] ws[j]) < count_of(ws, ws[i])
}

/// A word occurs at most as often as there are words, and a word that is
/// absent occurs zero times.
pub proof fn lemma_count_bounds(ws: Seq<Seq<char>>, w: Seq<char>)
    ensures
        count_of(ws, w) <= ws.len(),
        (forall|j: int| 0 <= j < ws.len() ==> ws[j] != w) ==> count_of(ws, w) == 0,
    decreases ws.len(),
{
    if ws.len() > 0 {
        lemma_count_bounds(ws.drop_last(), w);
        if forall|j: int| 0 <= j < ws.len() ==> ws[j] != w {
            assert forall|j: int| 0 <= j < ws.drop_last().len() implies ws.drop_last()[j] != w by {
                assert(ws.drop_last()[j] == ws[j]);
            }
        }
    }
}

/// Splits `text` at white space into its words.
pub fn split_words(text: &str) -> (r: Vec<String>)
    ensures
        texts(r@) == words_of(text@),
{
    let v = chars_of(text);
    let mut words: Vec<String> = Vec::new();
    let mut start: usize = 0;
    let mut i: usize = 0;
    assert(texts(words@) =~= Seq::<Seq<char>>::empty());
    assert(v@.subrange(0, 0) =~= Seq::<char>::empty());
    while i < v.len()
        invariant
            start <= i <= v.len(),
            v@ == text@,
            scan_words(v@.subrange(0, i as int)) == (
                texts(words@),
                v@.subrange(start as int, i as int),
            ),
        decreases v.len() - i,
    {
        let ghost before = words@;
        let ghost cur = v@.subrange(start as int, i as int);
        assert(v@.subrange(0, i as int + 1).drop_last() =~= v@.subrange(0, i as int));
        if is_space_char(v[i]) {
            if start < i {
                words.push(text.substring_char(start, i).to_owned());
                assert(texts(words@) =~= texts(before).push(cur));
            }
            start = i + 1;
            assert(v@.subrange(start as int, i as int + 1) =~= Seq::<char>::empty());
            assert(cur.len() == 0 ==> cur =~= Seq::<char>::empty());
        } else {
            assert(v@.subrange(start as int, i as int + 1) =~= cur.push(v@[i as int]));
        }
        i = i + 1;
    }
    assert(v@.subrange(0, v.len() as int) =~= v@);
    if start < i {
        let ghost before = words@;
        words.push(text.substring_char(start, i).to_owned());
        assert(texts(words@) =~= texts(before).push(v@.subrange(start as int, i as int)));
    }
    words
}

/// Whether `firsts` and `counts` tally the first `n` words of `ws`: every
/// word among them is listed once, by the index of its first occurrence
/// and in the order of these, with the number of its occurrences so far.
pub open spec fn is_tally(ws: Seq<Seq<char>>, n: int, firsts: Seq<usize>, counts: Seq<usize>) -> bool {
    &&& firsts.len() == counts.len()
    &&& forall|k: int| 0 <= k < firsts.len() ==> (#[trigger] firsts[k]) < n
    &&& forall|k: int, j: int|
        0 <= k < firsts.len() && 0 <= j < firsts[k] ==> (#[trigger] ws[j]) != ws[(
        #[trigger] firsts[k]) as int]
    &&& forall|k: int, l: int|
        0 <= k < l < firsts.len() ==> (#[trigger] firsts[k]) < (#[trigger] firsts[l])
    &&& forall|j: int|
        0 <= j < n ==> exists|k: int|
            0 <= k < firsts.len() && ws[(#[trigger] firsts[k]) as int] == #[trigger] ws[j]
    &&& forall|k: int|
        0 <= k < firsts.len() ==> (#[trigger] counts[k]) as nat == count_of(
            ws.subrange(0, n),
            ws[firsts[k] as int],
        )
}

/// The place of `word` in the tally, if it is listed.
fn find_word(words: &Vec<String>, firsts: &Vec<usize>, word: &String) -> (r: Option<usize>)
    requires
        forall|k: int| 0 <= k < firsts@.len() ==> (#[trigger] firsts@[k]) < words@.len(),
    ensures
        match r {
            Some(k) => k < firsts@.len() && words@[firsts@[k as int] as int]@ == word@,
            None => forall|k: int|
                0 <= k < firsts@.len() ==> words@[(#[trigger] firsts@[k]) as int]@ != word@,
        },
{
    let mut k: usize = 0;
    while k < firsts.len()
        invariant
            k <= firsts.len(),
            forall|q: int| 0 <= q < firsts@.len() ==> (#[trigger] firsts@[q]) < words@.len(),
            forall|q: int| 0 <= q < k ==> words@[(#[trigger] firsts@[q]) as int]@ != word@,
        decreases firsts.len() - k,
    {
        if words[firsts[k]] == *word {
            return Some(k);
        }
        k = k + 1;
    }
    None
}

/// Counting one more occurrence of a listed word keeps the tally.
pub proof fn lemma_tally_bump(
    ws: Seq<Seq<char>>,
    n: int,
    firsts: Seq<usize>,
    counts: Seq<usize>,
    k: int,
)
    requires
        is_tally(ws, n, firsts, counts),
        0 <= n < ws.len(),
        0 <= k < firsts.len(),
        ws[firsts[k] as int] == ws[n],
    ensures
        counts[k] <= n,
        counts[k] < usize::MAX ==> is_tally(
            ws,
            n + 1,
            firsts,
            counts.update(k, (counts[k] + 1) as usize),
        ),
{
    let seen = ws.subrange(0, n);
    let seen_next = ws.subrange(0, n + 1);
    assert(seen_next.drop_last() =~= seen);
    assert(seen_next.last() == ws[n]);
    lemma_count_bounds(seen, ws[firsts[k] as int]);
    if counts[k] < usize::MAX {
        let bumped = counts.update(k, (counts[k] + 1) as usize);
        assert forall|q: int| 0 <= q < firsts.len() implies (#[trigger] bumped[q]) as nat
            == count_of(seen_next, ws[firsts[q] as int]) by {
            if q < k {
                assert(firsts[q] < firsts[k]);
                assert(ws[firsts[q] as int] != ws[firsts[k] as int]);
            } else if q > k {
                assert(firsts[k] < firsts[q]);
                assert(ws[firsts[k] as int] != ws[firsts[q] as int]);
            }
        }
        assert forall|j: int| 0 <= j < n + 1 implies exists|q: int|
            0 <= q < firsts.len() && ws[(#[trigger] firsts[q]) as int] == #[trigger] ws[j] by {
            if j == n {
                assert(ws[firsts[k] as int] == ws[j]);
            }
        }
    }
}

/// Listing a word at its first occurrence keeps the tally.
pub proof fn lemma_tally_new(ws: Seq<Seq<char>>, n: int, firsts: Seq<usize>, counts: Seq<usize>)
    requires
        is_tally(ws, n, firsts, counts),
        0 <= n < ws.len(),
        n <= usize::MAX,
        forall|k: int| 0 <= k < firsts.len() ==> ws[(#[trigger] firsts[k]) as int] != ws[n],
    ensures
        is_tally(ws, n + 1, firsts.push(n as usize), counts.push(1)),
{
    let seen = ws.subrange(0, n);
    let seen_next = ws.subrange(0, n + 1);
    let firsts2 = firsts.push(n as usize);
    let counts2 = counts.push(1usize);
    let last = firsts.len() as int;
    assert(seen_next.drop_last() =~= seen);
    assert(seen_next.last() == ws[n]);
    assert forall|j: int| 0 <= j < n implies ws[j] != ws[n] by {
        let q = choose|q: int| 0 <= q < firsts.len() && ws[(#[trigger] firsts[q]) as int] == ws[j];
        assert(ws[firsts[q] as int] != ws[n]);
    }
    assert forall|j: int| 0 <= j < seen.len() implies seen[j] != ws[n] by {
        assert(seen[j] == ws[j]);
    }
    lemma_count_bounds(seen, ws[n]);
    assert forall|q: int| 0 <= q < firsts2.len() implies (#[trigger] counts2[q]) as nat
        == count_of(seen_next, ws[firsts2[q] as int]) by {
        if q < last {
            assert(firsts2[q] == firsts[q]);
            assert(counts2[q] == counts[q]);
            assert(ws[firsts[q] as int] != ws[n]);
        }
    }
    assert forall|j: int| 0 <= j < n + 1 implies exists|q: int|
        0 <= q < firsts2.len() && ws[(#[trigger] firsts2[q]) as int] == #[trigger] ws[j] by {
        if j == n {
            assert(ws[firsts2[last] as int] == ws[j]);
        } else {
            let q = choose|q: int|
                0 <= q < firsts.len() && ws[(#[trigger] firsts[q]) as int] == ws[j];
            assert(firsts2[q] == firsts[q]);
        }
    }
    assert forall|q: int, j: int| 0 <= q < firsts2.len() && 0 <= j < firsts2[q] implies (
    #[trigger] ws[j]) != ws[(#[trigger] firsts2[q]) as int] by {
        if q < last {
            assert(firsts2[q] == firsts[q]);
        }
    }
    assert forall|q: int, l: int| 0 <= q < l < firsts2.len() implies (#[trigger] firsts2[q]) < (
    #[trigger] firsts2[l]) by {
        assert(firsts2[q] == firsts[q]);
        if l < last {
            assert(firsts2[l] == firsts[l]);
        }
    }
    assert forall|k: int| 0 <= k < firsts2.len() implies (#[trigger] firsts2[k]) < n + 1 by {
        if k < last {
            assert(firsts2[k] == firsts[k]);
        }
    }
}

/// In a tally of all the words, the word listed at `best` is the most
/// frequent one if its count is at least every count and above every
/// count before it.
pub proof fn lemma_tally_best(
    ws: Seq<Seq<char>>,
    firsts: Seq<usize>,
    counts: Seq<usize>,
    best: int,
)
    requires
        is_tally(ws, ws.len() as int, firsts, counts),
        0 <= best < counts.len(),
        forall|k: int| 0 <= k < counts.len() ==> (#[trigger] counts[k]) <= counts[best],
        forall|k: int| 0 <= k < best ==> (#[trigger] counts[k]) < counts[best],
    ensures
        is_most_frequent_at(ws, firsts[best] as int),
        counts[best] as nat == count_of(ws, ws[firsts[best] as int]),
{
    let at = firsts[best] as int;
    assert(ws.subrange(0, ws.len() as int) =~= ws);
    assert forall|j: int| 0 <= j < ws.len() implies count_of(ws, #[trigger] ws[j]) <= count_of(
        ws,
        ws[at],
    ) by {
        let q = choose|q: int| 0 <= q < firsts.len() && ws[(#[trigger] firsts[q]) as int] == ws[j];
        assert(counts[q] <= counts[best]);
    }
    assert forall|j: int| 0 <= j < at implies count_of(ws, #[trigger] ws[j]) < count_of(
        ws,
        ws[at],
    ) by {
        let q = choose|q: int| 0 <= q < firsts.len() && ws[(#[trigger] firsts[q]) as int] == ws[j];
        if firsts[q] > j {
            assert(ws[j] != ws[firsts[q] as int]);
        }
        if q > best {
            assert(firsts[best] < firsts[q]);
        }
        assert(q < best);
        assert(counts[q] < counts[best]);
    }
}

/// The most frequent word of `text` and the number of its occurrences;
/// among several words of that frequency, the one that occurs first.
pub fn most_frequent_word(text: &str) -> (r: (String, usize))
    requires
        words_of(text@).len() > 0,
    ensures
        exists|i: int|
            is_most_frequent_at(words_of(text@), i) && (#[trigger] words_of(text@)[i]) == r.0@,
        r.1 as nat == count_of(words_of(text@), r.0@),
{
    let words = split_words(text);
    let ghost ws = texts(words@);
    let mut firsts: Vec<usize> = Vec::new();
    let mut counts: Vec<usize> = Vec::new();
    let mut i: usize = 0;
    while i < words.len()
        invariant
            i <= words.len(),
            ws == texts(words@),
            is_tally(ws, i as int, firsts@, counts@),
        decreases words.len() - i,
    {
        match find_word(&words, &firsts, &words[i]) {
            Some(k) => {
                proof {
                    lemma_tally_bump(ws, i as int, firsts@, counts@, k as int);
                }
                let c: usize = counts[k];
                counts.set(k, c + 1);
            },
            None => {
                proof {
                    assert forall|q: int| 0 <= q < firsts@.len() implies ws[(
                    #[trigger] firsts@[q]) as int] != ws[i as int] by {
                        assert(words@[firsts@[q] as int]@ != words@[i as int]@);
                    }
                    lemma_tally_new(ws, i as int, firsts@, counts@);
                }
                firsts.push(i);
                counts.push(1);
            },
        }
        i = i + 1;
    }
    assert(counts@.len() > 0) by {
        let q = choose|q: int| 0 <= q < firsts@.len() && ws[(#[trigger] firsts@[q]) as int] == ws[0];
    }
    let mut best: usize = 0;
    let mut m: usize = 1;
    while m < counts.len()
        invariant
            1 <= m <= counts.len(),
            best < m,
            forall|k: int| 0 <= k < m ==> (#[trigger] counts@[k]) <= counts@[best as int],
            forall|k: int| 0 <= k < best ==> (#[trigger] counts@[k]) < counts@[best as int],
        decreases counts.len() - m,
    {
        if counts[m] > counts[best] {
            best = m;
        }
        m = m + 1;
    }
    proof {
        lemma_tally_best(ws, firsts@, counts@, best as int);
    }
    let at: usize = firsts[best];
    (words[at].clone(), counts[best])
}

} // verus!
