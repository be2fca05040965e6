//! Reading configuration text: `Name: Value` header rules and lists of
//! URLs, one per line.

use crate::text::{chars_of, find_char, is_first_at, trim, trim_bounds};
use vstd::prelude::*;
use vstd::string::*;

verus! {

/// The views of a sequence of strings.
pub open spec fn texts(v: Seq<String>) -> Seq<Seq<char>> {
    Seq::new(v.len(), |i: int| v[i]@)
}

/// The views of a sequence of pairs of strings.
pub open spec fn pair_texts(v: Seq<(String, String)>) -> Seq<(Seq<char>, Seq<char>)> {
    Seq::new(v.len(), |i: int| (v[i].0@, v[i].1@))
}

/// The view of an optional pair of strings.
pub open spec fn pair_text(p: Option<(String, String)>) -> Option<(Seq<char>, Seq<char>)> {
    match p {
        Some((a, b)) => Some((a@, b@)),
        None => None,
    }
}

/// The view of an optional string.
pub open spec fn opt_text(p: Option<String>) -> Option<Seq<char>> {
    match p {
        Some(a) => Some(a@),
        None => None,
    }
}

/// A header rule is split at its first colon, and both sides are trimmed;
/// text without a colon is no rule.
pub open spec fn parse_header_spec(s: Seq<char>) -> Option<(Seq<char>, Seq<char>)> {
    if s.contains(':') {
        let i = choose|i: int| is_first_at(s, ':', i);
        Some((trim(s.subrange(0, i)), trim(s.subrange(i + 1, s.len() as int))))
    } else {
        None
    }
}

/// The rules among `raw`, in order; what is no rule is passed over.
pub open spec fn parse_headers_spec(raw: Seq<String>) -> Seq<(Seq<char>, Seq<char>)>
    decreases raw.len(),
{
    if raw.len() == 0 {
        seq![]
    } else {
        let rest = parse_headers_spec(raw.drop_last());
        match parse_header_spec(raw.last()@) {
            Some(rule) => rest.push(rule),
            None => rest,
        }
    }
}

/// The URL on a line: the trimmed line, unless that is empty or begins
/// with `#`.
pub open spec fn url_of_line_spec(line: Seq<char>) -> Option<Seq<char>> {
    let t = trim(line);
    if t.len() == 0 || t[0] == '#' {
        None
    } else {
        Some(t)
    }
}

/// The URLs on the given lines, in order.
pub open spec fn urls_of_lines_spec(lines: Seq<String>) -> Seq<Seq<char>>
    decreases lines.len(),
{
    if lines.len() == 0 {
        seq![]
    } else {
        let rest = urls_of_lines_spec(lines.drop_last());
        match url_of_line_spec(lines.last()@) {
            Some(url) => rest.push(url),
            None => rest,
        }
    }
}

/// Parses one `Name: Value` rule.
pub fn parse_header(s: &str) -> (r: Option<(String, String)>)
    ensures
        pair_text(r) == parse_header_spec(s@),
{
    let v = chars_of(s);
    match find_char(&v, ':') {
        None => None,
        Some(i) => {
            proof {
                let j = choose|j: int| is_first_at(s@, ':', j);
                assert(is_first_at(s@, ':', i as int));
                assert(j == i);
                assert(s@.contains(':'));
            }
            let (a, b) = trim_bounds(&v, 0, i);
            let (c, d) = trim_bounds(&v, i + 1, v.len());
            let name = s.substring_char(a, b).to_owned();
            let value = s.substring_char(c, d).to_owned();
            Some((name, value))
        },
    }
}

/// Parses a list of rules and keeps those that are well formed.
pub fn parse_headers(raw: &Vec<String>) -> (r: Vec<(String, String)>)
    ensures
        pair_texts(r@) == parse_headers_spec(raw@),
{
    let mut out: Vec<(String, String)> = Vec::new();
    let mut i: usize = 0;
    assert(pair_texts(out@) =~= parse_headers_spec(raw@.subrange(0, 0)));
    while i < raw.len()
        invariant
            i <= raw.len(),
            pair_texts(out@) == parse_headers_spec(raw@.subrange(0, i as int)),
        decreases raw.len() - i,
    {
        let ghost before = out@;
        assert(raw@.subrange(0, i as int + 1).drop_last() =~= raw@.subrange(0, i as int));
        match parse_header(raw[i].as_str()) {
            Some(rule) => {
                out.push(rule);
                assert(pair_texts(out@) =~= pair_texts(before).push((rule.0@, rule.1@)));
            },
            None => {},
        }
        i = i + 1;
    }
    assert(raw@.subrange(0, raw.len() as int) =~= raw@);
    out
}

/// Reads one line of a URL list.
pub fn url_of_line(line: &str) -> (r: Option<String>)
    ensures
        opt_text(r) == url_of_line_spec(line@),
{
    let v = chars_of(line);
    assert(v@.subrange(0, v@.len() as int) =~= v@);
    let (a, b) = trim_bounds(&v, 0, v.len());
    if a == b || v[a] == '#' {
        None
    } else {
        Some(line.substring_char(a, b).to_owned())
    }
}

/// Reads a URL list: blank lines and lines that begin with `#` are passed
/// over, the others are trimmed.
pub fn urls_of_lines(lines: &Vec<String>) -> (r: Vec<String>)
    ensures
        texts(r@) == urls_of_lines_spec(lines@),
{
    let mut out: Vec<String> = Vec::new();
    let mut i: usize = 0;
    assert(texts(out@) =~= urls_of_lines_spec(lines@.subrange(0, 0)));
    while i < lines.len()
        invariant
            i <= lines.len(),
            texts(out@) == urls_of_lines_spec(lines@.subrange(0, i as int)),
        decreases lines.len() - i,
    {
        let ghost before = out@;
        assert(lines@.subrange(0, i as int + 1).drop_last() =~= lines@.subrange(0, i as int));
        match url_of_line(lines[i].as_str()) {
            Some(url) => {
                out.push(url);
                assert(texts(out@) =~= texts(before).push(url@));
            },
            None => {},
        }
        i = i + 1;
    }
    assert(lines@.subrange(0, lines.len() as int) =~= lines@);
    out
}

/// No URL read from a list is empty or begins with `#`.
pub proof fn lemma_urls_are_clean(lines: Seq<String>)
    ensures
        forall|k: int|
            0 <= k < urls_of_lines_spec(lines).len() ==> {
                let u = #[trigger] urls_of_lines_spec(lines)[k];
                u.len() > 0 && u[0] != '#' && trim(u) == u
            },
        urls_of_lines_spec(lines).len() <= lines.len(),
    decreases lines.len(),
{
    if lines.len() > 0 {
        lemma_urls_are_clean(lines.drop_last());
        crate::text::lemma_trim_idempotent(lines.last()@);
    }
}

} // verus!
