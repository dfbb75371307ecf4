//! Body scanning: the first absolute `http(s)` URL in a text, and the
//! hashtags (`#` followed by a Unicode letter, then letters, numbers or
//! hyphens) it contains, in order of occurrence.
use crate::text::{chars_to_string, to_chars, unicode_letter, unicode_number, unicode_whitespace};
use vstd::prelude::*;

verus! {

/// A character that may appear in a scanned URL: anything but Unicode
/// whitespace and the four delimiters `(`, `)`, `<`, `>`.
pub open spec fn url_char(c: char) -> bool {
    !unicode_whitespace(c) && c != '(' && c != ')' && c != '<' && c != '>'
}

/// The literal `http://` occurs at position `i`.
pub open spec fn http_at(s: Seq<char>, i: int) -> bool {
    &&& 0 <= i
    &&& i + 7 <= s.len()
    &&& s[i] == 'h'
    &&& s[i + 1] == 't'
    &&& s[i + 2] == 't'
    &&& s[i + 3] == 'p'
    &&& s[i + 4] == ':'
    &&& s[i + 5] == '/'
    &&& s[i + 6] == '/'
}

/// The literal `https://` occurs at position `i`.
pub open spec fn https_at(s: Seq<char>, i: int) -> bool {
    &&& 0 <= i
    &&& i + 8 <= s.len()
    &&& s[i] == 'h'
    &&& s[i + 1] == 't'
    &&& s[i + 2] == 't'
    &&& s[i + 3] == 'p'
    &&& s[i + 4] == 's'
    &&& s[i + 5] == ':'
    &&& s[i + 6] == '/'
    &&& s[i + 7] == '/'
}

/// The end of the maximal run of URL characters that starts at `j`.
pub open spec fn run_end(s: Seq<char>, j: int) -> int
    decreases s.len() - j,
    when 0 <= j <= s.len()
{
    if j >= s.len() {
        j
    } else if url_char(s[j]) {
        run_end(s, j + 1)
    } else {
        j
    }
}

proof fn lemma_run_end_eq(s: Seq<char>, j: int, e: int)
    requires
        0 <= j <= e <= s.len(),
        forall|k: int| j <= k < e ==> url_char(s[k]),
        e < s.len() ==> !url_char(s[e]),
    ensures
        run_end(s, j) == e,
    decreases e - j,
{
    if j < e {
        lemma_run_end_eq(s, j + 1, e);
    }
}

/// The length of the URL match that begins at `i`, if one begins there: a
/// scheme literal followed by at least one URL character, extending as far
/// as URL characters run.
pub open spec fn url_match_len(s: Seq<char>, i: int) -> Option<int> {
    if https_at(s, i) && i + 8 < s.len() && url_char(s[i + 8]) {
        Some(run_end(s, i + 8) - i)
    } else if http_at(s, i) && i + 7 < s.len() && url_char(s[i + 7]) {
        Some(run_end(s, i + 7) - i)
    } else {
        None
    }
}

/// The first URL match at or after position `i`: the match at the leftmost
/// starting position wins.
pub open spec fn first_url_from(s: Seq<char>, i: int) -> Option<Seq<char>>
    decreases s.len() - i,
    when 0 <= i <= s.len()
{
    if i >= s.len() {
        None
    } else if url_match_len(s, i) is Some {
        Some(s.subrange(i, i + url_match_len(s, i).unwrap()))
    } else {
        first_url_from(s, i + 1)
    }
}

/// The first absolute `http(s)` URL in the text, if any.
pub open spec fn first_url(s: Seq<char>) -> Option<Seq<char>> {
    first_url_from(s, 0)
}

fn is_url_char(c: char) -> (r: bool)
    ensures
        r == url_char(c),
{
    !c.is_whitespace() && c != '(' && c != ')' && c != '<' && c != '>'
}

fn check_scheme(v: &Vec<char>, i: usize) -> (r: usize)
    requires
        i <= v@.len(),
    ensures
        https_at(v@, i as int) ==> r == 8,
        !https_at(v@, i as int) && http_at(v@, i as int) ==> r == 7,
        !https_at(v@, i as int) && !http_at(v@, i as int) ==> r == 0,
{
    if v.len() >= 8 && i <= v.len() - 8 && v[i] == 'h' && v[i + 1] == 't' && v[i + 2] == 't' && v[i
        + 3] == 'p' && v[i + 4] == 's' && v[i + 5] == ':' && v[i + 6] == '/' && v[i + 7] == '/' {
        8
    } else if v.len() >= 7 && i <= v.len() - 7 && v[i] == 'h' && v[i + 1] == 't' && v[i + 2] == 't'
        && v[i + 3] == 'p' && v[i + 4] == ':' && v[i + 5] == '/' && v[i + 6] == '/' {
        7
    } else {
        0
    }
}

/// Extracts the first absolute URL from a string: the leftmost occurrence of
/// `http://` or `https://` followed by at least one URL character, extended
/// to the longest run of URL characters.
pub fn extract_first_url(content: &str) -> (r: Option<String>)
    ensures
        match r {
            Option::Some(u) => first_url(content@) == Some(u@),
            Option::None => first_url(content@) is None,
        },
{
    let v = to_chars(content);
    let n: usize = v.len();
    let mut i: usize = 0;
    while i < n
        invariant
            i <= n,
            n == v@.len(),
            v@ == content@,
            first_url_from(v@, 0) == first_url_from(v@, i as int),
        decreases n - i,
    {
        let sl = check_scheme(&v, i);
        if sl > 0 && i + sl < n && is_url_char(v[i + sl]) {
            let start = i + sl;
            let mut e: usize = start;
            while e < n && is_url_char(v[e])
                invariant
                    start <= e <= n,
                    n == v@.len(),
                    forall|k: int| start <= k < e ==> url_char(v@[k]),
                decreases n - e,
            {
                e = e + 1;
            }
            proof {
                lemma_run_end_eq(v@, start as int, e as int);
                assert(url_match_len(v@, i as int) == Some(e - i));
                assert(first_url_from(v@, i as int) == Some(
                    v@.subrange(i as int, i + url_match_len(v@, i as int).unwrap()),
                ));
            }
            let mut m: Vec<char> = Vec::new();
            let mut k: usize = i;
            while k < e
                invariant
                    i <= k <= e <= v@.len(),
                    m@ == v@.subrange(i as int, k as int),
                decreases e - k,
            {
                m.push(v[k]);
                k = k + 1;
                proof {
                    assert(m@ =~= v@.subrange(i as int, k as int));
                }
            }
            let out = chars_to_string(&m);
            return Some(out);
        }
        proof {
            assert(url_match_len(v@, i as int) is None);
            assert(first_url_from(v@, i as int) == first_url_from(v@, i + 1));
        }
        i = i + 1;
    }
    None
}

/// A character that may continue a hashtag: a Unicode letter, a Unicode
/// number, or `-`.
pub open spec fn tag_char(c: char) -> bool {
    unicode_letter(c) || unicode_number(c) || c == '-'
}

/// The end of the maximal run of tag characters that starts at `j`.
pub open spec fn tag_run_end(s: Seq<char>, j: int) -> int
    decreases s.len() - j,
    when 0 <= j <= s.len()
{
    if j >= s.len() {
        j
    } else if tag_char(s[j]) {
        tag_run_end(s, j + 1)
    } else {
        j
    }
}

proof fn lemma_tag_run_end(s: Seq<char>, j: int)
    requires
        0 <= j <= s.len(),
    ensures
        j <= tag_run_end(s, j) <= s.len(),
        forall|k: int| j <= k < tag_run_end(s, j) ==> tag_char(s[k]),
        tag_run_end(s, j) < s.len() ==> !tag_char(s[tag_run_end(s, j)]),
    decreases s.len() - j,
{
    if j < s.len() && tag_char(s[j]) {
        lemma_tag_run_end(s, j + 1);
    }
}

proof fn lemma_tag_run_end_eq(s: Seq<char>, j: int, e: int)
    requires
        0 <= j <= e <= s.len(),
        forall|k: int| j <= k < e ==> tag_char(s[k]),
        e < s.len() ==> !tag_char(s[e]),
    ensures
        tag_run_end(s, j) == e,
    decreases e - j,
{
    if j < e {
        lemma_tag_run_end_eq(s, j + 1, e);
    }
}

/// A hashtag begins at `i`: a `#` followed by at least one tag character
/// (a Unicode letter, a Unicode number, or a hyphen).
pub open spec fn tag_at(s: Seq<char>, i: int) -> bool {
    &&& 0 <= i
    &&& i + 1 < s.len()
    &&& s[i] == '#'
    &&& tag_char(s[i + 1])
}

/// The hashtags found at or after position `i`, leftmost first, each match
/// consumed whole before scanning resumes after it.
pub open spec fn body_tags_from(s: Seq<char>, i: int) -> Seq<Seq<char>>
    decreases s.len() - i,
    when 0 <= i <= s.len()
    via body_tags_from_decreases
{
    if i >= s.len() {
        Seq::empty()
    } else if tag_at(s, i) {
        seq![s.subrange(i + 1, tag_run_end(s, i + 1))] + body_tags_from(s, tag_run_end(s, i + 1))
    } else {
        body_tags_from(s, i + 1)
    }
}

#[via_fn]
proof fn body_tags_from_decreases(s: Seq<char>, i: int) {
    if i < s.len() && tag_at(s, i) {
        lemma_tag_run_end(s, i + 1);
    }
}

/// The hashtags of the text, in order of occurrence, duplicates kept.
pub open spec fn body_tags(s: Seq<char>) -> Seq<Seq<char>> {
    body_tags_from(s, 0)
}

fn is_tag_char(c: char) -> (r: bool)
    ensures
        r == tag_char(c),
{
    c.is_alphabetic() || c.is_numeric() || c == '-'
}

/// Extracts hashtags (e.g., `#rust`) from a string, with Unicode support;
/// duplicates are kept in order of occurrence.
pub fn extract_body_tags(content: &str) -> (r: Vec<String>)
    ensures
        r@.map_values(|t: String| t@) == body_tags(content@),
{
    let v = to_chars(content);
    let n: usize = v.len();
    let mut acc: Vec<String> = Vec::new();
    let mut i: usize = 0;
    while i < n
        invariant
            i <= n,
            n == v@.len(),
            v@ == content@,
            body_tags(v@) == acc@.map_values(|t: String| t@) + body_tags_from(v@, i as int),
        decreases n - i,
    {
        if v[i] == '#' && i + 1 < n && is_tag_char(v[i + 1]) {
            let start = i + 1;
            let mut e: usize = i + 2;
            while e < n && is_tag_char(v[e])
                invariant
                    i + 2 <= e <= n,
                    n == v@.len(),
                    forall|k: int| i + 1 <= k < e ==> tag_char(v@[k]),
                decreases n - e,
            {
                e = e + 1;
            }
            proof {
                lemma_tag_run_end_eq(v@, i + 1, e as int);
            }
            let mut m: Vec<char> = Vec::new();
            let mut k: usize = start;
            while k < e
                invariant
                    start <= k <= e <= v@.len(),
                    m@ == v@.subrange(start as int, k as int),
                decreases e - k,
            {
                m.push(v[k]);
                k = k + 1;
                proof {
                    assert(m@ =~= v@.subrange(start as int, k as int));
                }
            }
            let t = chars_to_string(&m);
            proof {
                assert(tag_at(v@, i as int));
                assert(body_tags_from(v@, i as int) == seq![
                    v@.subrange(i + 1, tag_run_end(v@, i + 1)),
                ] + body_tags_from(v@, tag_run_end(v@, i + 1)));
            }
            acc.push(t);
            proof {
                assert(acc@.map_values(|t: String| t@) =~= acc@.drop_last().map_values(
                    |t: String| t@,
                ).push(m@));
                assert(acc@.map_values(|t: String| t@) + body_tags_from(v@, e as int)
                    =~= acc@.drop_last().map_values(|t: String| t@) + body_tags_from(
                    v@,
                    i as int,
                ));
            }
            i = e;
        } else {
            proof {
                assert(!tag_at(v@, i as int));
                assert(body_tags_from(v@, i as int) == body_tags_from(v@, i + 1));
            }
            i = i + 1;
        }
    }
    proof {
        assert(body_tags_from(v@, n as int) =~= Seq::<Seq<char>>::empty());
        assert(acc@.map_values(|t: String| t@) + Seq::<Seq<char>>::empty() =~= acc@.map_values(
            |t: String| t@,
        ));
    }
    acc
}

} // verus!
