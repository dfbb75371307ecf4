//! Resource-link validation: every `src="..."` or `href="..."` attribute
//! value in an HTML string must be an absolute URL, unless it is empty, an
//! in-page anchor (`#...`), or an inline data URI (`data:...`).
use crate::text::to_chars;
use vstd::prelude::*;

verus! {

/// Whether the string is an absolute URL with both a scheme and an
/// authority, as the url crate reads it.
pub uninterp spec fn url_accepted(s: Seq<char>) -> bool;

/// Relies on `url::Url::parse` and `url::Url::has_authority`: whether the
/// string parses as an absolute URL whose scheme is followed by `://` is a
/// function of the string alone; a relative reference is rejected, and so
/// is an authority-less URL such as `mailto:`.
#[verifier::external_body]
fn parses_as_url(s: &str) -> (r: bool)
    ensures
        r == url_accepted(s@),
{
    match url::Url::parse(s) {
        Ok(u) => u.has_authority(),
        Err(_) => false,
    }
}

/// A single or double quote.
pub open spec fn quote(c: char) -> bool {
    c == '"' || c == '\''
}

/// The literal `src=` occurs at position `i`.
pub open spec fn src_at(s: Seq<char>, i: int) -> bool {
    &&& 0 <= i
    &&& i + 4 <= s.len()
    &&& s[i] == 's'
    &&& s[i + 1] == 'r'
    &&& s[i + 2] == 'c'
    &&& s[i + 3] == '='
}

/// The literal `href=` occurs at position `i`.
pub open spec fn href_at(s: Seq<char>, i: int) -> bool {
    &&& 0 <= i
    &&& i + 5 <= s.len()
    &&& s[i] == 'h'
    &&& s[i + 1] == 'r'
    &&& s[i + 2] == 'e'
    &&& s[i + 3] == 'f'
    &&& s[i + 4] == '='
}

/// The length of the attribute key (`src=` or `href=`) at `i`, if one
/// occurs there.
pub open spec fn key_len_at(s: Seq<char>, i: int) -> Option<int> {
    if src_at(s, i) {
        Some(4)
    } else if href_at(s, i) {
        Some(5)
    } else {
        None
    }
}

/// The first quote at or after `j`, provided no newline comes before it;
/// `None` when a newline or the end of the text comes first.
pub open spec fn close_quote(s: Seq<char>, j: int) -> Option<int>
    decreases s.len() - j,
    when 0 <= j <= s.len()
{
    if j >= s.len() {
        None
    } else if quote(s[j]) {
        Some(j)
    } else if s[j] == '\n' {
        None
    } else {
        close_quote(s, j + 1)
    }
}

proof fn lemma_close_quote(s: Seq<char>, j: int)
    requires
        0 <= j <= s.len(),
    ensures
        match close_quote(s, j) {
            Option::Some(c) => j <= c < s.len() && quote(s[c]),
            Option::None => true,
        },
    decreases s.len() - j,
{
    if j < s.len() && !quote(s[j]) && s[j] != '\n' {
        lemma_close_quote(s, j + 1);
    }
}

proof fn lemma_close_quote_skip(s: Seq<char>, j0: int, j: int)
    requires
        0 <= j0 <= j <= s.len(),
        forall|k: int| j0 <= k < j ==> !quote(s[k]) && s[k] != '\n',
    ensures
        close_quote(s, j0) == close_quote(s, j),
    decreases j - j0,
{
    if j0 < j {
        lemma_close_quote_skip(s, j0 + 1, j);
    }
}

/// The closing quote of the attribute value that begins at key position
/// `i`, when a key, an opening quote and a closing quote on the same line
/// are all present.
pub open spec fn attr_close(s: Seq<char>, i: int) -> Option<int> {
    match key_len_at(s, i) {
        Option::Some(kl) => {
            if i + kl < s.len() && quote(s[i + kl]) {
                close_quote(s, i + kl + 1)
            } else {
                None
            }
        },
        Option::None => None,
    }
}

/// The `src`/`href` attribute values found at or after `i`, leftmost first,
/// each match consumed whole before scanning resumes after it.
pub open spec fn resources_from(s: Seq<char>, i: int) -> Seq<Seq<char>>
    decreases s.len() - i,
    when 0 <= i <= s.len()
    via resources_from_decreases
{
    if i >= s.len() {
        Seq::empty()
    } else if attr_close(s, i) is Some {
        let kl = key_len_at(s, i).unwrap();
        let c = attr_close(s, i).unwrap();
        seq![s.subrange(i + kl + 1, c)] + resources_from(s, c + 1)
    } else {
        resources_from(s, i + 1)
    }
}

#[via_fn]
proof fn resources_from_decreases(s: Seq<char>, i: int) {
    if i < s.len() && attr_close(s, i) is Some {
        let kl = key_len_at(s, i).unwrap();
        lemma_close_quote(s, i + kl + 1);
    }
}

/// All resource references of the HTML text, in order of occurrence.
pub open spec fn resources(s: Seq<char>) -> Seq<Seq<char>> {
    resources_from(s, 0)
}

/// A value exempt from validation: empty, an in-page anchor, or a data URI.
pub open spec fn skip_value(v: Seq<char>) -> bool {
    ||| v.len() == 0
    ||| v[0] == '#'
    ||| (v.len() >= 5 && v[0] == 'd' && v[1] == 'a' && v[2] == 't' && v[3] == 'a' && v[4] == ':')
}

/// The first resource value that is neither exempt nor an absolute URL.
pub open spec fn first_violation(vals: Seq<Seq<char>>) -> Option<Seq<char>>
    decreases vals.len(),
{
    if vals.len() == 0 {
        None
    } else if !skip_value(vals[0]) && !url_accepted(vals[0]) {
        Some(vals[0])
    } else {
        first_violation(vals.drop_first())
    }
}

/// The first offending resource reference of the HTML text, if any.
pub open spec fn html_resource_violation(html: Seq<char>) -> Option<Seq<char>> {
    first_violation(resources(html))
}

/// A relative or invalid resource link, with the file it came from.
pub struct ResourceLinkError {
    /// The path of the source file whose rendered HTML failed validation.
    pub file: String,
    /// The offending attribute value.
    pub value: String,
}

fn check_key(v: &Vec<char>, i: usize) -> (r: usize)
    requires
        i <= v@.len(),
    ensures
        key_len_at(v@, i as int) == (if r == 0 {
            Option::<int>::None
        } else {
            Option::<int>::Some(r as int)
        }),
{
    if v.len() >= 4 && i <= v.len() - 4 && v[i] == 's' && v[i + 1] == 'r' && v[i + 2] == 'c' && v[i
        + 3] == '=' {
        4
    } else if v.len() >= 5 && i <= v.len() - 5 && v[i] == 'h' && v[i + 1] == 'r' && v[i + 2] == 'e'
        && v[i + 3] == 'f' && v[i + 4] == '=' {
        5
    } else {
        0
    }
}

fn find_close_quote(v: &Vec<char>, j0: usize) -> (r: Option<usize>)
    requires
        j0 <= v@.len(),
    ensures
        match r {
            Option::Some(c) => close_quote(v@, j0 as int) == Some(c as int) && j0 <= c < v@.len(),
            Option::None => close_quote(v@, j0 as int) is None,
        },
{
    let mut j: usize = j0;
    loop
        invariant
            j0 <= j <= v@.len(),
            forall|k: int| j0 <= k < j ==> !quote(v@[k]) && v@[k] != '\n',
        decreases v@.len() - j,
    {
        proof {
            lemma_close_quote_skip(v@, j0 as int, j as int);
        }
        if j >= v.len() {
            return None;
        }
        let c = v[j];
        if c == '"' || c == '\'' {
            return Some(j);
        }
        if c == '\n' {
            return None;
        }
        j = j + 1;
    }
}

/// Validates that every `src` and `href` attribute value in an HTML string
/// is an absolute URL with scheme and authority, unless exempt; on failure
/// reports the file and the first offending value.
pub fn validate_resource_urls(html_content: &str, source_file: &str) -> (r: Result<
    (),
    ResourceLinkError,
>)
    ensures
        match r {
            Result::Ok(_) => html_resource_violation(html_content@) is None,
            Result::Err(e) => html_resource_violation(html_content@) == Some(e.value@) && e.file@
                == source_file@,
        },
{
    let v = to_chars(html_content);
    let n: usize = v.len();
    let mut i: usize = 0;
    while i < n
        invariant
            i <= n,
            n == v@.len(),
            v@ == html_content@,
            html_resource_violation(v@) == first_violation(resources_from(v@, i as int)),
        decreases n - i,
    {
        let kl = check_key(&v, i);
        let mut matched = false;
        if kl > 0 && i + kl < n {
            let q = v[i + kl];
            if q == '"' || q == '\'' {
                match find_close_quote(&v, i + kl + 1) {
                    Some(c) => {
                        let mut m: Vec<char> = Vec::new();
                        let mut k: usize = i + kl + 1;
                        while k < c
                            invariant
                                i + kl + 1 <= k <= c <= v@.len(),
                                m@ == v@.subrange(i + kl + 1, k as int),
                            decreases c - k,
                        {
                            m.push(v[k]);
                            k = k + 1;
                            proof {
                                assert(m@ =~= v@.subrange(i + kl + 1, k as int));
                            }
                        }
                        proof {
                            assert(attr_close(v@, i as int) == Some(c as int));
                            assert(resources_from(v@, i as int) == seq![
                                v@.subrange(i + kl + 1, c as int),
                            ] + resources_from(v@, c + 1));
                        }
                        let skip = m.len() == 0 || (m.len() > 0 && m[0] == '#') || (m.len() >= 5
                            && m[0] == 'd' && m[1] == 'a' && m[2] == 't' && m[3] == 'a' && m[4]
                            == ':');
                        if !skip {
                            let ms = crate::text::chars_to_string(&m);
                            if !parses_as_url(ms.as_str()) {
                                proof {
                                    let vals = resources_from(v@, i as int);
                                    assert(vals[0] == m@);
                                    assert(first_violation(vals) == Some(m@));
                                }
                                return Err(
                                    ResourceLinkError {
                                        file: source_file.to_owned(),
                                        value: ms,
                                    },
                                );
                            }
                        }
                        proof {
                            let vals = resources_from(v@, i as int);
                            assert(vals[0] == m@);
                            assert(skip_value(m@) || url_accepted(m@));
                            assert(vals.drop_first() =~= resources_from(v@, c + 1));
                            assert(first_violation(vals) == first_violation(
                                resources_from(v@, c + 1),
                            ));
                        }
                        matched = true;
                        i = c + 1;
                    },
                    None => {
                        proof {
                            assert(attr_close(v@, i as int) is None);
                        }
                    },
                }
            }
        }
        if !matched {
            proof {
                assert(attr_close(v@, i as int) is None);
                assert(resources_from(v@, i as int) == resources_from(v@, i + 1));
            }
            i = i + 1;
        }
    }
    proof {
        assert(resources_from(v@, n as int) =~= Seq::<Seq<char>>::empty());
    }
    Ok(())
}

} // verus!
