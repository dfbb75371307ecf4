//! Frontmatter handling. The block grammar — an opening `---` line, the
//! block text, a closing `---` line — is the library's own and is verified:
//! a document without a block keeps the whole text as body, and can never
//! fail. Only the YAML decoding of the block text is trusted, and its
//! outcome is named as a function of that text alone: a malformed block or
//! a field of the wrong shape fails the decode, nothing else does.
use crate::text::{chars_to_string, to_chars};
use vstd::prelude::*;

verus! {

/// The optional frontmatter fields of a Markdown file, as raw values.
pub struct Frontmatter {
    pub title: Option<String>,
    pub description: Option<String>,
    pub tags: Option<Vec<String>>,
    pub created: Option<String>,
    pub modified: Option<String>,
    pub link_url: Option<String>,
}

impl Frontmatter {
    /// The record of a file without frontmatter: every field absent.
    pub fn empty() -> (r: Frontmatter)
        ensures
            r.title is None,
            r.description is None,
            r.tags is None,
            r.created is None,
            r.modified is None,
            r.link_url is None,
    {
        Frontmatter {
            title: None,
            description: None,
            tags: None,
            created: None,
            modified: None,
            link_url: None,
        }
    }
}

/// The character sequence of an optional string.
pub open spec fn opt_str_view(u: Option<String>) -> Option<Seq<char>> {
    match u {
        Option::Some(s) => Option::Some(s@),
        Option::None => Option::None,
    }
}

/// The character sequences of an optional string list.
pub open spec fn opt_list_view(t: Option<Vec<String>>) -> Option<Seq<Seq<char>>> {
    match t {
        Option::Some(v) => Option::Some(v@.map_values(|x: String| x@)),
        Option::None => Option::None,
    }
}

/// A frontmatter record at the level contracts speak of: each field as a
/// character sequence.
pub struct FmFields {
    pub title: Option<Seq<char>>,
    pub description: Option<Seq<char>>,
    pub tags: Option<Seq<Seq<char>>>,
    pub created: Option<Seq<char>>,
    pub modified: Option<Seq<char>>,
    pub link_url: Option<Seq<char>>,
}

/// The view of a raw frontmatter record.
pub open spec fn fm_fields_view(fm: Frontmatter) -> FmFields {
    FmFields {
        title: opt_str_view(fm.title),
        description: opt_str_view(fm.description),
        tags: opt_list_view(fm.tags),
        created: opt_str_view(fm.created),
        modified: opt_str_view(fm.modified),
        link_url: opt_str_view(fm.link_url),
    }
}

/// The record of a document without a usable block: every field absent.
pub open spec fn fm_absent() -> FmFields {
    FmFields {
        title: None,
        description: None,
        tags: None,
        created: None,
        modified: None,
        link_url: None,
    }
}

/// A horizontal character that may trail a delimiter line.
pub open spec fn pad_char(c: char) -> bool {
    c == ' ' || c == '\t' || c == '\r'
}

/// The index of the newline that ends the line starting at `j`, or the end
/// of the text.
pub open spec fn line_break(s: Seq<char>, j: int) -> int
    decreases s.len() - j,
    when 0 <= j <= s.len()
{
    if j >= s.len() {
        j
    } else if s[j] == '\n' {
        j
    } else {
        line_break(s, j + 1)
    }
}

proof fn lemma_line_break(s: Seq<char>, j: int)
    requires
        0 <= j <= s.len(),
    ensures
        j <= line_break(s, j) <= s.len(),
        forall|k: int| j <= k < line_break(s, j) ==> s[k] != '\n',
        line_break(s, j) < s.len() ==> s[line_break(s, j)] == '\n',
    decreases s.len() - j,
{
    if j < s.len() && s[j] != '\n' {
        lemma_line_break(s, j + 1);
    }
}

proof fn lemma_line_break_eq(s: Seq<char>, j: int, e: int)
    requires
        0 <= j <= e <= s.len(),
        forall|k: int| j <= k < e ==> s[k] != '\n',
        e < s.len() ==> s[e] == '\n',
    ensures
        line_break(s, j) == e,
    decreases e - j,
{
    if j < e {
        lemma_line_break_eq(s, j + 1, e);
    }
}

/// The line starting at `i` is a frontmatter delimiter: `---`, then only
/// padding before the line break.
pub open spec fn delim_line_at(s: Seq<char>, i: int) -> bool {
    &&& 0 <= i
    &&& i + 3 <= line_break(s, i)
    &&& s[i] == '-'
    &&& s[i + 1] == '-'
    &&& s[i + 2] == '-'
    &&& forall|k: int| i + 3 <= k < line_break(s, i) ==> pad_char(s[k])
}

/// The start of the first delimiter line at or after line start `i`.
pub open spec fn next_delim_line(s: Seq<char>, i: int) -> Option<int>
    decreases s.len() - i,
    when 0 <= i <= s.len()
    via next_delim_line_decreases
{
    if delim_line_at(s, i) {
        Some(i)
    } else if line_break(s, i) >= s.len() {
        None
    } else {
        next_delim_line(s, line_break(s, i) + 1)
    }
}

#[via_fn]
proof fn next_delim_line_decreases(s: Seq<char>, i: int) {
    if !delim_line_at(s, i) && line_break(s, i) < s.len() {
        lemma_line_break(s, i);
    }
}

/// The document has a frontmatter block: its first line is a delimiter and
/// a later delimiter line closes it.
pub open spec fn has_fm_block(s: Seq<char>) -> bool {
    &&& delim_line_at(s, 0)
    &&& line_break(s, 0) < s.len()
    &&& next_delim_line(s, line_break(s, 0) + 1) is Some
}

/// The raw text between the opening and closing delimiter lines.
pub open spec fn fm_matter_raw(s: Seq<char>) -> Seq<char> {
    s.subrange(line_break(s, 0) + 1, next_delim_line(s, line_break(s, 0) + 1).unwrap())
}

/// A whitespace character trimmed from the ends of the block text.
pub open spec fn trim_char(c: char) -> bool {
    c == ' ' || c == '\t' || c == '\r' || c == '\n'
}

/// The end of the leading run of trimmed characters from `j`.
pub open spec fn ws_run(s: Seq<char>, j: int) -> int
    decreases s.len() - j,
    when 0 <= j <= s.len()
{
    if j >= s.len() {
        j
    } else if trim_char(s[j]) {
        ws_run(s, j + 1)
    } else {
        j
    }
}

proof fn lemma_ws_run_eq(s: Seq<char>, j: int, e: int)
    requires
        0 <= j <= e <= s.len(),
        forall|k: int| j <= k < e ==> trim_char(s[k]),
        e < s.len() ==> !trim_char(s[e]),
    ensures
        ws_run(s, j) == e,
    decreases e - j,
{
    if j < e {
        lemma_ws_run_eq(s, j + 1, e);
    }
}

/// The index where the trailing run of trimmed characters begins.
pub open spec fn ws_end_run(s: Seq<char>) -> int
    decreases s.len(),
{
    if s.len() == 0 {
        0
    } else if trim_char(s.last()) {
        ws_end_run(s.drop_last())
    } else {
        s.len() as int
    }
}

proof fn lemma_ws_end_run_eq(s: Seq<char>, b: int)
    requires
        0 <= b <= s.len(),
        forall|k: int| b <= k < s.len() ==> trim_char(s[k]),
        b > 0 ==> !trim_char(s[b - 1]),
    ensures
        ws_end_run(s) == b,
    decreases s.len(),
{
    if s.len() > b {
        assert(trim_char(s.last()));
        lemma_ws_end_run_eq(s.drop_last(), b);
    } else if s.len() > 0 {
        assert(!trim_char(s.last()));
    }
}

/// `s` with leading and trailing whitespace removed.
pub open spec fn trimmed(s: Seq<char>) -> Seq<char> {
    let t = s.subrange(0, ws_end_run(s));
    t.skip(ws_run(t, 0))
}

/// The block's YAML text: the matter trimmed of surrounding whitespace.
pub open spec fn fm_matter(s: Seq<char>) -> Seq<char> {
    trimmed(fm_matter_raw(s))
}

/// A non-empty frontmatter block is present.
pub open spec fn fm_present(s: Seq<char>) -> bool {
    has_fm_block(s) && fm_matter(s).len() > 0
}

/// The body of the document: what follows the closing delimiter line when
/// a block is present, else the whole document unchanged.
pub open spec fn fm_body_of(s: Seq<char>) -> Seq<char> {
    if has_fm_block(s) {
        let c = next_delim_line(s, line_break(s, 0) + 1).unwrap();
        if line_break(s, c) >= s.len() {
            Seq::empty()
        } else {
            s.skip(line_break(s, c) + 1)
        }
    } else {
        s
    }
}

fn find_line_break(v: &Vec<char>, j: usize) -> (r: usize)
    requires
        j <= v@.len(),
    ensures
        r == line_break(v@, j as int),
        j <= r <= v@.len(),
{
    let n: usize = v.len();
    let mut e: usize = j;
    while e < n && v[e] != '\n'
        invariant
            j <= e <= n,
            n == v@.len(),
            forall|k: int| j <= k < e ==> v@[k] != '\n',
        decreases n - e,
    {
        e = e + 1;
    }
    proof {
        lemma_line_break_eq(v@, j as int, e as int);
    }
    e
}

fn check_delim_line(v: &Vec<char>, i: usize) -> (r: bool)
    requires
        i <= v@.len(),
    ensures
        r == delim_line_at(v@, i as int),
{
    let lb = find_line_break(v, i);
    if lb < 3 || i > lb - 3 {
        return false;
    }
    if v[i] != '-' || v[i + 1] != '-' || v[i + 2] != '-' {
        return false;
    }
    let mut k: usize = i + 3;
    while k < lb
        invariant
            i + 3 <= k <= lb,
            lb == line_break(v@, i as int),
            lb <= v@.len(),
            forall|m: int| i + 3 <= m < k ==> pad_char(v@[m]),
        decreases lb - k,
    {
        let c = v[k];
        if !(c == ' ' || c == '\t' || c == '\r') {
            return false;
        }
        k = k + 1;
    }
    true
}

fn find_next_delim(v: &Vec<char>, i: usize) -> (r: Option<usize>)
    requires
        i <= v@.len(),
    ensures
        match r {
            Option::Some(c) => next_delim_line(v@, i as int) == Some(c as int) && i <= c <= v@.len(),
            Option::None => next_delim_line(v@, i as int) is None,
        },
{
    let n: usize = v.len();
    let mut j: usize = i;
    loop
        invariant
            i <= j <= n,
            n == v@.len(),
            next_delim_line(v@, i as int) == next_delim_line(v@, j as int),
        decreases n - j,
    {
        if check_delim_line(v, j) {
            return Some(j);
        }
        let lb = find_line_break(v, j);
        if lb >= n {
            return None;
        }
        proof {
            assert(next_delim_line(v@, j as int) == next_delim_line(v@, lb + 1));
        }
        j = lb + 1;
    }
}

fn copy_range(v: &Vec<char>, from: usize, to: usize) -> (r: Vec<char>)
    requires
        from <= to <= v@.len(),
    ensures
        r@ == v@.subrange(from as int, to as int),
{
    let mut out: Vec<char> = Vec::new();
    let mut k: usize = from;
    while k < to
        invariant
            from <= k <= to <= v@.len(),
            out@ == v@.subrange(from as int, k as int),
        decreases to - k,
    {
        out.push(v[k]);
        k = k + 1;
        proof {
            assert(out@ =~= v@.subrange(from as int, k as int));
        }
    }
    out
}

fn is_trim_char(c: char) -> (r: bool)
    ensures
        r == trim_char(c),
{
    c == ' ' || c == '\t' || c == '\r' || c == '\n'
}

fn trim_chars(v: &Vec<char>) -> (r: Vec<char>)
    ensures
        r@ == trimmed(v@),
{
    let n: usize = v.len();
    let mut b: usize = n;
    while b > 0 && is_trim_char(v[b - 1])
        invariant
            b <= n,
            n == v@.len(),
            forall|k: int| b <= k < n ==> trim_char(v@[k]),
        decreases b,
    {
        b = b - 1;
    }
    proof {
        lemma_ws_end_run_eq(v@, b as int);
    }
    let mut a: usize = 0;
    while a < b && is_trim_char(v[a])
        invariant
            a <= b <= n,
            n == v@.len(),
            forall|k: int| 0 <= k < a ==> trim_char(v@[k]),
        decreases b - a,
    {
        a = a + 1;
    }
    let out = copy_range(v, a, b);
    proof {
        let t = v@.subrange(0, b as int);
        if a < b {
            assert(!trim_char(t[a as int]));
        }
        lemma_ws_run_eq(t, 0, a as int);
        assert(out@ =~= t.skip(a as int));
    }
    out
}

/// Splits a document at its frontmatter delimiters. When the first line is
/// a `---` delimiter and a later delimiter line closes the block, returns
/// the trimmed block text and what follows the closing line; otherwise the
/// whole document is the body. This never fails.
pub fn split_frontmatter(content: &str) -> (r: (bool, String, String))
    ensures
        r.0 == has_fm_block(content@),
        r.0 ==> r.1@ == fm_matter(content@),
        !r.0 ==> r.1@.len() == 0,
        r.2@ == fm_body_of(content@),
{
    let v = to_chars(content);
    let n: usize = v.len();
    let lb0 = find_line_break(&v, 0);
    let open = check_delim_line(&v, 0);
    if !open || lb0 >= n {
        let body = chars_to_string(&v);
        proof {
            assert(!has_fm_block(content@));
        }
        return (false, String::new(), body);
    }
    match find_next_delim(&v, lb0 + 1) {
        None => {
            let body = chars_to_string(&v);
            proof {
                assert(!has_fm_block(content@));
            }
            (false, String::new(), body)
        },
        Some(c) => {
            proof {
                assert(has_fm_block(content@));
                assert(c == next_delim_line(v@, line_break(v@, 0) + 1).unwrap());
            }
            let matter_raw = copy_range(&v, lb0 + 1, c);
            let matter = trim_chars(&matter_raw);
            let e = find_line_break(&v, c);
            let body_v = if e >= n {
                Vec::new()
            } else {
                copy_range(&v, e + 1, n)
            };
            proof {
                assert(matter_raw@ == fm_matter_raw(content@));
                if e >= n {
                    assert(body_v@ =~= fm_body_of(content@));
                } else {
                    assert(v@.subrange(e + 1, n as int) =~= v@.skip(e + 1));
                }
            }
            (true, chars_to_string(&matter), chars_to_string(&body_v))
        },
    }
}

#[verifier::external_type_specification]
#[verifier::external_body]
pub struct ExPod(gray_matter::Pod);

/// What the YAML decode of a block yields, each field a function of the
/// block text alone: whether the decode fails, and the six known fields.
pub uninterp spec fn fm_invalid(m: Seq<char>) -> bool;

/// The decoded `title` field of a block, if present.
pub uninterp spec fn fm_title(m: Seq<char>) -> Option<Seq<char>>;

/// The decoded `description` field of a block, if present.
pub uninterp spec fn fm_description(m: Seq<char>) -> Option<Seq<char>>;

/// The decoded `tags` field of a block, if present.
pub uninterp spec fn fm_tag_list(m: Seq<char>) -> Option<Seq<Seq<char>>>;

/// The decoded `created` field of a block, if present.
pub uninterp spec fn fm_created(m: Seq<char>) -> Option<Seq<char>>;

/// The decoded `modified` field of a block, if present.
pub uninterp spec fn fm_modified(m: Seq<char>) -> Option<Seq<char>>;

/// The decoded `link_url` field of a block, if present.
pub uninterp spec fn fm_link_url(m: Seq<char>) -> Option<Seq<char>>;

/// The decoded fields of a block, by the names above.
pub open spec fn fm_named_fields(m: Seq<char>) -> FmFields {
    FmFields {
        title: fm_title(m),
        description: fm_description(m),
        tags: fm_tag_list(m),
        created: fm_created(m),
        modified: fm_modified(m),
        link_url: fm_link_url(m),
    }
}

/// A frontmatter field read as an optional string.
pub enum StrField {
    /// The key is absent or null.
    Missing,
    /// The key holds a string.
    Val(String),
    /// The key holds a value of another shape, or the block is no mapping.
    Bad,
}

/// A frontmatter field read as an optional list of strings.
pub enum ListField {
    /// The key is absent or null.
    Missing,
    /// The key holds a list whose items are all strings.
    Val(Vec<String>),
    /// The key holds a value of another shape, or the block is no mapping.
    Bad,
}

/// Relies on the shape of `gray_matter::Pod`: a parsed YAML mapping is
/// `Pod::Hash`, a missing or null key decodes as an absent optional field,
/// a `Pod::String` value as a present one, and any other shape fails the
/// decode, as deserializing into `Option<String>` would.
#[verifier::external_body]
pub(crate) fn pod_string_field(data: &gray_matter::Pod, key: &str) -> (r: StrField) {
    match data {
        gray_matter::Pod::Hash(m) => match m.get(key) {
            None | Some(gray_matter::Pod::Null) => StrField::Missing,
            Some(gray_matter::Pod::String(s)) => StrField::Val(s.clone()),
            _ => StrField::Bad,
        },
        _ => StrField::Bad,
    }
}

/// Relies on the shape of `gray_matter::Pod`: a `Pod::Array` whose items
/// are all `Pod::String` decodes as a present list; a missing or null key
/// as an absent one; any other shape fails the decode, as deserializing
/// into `Option<Vec<String>>` would.
#[verifier::external_body]
pub(crate) fn pod_string_list_field(data: &gray_matter::Pod, key: &str) -> (r: ListField) {
    let items = match data {
        gray_matter::Pod::Hash(m) => match m.get(key) {
            None | Some(gray_matter::Pod::Null) => return ListField::Missing,
            Some(gray_matter::Pod::Array(v)) => v,
            _ => return ListField::Bad,
        },
        _ => return ListField::Bad,
    };
    let mut out: Vec<String> = Vec::new();
    for it in items {
        if let gray_matter::Pod::String(s) = it { out.push(s.clone()) } else { return ListField::Bad }
    }
    ListField::Val(out)
}

/// Decodes the six known fields out of a parsed frontmatter block; a field
/// present with the wrong shape fails the whole decode, and unknown fields
/// are ignored.
pub fn decode_frontmatter(data: &gray_matter::Pod) -> (r: Option<Frontmatter>) {
    let title = match pod_string_field(data, "title") {
        StrField::Missing => None,
        StrField::Val(s) => Some(s),
        StrField::Bad => {
            return None;
        },
    };
    let description = match pod_string_field(data, "description") {
        StrField::Missing => None,
        StrField::Val(s) => Some(s),
        StrField::Bad => {
            return None;
        },
    };
    let created = match pod_string_field(data, "created") {
        StrField::Missing => None,
        StrField::Val(s) => Some(s),
        StrField::Bad => {
            return None;
        },
    };
    let modified = match pod_string_field(data, "modified") {
        StrField::Missing => None,
        StrField::Val(s) => Some(s),
        StrField::Bad => {
            return None;
        },
    };
    let link_url = match pod_string_field(data, "link_url") {
        StrField::Missing => None,
        StrField::Val(s) => Some(s),
        StrField::Bad => {
            return None;
        },
    };
    let tags = match pod_string_list_field(data, "tags") {
        ListField::Missing => None,
        ListField::Val(v) => Some(v),
        ListField::Bad => {
            return None;
        },
    };
    Some(Frontmatter { title, description, tags, created, modified, link_url })
}

/// Relies on gray_matter's YAML engine (`Engine::parse` for `engine::YAML`)
/// and on the shape of `Pod`: both are functions of the block text alone,
/// so the decode outcome and every decoded field are named over that text;
/// `None` comes exactly when the text is not well-formed YAML or a known
/// field has the wrong shape.
#[verifier::external_body]
pub(crate) fn decode_matter(matter: &str) -> (r: Option<Frontmatter>)
    ensures
        (r is None) == fm_invalid(matter@),
        (r is Some) ==> opt_str_view(r.unwrap().title) == fm_title(matter@),
        (r is Some) ==> opt_str_view(r.unwrap().description) == fm_description(matter@),
        (r is Some) ==> opt_list_view(r.unwrap().tags) == fm_tag_list(matter@),
        (r is Some) ==> opt_str_view(r.unwrap().created) == fm_created(matter@),
        (r is Some) ==> opt_str_view(r.unwrap().modified) == fm_modified(matter@),
        (r is Some) ==> opt_str_view(r.unwrap().link_url) == fm_link_url(matter@),
{
    let pod = match <gray_matter::engine::YAML as gray_matter::engine::Engine>::parse(matter) {
        Ok(p) => p,
        Err(_) => return None,
    };
    decode_frontmatter(&pod)
}

} // verus!
