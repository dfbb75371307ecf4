//! Article assembly: the per-file parsing strategies and the precedence
//! chains that resolve title, description, dates, link and tags from
//! frontmatter, filename convention and filesystem metadata.
use crate::dates::{parse_date, parse_date_str, Date};
use crate::frontmatter::{
    decode_matter, fm_absent, fm_body_of, fm_fields_view, fm_invalid, fm_matter, fm_named_fields,
    fm_present, opt_str_view, split_frontmatter, FmFields, Frontmatter,
};
use crate::paths::{
    ext_of, extract_stem_metadata, fname_date, fname_title_src, split_path, stem_of, title_of,
};
use crate::resource::{html_resource_violation, validate_resource_urls};
use crate::scan::{body_tags, extract_body_tags, extract_first_url, first_url};
use crate::share::{generate_share_links, replace_chars, replaced, share_url};
use crate::tags::{normalize_tags, strictly_sorted, tag_set, views_of};
use crate::text::{chars_to_string, to_chars};
use crate::ShareLink;
use vstd::prelude::*;

verus! {

/// One source file, fully resolved and ready to render.
pub struct Article {
    pub title: String,
    pub description: String,
    pub tags: Vec<String>,
    pub created: Option<Date>,
    pub modified: Option<Date>,
    pub link_url: Option<String>,
    pub html_content: String,
    pub content: String,
    pub slug: String,
    pub share_links: Vec<ShareLink>,
}

/// Why a single file was rejected; a rejected file is skipped, never fatal.
#[derive(Debug)]
pub enum ParseError {
    /// The extension is neither `md` nor `txt`.
    UnsupportedFileType { path: String },
    /// The frontmatter block is malformed, or a field has the wrong shape.
    FrontmatterDecode { path: String },
    /// The rendered HTML holds a relative or invalid resource link.
    ResourceLink { path: String, value: String },
}

/// What the Markdown renderer produces for a body text, with strikethrough
/// enabled and no other extension: a pure function of the text alone.
pub uninterp spec fn markdown_html(s: Seq<char>) -> Seq<char>;

/// Relies on `pulldown_cmark::Parser::new_ext` and
/// `pulldown_cmark::html::push_html`, with the strikethrough extension
/// enabled and no other: the produced HTML is a function of the input text
/// alone.
#[verifier::external_body]
fn render_markdown(s: &str) -> (r: String)
    ensures
        r@ == markdown_html(s@),
{
    let mut options = pulldown_cmark::Options::empty();
    options.insert(pulldown_cmark::Options::ENABLE_STRIKETHROUGH);
    let parser = pulldown_cmark::Parser::new_ext(s, options);
    let mut out = String::new();
    pulldown_cmark::html::push_html(&mut out, parser);
    out
}

/// The HTML escape of one character in text position: `&`, `<` and `>`
/// become entities; every other character stands unchanged.
pub open spec fn esc_char(c: char) -> Seq<char> {
    if c == '&' {
        seq!['&', 'a', 'm', 'p', ';']
    } else if c == '<' {
        seq!['&', 'l', 't', ';']
    } else if c == '>' {
        seq!['&', 'g', 't', ';']
    } else {
        seq![c]
    }
}

/// The text with every HTML-special character escaped.
pub open spec fn html_escaped(s: Seq<char>) -> Seq<char>
    decreases s.len(),
{
    if s.len() == 0 {
        Seq::empty()
    } else {
        esc_char(s[0]) + html_escaped(s.drop_first())
    }
}

/// Relies on `html_escape::encode_text`: it escapes exactly `&` to `&amp;`,
/// `<` to `&lt;` and `>` to `&gt;`, leaving every other character unchanged.
#[verifier::external_body]
fn escape_html_text(s: &str) -> (r: String)
    ensures
        r@ == html_escaped(s@),
{
    html_escape::encode_text(s).into_owned()
}

/// The rendering of a plain-text article: the escaped content with
/// newlines turned to `<br>`, wrapped in a paragraph container. Plain text
/// is never treated as HTML.
pub open spec fn text_html(content: Seq<char>) -> Seq<char> {
    seq!['<', 'p', '>'] + replaced(html_escaped(content), seq!['\n'], seq!['<', 'b', 'r', '>'])
        + seq!['<', '/', 'p', '>']
}

fn append_chars(dst: &mut Vec<char>, src: &Vec<char>)
    ensures
        final(dst)@ == old(dst)@ + src@,
{
    let mut k: usize = 0;
    while k < src.len()
        invariant
            k <= src@.len(),
            dst@ == old(dst)@ + src@.take(k as int),
        decreases src@.len() - k,
    {
        dst.push(src[k]);
        k = k + 1;
        proof {
            assert(dst@ =~= old(dst)@ + src@.take(k as int));
        }
    }
    proof {
        assert(old(dst)@ + src@.take(src@.len() as int) =~= old(dst)@ + src@);
    }
}

fn build_text_html(content: &str) -> (r: String)
    ensures
        r@ == text_html(content@),
{
    let escaped = escape_html_text(content);
    let ev = to_chars(escaped.as_str());
    let mut pat: Vec<char> = Vec::new();
    pat.push('\n');
    let mut rep: Vec<char> = Vec::new();
    rep.push('<');
    rep.push('b');
    rep.push('r');
    rep.push('>');
    proof {
        assert(pat@ =~= seq!['\n']);
        assert(rep@ =~= seq!['<', 'b', 'r', '>']);
    }
    let mid = replace_chars(&ev, &pat, &rep);
    let mut out: Vec<char> = Vec::new();
    out.push('<');
    out.push('p');
    out.push('>');
    append_chars(&mut out, &mid);
    out.push('<');
    out.push('/');
    out.push('p');
    out.push('>');
    proof {
        assert(out@ =~= text_html(content@));
    }
    chars_to_string(&out)
}

/// An explicit value wins only when present and non-empty.
pub open spec fn resolve_text_field(explicit: Option<Seq<char>>, fallback: Seq<char>) -> Seq<
    char,
> {
    match explicit {
        Option::Some(t) => if t.len() > 0 {
            t
        } else {
            fallback
        },
        Option::None => fallback,
    }
}

/// An explicit value, or the empty string.
pub open spec fn or_empty(explicit: Option<Seq<char>>) -> Seq<char> {
    match explicit {
        Option::Some(t) => t,
        Option::None => Seq::empty(),
    }
}

/// A frontmatter date field read as a calendar date; a malformed value is
/// discarded, never an error.
pub open spec fn fm_date(s: Option<Seq<char>>) -> Option<Date> {
    match s {
        Option::Some(d) => parse_date(d),
        Option::None => None,
    }
}

/// The `created` precedence chain: frontmatter date, then filename date,
/// then filesystem creation time, then filesystem modification time.
pub open spec fn resolve_created(
    fm_created: Option<Seq<char>>,
    stem: Seq<char>,
    fs_created: Option<Date>,
    fs_modified: Date,
) -> Option<Date> {
    if fm_date(fm_created) is Some {
        fm_date(fm_created)
    } else if fname_date(stem) is Some {
        fname_date(stem)
    } else if fs_created is Some {
        fs_created
    } else {
        Some(fs_modified)
    }
}

/// The `modified` precedence chain: frontmatter date, then filesystem
/// modification time; always present.
pub open spec fn resolve_modified(fm_modified: Option<Seq<char>>, fs_modified: Date) -> Option<
    Date,
> {
    if fm_date(fm_modified) is Some {
        fm_date(fm_modified)
    } else {
        Some(fs_modified)
    }
}

/// The canonical-link precedence chain: a non-empty explicit link, else the
/// first absolute URL of the body.
pub open spec fn resolve_link(explicit: Option<Seq<char>>, body: Seq<char>) -> Option<Seq<char>> {
    match explicit {
        Option::Some(u) => if u.len() > 0 {
            Some(u)
        } else {
            first_url(body)
        },
        Option::None => first_url(body),
    }
}

/// The explicit tag list of a frontmatter record, or none.
pub open spec fn fm_tags_views(t: Option<Seq<Seq<char>>>) -> Seq<Seq<char>> {
    match t {
        Option::Some(v) => v,
        Option::None => Seq::empty(),
    }
}

/// The share links are one per provider, in provider order, each expanded
/// from the article's resolved fields.
pub open spec fn share_links_match(
    links: Seq<ShareLink>,
    providers: Seq<(String, String)>,
    url: Option<String>,
    title: Seq<char>,
    text: Seq<char>,
    tags: Seq<Seq<char>>,
) -> bool {
    &&& links.len() == providers.len()
    &&& forall|i: int|
        0 <= i < links.len() ==> links[i].provider_name@ == providers[i].0@ && links[i].url@
            == share_url(providers[i].1@, url, title, text, tags)
}

/// The contract of the plain-text strategy: every field of the article as a
/// function of the path, the raw content and the filesystem dates.
pub open spec fn is_text_article(
    a: Article,
    path: Seq<char>,
    content: Seq<char>,
    fs_created: Option<Date>,
    fs_modified: Date,
    providers: Seq<(String, String)>,
) -> bool {
    &&& a.title@ == title_of(fname_title_src(stem_of(path)))
    &&& a.description@ == Seq::<char>::empty()
    &&& strictly_sorted(views_of(a.tags@))
    &&& views_of(a.tags@).to_set() == tag_set(body_tags(content))
    &&& a.created == resolve_created(
        Option::<Seq<char>>::None,
        stem_of(path),
        fs_created,
        fs_modified,
    )
    &&& a.modified == Some(fs_modified)
    &&& opt_str_view(a.link_url) == first_url(content)
    &&& a.html_content@ == text_html(content)
    &&& a.content@ == content
    &&& a.slug@ == stem_of(path)
    &&& share_links_match(a.share_links@, providers, a.link_url, a.title@, content, views_of(a.tags@))
}

/// The contract of the Markdown strategy: every field of the article as a
/// function of the path, the decoded frontmatter, the body and the
/// filesystem dates.
pub open spec fn is_markdown_article(
    a: Article,
    path: Seq<char>,
    fm: FmFields,
    body: Seq<char>,
    fs_created: Option<Date>,
    fs_modified: Date,
    providers: Seq<(String, String)>,
) -> bool {
    &&& a.title@ == resolve_text_field(fm.title, title_of(fname_title_src(stem_of(path))))
    &&& a.description@ == or_empty(fm.description)
    &&& strictly_sorted(views_of(a.tags@))
    &&& views_of(a.tags@).to_set() == tag_set(fm_tags_views(fm.tags) + body_tags(body))
    &&& a.created == resolve_created(fm.created, stem_of(path), fs_created, fs_modified)
    &&& a.modified == resolve_modified(fm.modified, fs_modified)
    &&& opt_str_view(a.link_url) == resolve_link(fm.link_url, body)
    &&& a.html_content@ == markdown_html(body)
    &&& a.content@ == body
    &&& a.slug@ == stem_of(path)
    &&& share_links_match(a.share_links@, providers, a.link_url, a.title@, body, views_of(a.tags@))
}

/// Parses a plain text file into an `Article`. This strategy never fails:
/// the content is taken as raw text and escaped, never treated as HTML.
pub fn parse_text_file(
    path: &str,
    content: String,
    fs_created: Option<Date>,
    fs_modified: Date,
    share_providers: &[(String, String)],
) -> (a: Article)
    ensures
        is_text_article(a, path@, content@, fs_created, fs_modified, share_providers@),
{
    let (stem, _ext) = split_path(path);
    let (path_title, _path_date) = extract_stem_metadata(&stem);
    let html_content = build_text_html(content.as_str());
    let slug = chars_to_string(&stem);
    let link_url = extract_first_url(content.as_str());
    let raw_tags = extract_body_tags(content.as_str());
    let tags = normalize_tags(raw_tags);
    let share_links = generate_share_links(
        share_providers,
        &link_url,
        path_title.as_str(),
        content.as_str(),
        tags.as_slice(),
    );
    let created: Option<Date> = match extract_stem_metadata(&stem).1 {
        Some(d) => Some(d),
        None => match fs_created {
            Some(d) => Some(d),
            None => Some(fs_modified),
        },
    };
    Article {
        title: path_title,
        description: String::new(),
        tags,
        created,
        modified: Some(fs_modified),
        link_url,
        html_content,
        content,
        slug,
        share_links,
    }
}

/// Assembles a Markdown article from its already-decoded parts: applies
/// every precedence chain, renders the body, and validates the resource
/// links of the rendered HTML. It fails exactly when the rendered HTML
/// holds an offending resource link, and then reports the first one.
pub fn assemble_markdown_article(
    path: &str,
    fm: Frontmatter,
    body: String,
    fs_created: Option<Date>,
    fs_modified: Date,
    share_providers: &[(String, String)],
) -> (r: Result<Article, ParseError>)
    ensures
        match r {
            Result::Ok(a) => html_resource_violation(markdown_html(body@)) is None
                && is_markdown_article(
                a,
                path@,
                fm_fields_view(fm),
                body@,
                fs_created,
                fs_modified,
                share_providers@,
            ),
            Result::Err(e) => e matches ParseError::ResourceLink { path: p, value: v } && p@
                == path@ && html_resource_violation(markdown_html(body@)) == Some(v@),
        },
{
    let (stem, _ext) = split_path(path);
    let (path_title, _path_date) = extract_stem_metadata(&stem);
    let Frontmatter {
        title: fm_title,
        description: fm_description,
        tags: fm_tags,
        created: fm_created,
        modified: fm_modified,
        link_url: fm_link,
    } = fm;

    let title: String = match fm_title {
        Some(t) => {
            if t.as_str().is_empty() {
                path_title
            } else {
                t
            }
        },
        None => path_title,
    };
    let description: String = match fm_description {
        Some(d) => d,
        None => String::new(),
    };
    let created: Option<Date> = {
        let from_fm: Option<Date> = match &fm_created {
            Some(s) => parse_date_str(s.as_str()),
            None => None,
        };
        match from_fm {
            Some(d) => Some(d),
            None => match extract_stem_metadata(&stem).1 {
                Some(d) => Some(d),
                None => match fs_created {
                    Some(d) => Some(d),
                    None => Some(fs_modified),
                },
            },
        }
    };
    let modified: Option<Date> = match &fm_modified {
        Some(s) => match parse_date_str(s.as_str()) {
            Some(d) => Some(d),
            None => Some(fs_modified),
        },
        None => Some(fs_modified),
    };
    let link_url: Option<String> = match fm_link {
        Some(u) => {
            if u.as_str().is_empty() {
                extract_first_url(body.as_str())
            } else {
                Some(u)
            }
        },
        None => extract_first_url(body.as_str()),
    };
    let mut all_tags: Vec<String> = match fm_tags {
        Some(v) => v,
        None => Vec::new(),
    };
    let mut bt = extract_body_tags(body.as_str());
    all_tags.append(&mut bt);
    proof {
        assert(views_of(all_tags@) =~= fm_tags_views(fm_fields_view(fm).tags) + body_tags(body@));
    }
    let tags = normalize_tags(all_tags);
    let html_content = render_markdown(body.as_str());
    match validate_resource_urls(html_content.as_str(), path) {
        Err(e) => Err(ParseError::ResourceLink { path: e.file, value: e.value }),
        Ok(_) => {
            let slug = chars_to_string(&stem);
            let share_links = generate_share_links(
                share_providers,
                &link_url,
                title.as_str(),
                body.as_str(),
                tags.as_slice(),
            );
            Ok(
                Article {
                    title,
                    description,
                    tags,
                    created,
                    modified,
                    link_url,
                    html_content,
                    content: body,
                    slug,
                    share_links,
                },
            )
        },
    }
}

/// The frontmatter record of a whole document: the named fields of its
/// trimmed block when a non-empty block is present, else every field
/// absent — absence of frontmatter is not an error condition.
pub open spec fn doc_fm(content: Seq<char>) -> FmFields {
    if fm_present(content) {
        fm_named_fields(fm_matter(content))
    } else {
        fm_absent()
    }
}

/// A document fails to decode exactly when a non-empty block is present
/// and its text does not decode.
pub open spec fn doc_fm_invalid(content: Seq<char>) -> bool {
    fm_present(content) && fm_invalid(fm_matter(content))
}

/// Law: a document without a frontmatter block can never fail the
/// frontmatter decode, and its whole text is the body.
pub proof fn lemma_no_block_never_fails(content: Seq<char>)
    requires
        !crate::frontmatter::has_fm_block(content),
    ensures
        !doc_fm_invalid(content),
        fm_body_of(content) == content,
{
}

/// The whole outcome of parsing a Markdown document: success is owed
/// exactly when the document decodes and its rendered body carries no
/// offending resource link, and each error comes on exactly its inputs.
pub open spec fn markdown_parse_result(
    r: Result<Article, ParseError>,
    path: Seq<char>,
    content: Seq<char>,
    fs_created: Option<Date>,
    fs_modified: Date,
    providers: Seq<(String, String)>,
) -> bool {
    match r {
        Result::Ok(a) => {
            &&& !doc_fm_invalid(content)
            &&& html_resource_violation(markdown_html(fm_body_of(content))) is None
            &&& is_markdown_article(
                a,
                path,
                doc_fm(content),
                fm_body_of(content),
                fs_created,
                fs_modified,
                providers,
            )
        },
        Result::Err(e) => match e {
            ParseError::FrontmatterDecode { path: p } => p@ == path && doc_fm_invalid(content),
            ParseError::ResourceLink { path: p, value: v } => p@ == path && !doc_fm_invalid(
                content,
            ) && html_resource_violation(markdown_html(fm_body_of(content))) == Some(v@),
            ParseError::UnsupportedFileType { .. } => false,
        },
    }
}

/// Parses a Markdown file with optional YAML frontmatter into an
/// `Article`. A missing frontmatter block is no error: the whole document
/// is then the body. A malformed block, or a field of the wrong shape,
/// rejects the file, as does an offending resource link in the rendered
/// body; nothing else does.
pub fn parse_markdown_file(
    path: &str,
    content: String,
    fs_created: Option<Date>,
    fs_modified: Date,
    share_providers: &[(String, String)],
) -> (r: Result<Article, ParseError>)
    ensures
        markdown_parse_result(r, path@, content@, fs_created, fs_modified, share_providers@),
{
    let (has_block, matter, body) = split_frontmatter(content.as_str());
    let fm: Frontmatter = if has_block && !matter.as_str().is_empty() {
        match decode_matter(matter.as_str()) {
            Some(f) => f,
            None => {
                proof {
                    assert(doc_fm_invalid(content@));
                }
                return Err(ParseError::FrontmatterDecode { path: path.to_owned() });
            },
        }
    } else {
        Frontmatter::empty()
    };
    proof {
        assert(!doc_fm_invalid(content@));
        assert(fm_fields_view(fm) == doc_fm(content@));
    }
    assemble_markdown_article(path, fm, body, fs_created, fs_modified, share_providers)
}

/// Parses a file into an `Article`, dispatching on its extension: `md` and
/// `txt` have strategies, every other extension is rejected.
pub fn parse_file(
    path: &str,
    content: String,
    fs_created: Option<Date>,
    fs_modified: Date,
    share_providers: &[(String, String)],
) -> (r: Result<Article, ParseError>)
    ensures
        ext_of(path@) == seq!['t', 'x', 't'] ==> (r matches Result::Ok(a) && is_text_article(
            a,
            path@,
            content@,
            fs_created,
            fs_modified,
            share_providers@,
        )),
        ext_of(path@) != seq!['t', 'x', 't'] && ext_of(path@) != seq!['m', 'd'] ==> (r
            matches Result::Err(ParseError::UnsupportedFileType { path: p }) && p@ == path@),
        ext_of(path@) == seq!['m', 'd'] ==> markdown_parse_result(
            r,
            path@,
            content@,
            fs_created,
            fs_modified,
            share_providers@,
        ),
{
    let (_stem, ext) = split_path(path);
    if ext.len() == 2 && ext[0] == 'm' && ext[1] == 'd' {
        proof {
            assert(ext@ =~= seq!['m', 'd']);
        }
        parse_markdown_file(path, content, fs_created, fs_modified, share_providers)
    } else if ext.len() == 3 && ext[0] == 't' && ext[1] == 'x' && ext[2] == 't' {
        proof {
            assert(ext@ =~= seq!['t', 'x', 't']);
        }
        Ok(parse_text_file(path, content, fs_created, fs_modified, share_providers))
    } else {
        proof {
            if ext@ == seq!['m', 'd'] {
                assert(ext@.len() == 2 && ext@[0] == 'm' && ext@[1] == 'd');
            }
            if ext@ == seq!['t', 'x', 't'] {
                assert(ext@.len() == 3 && ext@[0] == 't' && ext@[1] == 'x' && ext@[2] == 't');
            }
        }
        Err(ParseError::UnsupportedFileType { path: path.to_owned() })
    }
}

} // verus!
