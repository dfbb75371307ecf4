//! Share-link generation: percent-encoding of the article's fields and
//! expansion of provider URL templates, replacing the placeholders `{URL}`,
//! `{TITLE}`, `{TEXT}` and `{TAGS}`.
use crate::text::{chars_to_string, to_chars};
use crate::ShareLink;
use vstd::prelude::*;

verus! {

/// What `urlencoding::encode` returns for a string: a pure function of the
/// characters alone.
pub uninterp spec fn percent_encoded(s: Seq<char>) -> Seq<char>;

/// Relies on `urlencoding::encode`: percent-encodes every byte of the UTF-8
/// form except ASCII alphanumerics and `-`, `_`, `.`, `~`; the result
/// depends on the input string alone, and an empty input stays empty.
#[verifier::external_body]
pub(crate) fn encode_component(s: &str) -> (r: String)
    ensures
        r@ == percent_encoded(s@),
        s@.len() == 0 ==> r@.len() == 0,
{
    urlencoding::encode(s).into_owned()
}

/// `s` with every non-overlapping occurrence of `pat` replaced by `rep`,
/// scanning left to right.
pub open spec fn replaced(s: Seq<char>, pat: Seq<char>, rep: Seq<char>) -> Seq<char>
    decreases s.len(),
{
    if pat.len() == 0 {
        s
    } else if s.len() < pat.len() {
        s
    } else if s.take(pat.len() as int) == pat {
        rep + replaced(s.skip(pat.len() as int), pat, rep)
    } else {
        seq![s[0]] + replaced(s.drop_first(), pat, rep)
    }
}

fn match_at(s: &Vec<char>, pat: &Vec<char>, i: usize) -> (r: bool)
    requires
        i <= s@.len(),
    ensures
        r == (i + pat@.len() <= s@.len() && s@.subrange(i as int, i + pat@.len()) == pat@),
{
    let n: usize = s.len();
    if n - i < pat.len() {
        return false;
    }
    let mut k: usize = 0;
    while k < pat.len()
        invariant
            k <= pat@.len(),
            n == s@.len(),
            i + pat@.len() <= n,
            forall|j: int| 0 <= j < k ==> s@[i + j] == pat@[j],
        decreases pat@.len() - k,
    {
        if s[i + k] != pat[k] {
            proof {
                assert(s@.subrange(i as int, i + pat@.len())[k as int] == s@[i + k]);
            }
            return false;
        }
        k = k + 1;
    }
    proof {
        assert(s@.subrange(i as int, i + pat@.len()) =~= pat@);
    }
    true
}

/// Replaces every non-overlapping occurrence of `pat` in `s` by `rep`,
/// scanning left to right, as `replaced`.
pub fn replace_chars(s: &Vec<char>, pat: &Vec<char>, rep: &Vec<char>) -> (r: Vec<char>)
    requires
        pat@.len() > 0,
    ensures
        r@ == replaced(s@, pat@, rep@),
{
    let mut out: Vec<char> = Vec::new();
    let mut i: usize = 0;
    proof {
        assert(s@.skip(0) =~= s@);
        assert(Seq::<char>::empty() + replaced(s@, pat@, rep@) =~= replaced(s@, pat@, rep@));
    }
    while i < s.len()
        invariant
            i <= s@.len(),
            pat@.len() > 0,
            replaced(s@, pat@, rep@) == out@ + replaced(s@.skip(i as int), pat@, rep@),
        decreases s@.len() - i,
    {
        let ghost out_prev = out@;
        let ghost tail = s@.skip(i as int);
        if match_at(s, pat, i) {
            let mut k: usize = 0;
            while k < rep.len()
                invariant
                    k <= rep@.len(),
                    out@ == out_prev + rep@.take(k as int),
                decreases rep@.len() - k,
            {
                out.push(rep[k]);
                k = k + 1;
                proof {
                    assert(out@ =~= out_prev + rep@.take(k as int));
                }
            }
            proof {
                assert(rep@.take(rep@.len() as int) =~= rep@);
                assert(tail.take(pat@.len() as int) =~= s@.subrange(i as int, i + pat@.len()));
                assert(replaced(tail, pat@, rep@) == rep@ + replaced(
                    tail.skip(pat@.len() as int),
                    pat@,
                    rep@,
                ));
                assert(tail.skip(pat@.len() as int) =~= s@.skip(i + pat@.len()));
                assert((out_prev + rep@) + replaced(s@.skip(i + pat@.len()), pat@, rep@)
                    =~= out_prev + (rep@ + replaced(s@.skip(i + pat@.len()), pat@, rep@)));
            }
            i = i + pat.len();
        } else {
            out.push(s[i]);
            proof {
                if tail.len() >= pat@.len() {
                    assert(tail.take(pat@.len() as int) =~= s@.subrange(i as int, i + pat@.len()));
                    assert(tail.take(pat@.len() as int) != pat@);
                }
                assert(tail[0] == s@[i as int]);
                assert(replaced(tail, pat@, rep@) == seq![tail[0]] + replaced(
                    tail.drop_first(),
                    pat@,
                    rep@,
                ));
                assert(tail.drop_first() =~= s@.skip(i + 1));
                assert((out_prev + seq![s@[i as int]]) + replaced(s@.skip(i + 1), pat@, rep@)
                    =~= out_prev + (seq![s@[i as int]] + replaced(s@.skip(i + 1), pat@, rep@)));
                assert(out@ =~= out_prev + seq![s@[i as int]]);
            }
            i = i + 1;
        }
    }
    proof {
        assert(s@.skip(s@.len() as int) =~= Seq::<char>::empty());
        assert(out@ + Seq::<char>::empty() =~= out@);
    }
    out
}

/// The `{URL}` placeholder.
pub open spec fn url_pat() -> Seq<char> {
    seq!['{', 'U', 'R', 'L', '}']
}

/// The `{TITLE}` placeholder.
pub open spec fn title_pat() -> Seq<char> {
    seq!['{', 'T', 'I', 'T', 'L', 'E', '}']
}

/// The `{TEXT}` placeholder.
pub open spec fn text_pat() -> Seq<char> {
    seq!['{', 'T', 'E', 'X', 'T', '}']
}

/// The `{TAGS}` placeholder.
pub open spec fn tags_pat() -> Seq<char> {
    seq!['{', 'T', 'A', 'G', 'S', '}']
}

fn url_pat_exec() -> (r: Vec<char>)
    ensures
        r@ == url_pat(),
{
    let mut v: Vec<char> = Vec::new();
    v.push('{');
    v.push('U');
    v.push('R');
    v.push('L');
    v.push('}');
    proof {
        assert(v@ =~= url_pat());
    }
    v
}

fn title_pat_exec() -> (r: Vec<char>)
    ensures
        r@ == title_pat(),
{
    let mut v: Vec<char> = Vec::new();
    v.push('{');
    v.push('T');
    v.push('I');
    v.push('T');
    v.push('L');
    v.push('E');
    v.push('}');
    proof {
        assert(v@ =~= title_pat());
    }
    v
}

fn text_pat_exec() -> (r: Vec<char>)
    ensures
        r@ == text_pat(),
{
    let mut v: Vec<char> = Vec::new();
    v.push('{');
    v.push('T');
    v.push('E');
    v.push('X');
    v.push('T');
    v.push('}');
    proof {
        assert(v@ =~= text_pat());
    }
    v
}

fn tags_pat_exec() -> (r: Vec<char>)
    ensures
        r@ == tags_pat(),
{
    let mut v: Vec<char> = Vec::new();
    v.push('{');
    v.push('T');
    v.push('A');
    v.push('G');
    v.push('S');
    v.push('}');
    proof {
        assert(v@ =~= tags_pat());
    }
    v
}

/// One tag as it appears in the share text: `#` followed by the tag with
/// internal spaces turned to underscores.
pub open spec fn tag_rendered(t: Seq<char>) -> Seq<char> {
    seq!['#'] + t.map_values(|c: char| if c == ' ' { '_' } else { c })
}

/// The space-joined rendering of a tag list.
pub open spec fn tags_line(tags: Seq<Seq<char>>) -> Seq<char>
    decreases tags.len(),
{
    if tags.len() == 0 {
        Seq::empty()
    } else if tags.len() == 1 {
        tag_rendered(tags[0])
    } else {
        tag_rendered(tags[0]) + seq![' '] + tags_line(tags.drop_first())
    }
}

proof fn lemma_tags_line_push(ts: Seq<Seq<char>>, t: Seq<char>)
    ensures
        tags_line(ts.push(t)) == if ts.len() == 0 {
            tag_rendered(t)
        } else {
            tags_line(ts) + seq![' '] + tags_line(seq![t])
        },
    decreases ts.len(),
{
    let p = ts.push(t);
    if ts.len() == 0 {
        assert(p.len() == 1);
        assert(p[0] == t);
    } else {
        assert(p[0] == ts[0]);
        assert(p.drop_first() =~= ts.drop_first().push(t));
        lemma_tags_line_push(ts.drop_first(), t);
        if ts.len() == 1 {
            assert(tags_line(p) == tag_rendered(ts[0]) + seq![' '] + tags_line(seq![t]));
            assert(tags_line(ts) == tag_rendered(ts[0]));
        } else {
            assert(tags_line(p) == tag_rendered(ts[0]) + seq![' '] + tags_line(
                ts.drop_first().push(t),
            ));
            assert((tag_rendered(ts[0]) + seq![' ']) + (tags_line(ts.drop_first()) + seq![' ']
                + tags_line(seq![t])) =~= (tag_rendered(ts[0]) + seq![' '] + tags_line(
                ts.drop_first(),
            )) + seq![' '] + tags_line(seq![t]));
        }
    }
}

/// Builds the space-joined `#tag` line for a tag list, as `tags_line`.
pub fn render_tags_line(tags: &[String]) -> (r: Vec<char>)
    ensures
        r@ == tags_line(tags@.map_values(|t: String| t@)),
{
    let ghost views = tags@.map_values(|t: String| t@);
    let mut out: Vec<char> = Vec::new();
    let mut i: usize = 0;
    while i < tags.len()
        invariant
            i <= tags@.len(),
            views == tags@.map_values(|t: String| t@),
            out@ == tags_line(views.take(i as int)),
        decreases tags@.len() - i,
    {
        let ghost out_prev = out@;
        if i > 0 {
            out.push(' ');
        }
        out.push('#');
        let tv = to_chars(tags[i].as_str());
        let mut k: usize = 0;
        let ghost mid = out@;
        while k < tv.len()
            invariant
                k <= tv@.len(),
                out@ == mid + tv@.take(k as int).map_values(
                    |c: char| if c == ' ' { '_' } else { c },
                ),
            decreases tv@.len() - k,
        {
            let c = tv[k];
            if c == ' ' {
                out.push('_');
            } else {
                out.push(c);
            }
            k = k + 1;
            proof {
                assert(out@ =~= mid + tv@.take(k as int).map_values(
                    |c: char| if c == ' ' { '_' } else { c },
                ));
            }
        }
        proof {
            assert(tv@.take(tv@.len() as int) =~= tv@);
            assert(tv@ == views[i as int]);
            lemma_tags_line_push(views.take(i as int), views[i as int]);
            assert(views.take(i as int).push(views[i as int]) =~= views.take(i + 1));
            assert(tags_line(seq![views[i as int]]) == tag_rendered(views[i as int]));
            if i == 0 {
                assert(out@ =~= seq!['#'] + tv@.map_values(
                    |c: char| if c == ' ' { '_' } else { c },
                ));
                assert(out@ =~= tags_line(views.take(i + 1)));
            } else {
                assert(out@ =~= out_prev + (seq![' '] + tag_rendered(views[i as int])));
                assert(tags_line(views.take(i + 1)) =~= tags_line(views.take(i as int)) + seq![' ']
                    + tag_rendered(views[i as int]));
            }
        }
        i = i + 1;
    }
    proof {
        assert(views.take(views.len() as int) =~= views);
    }
    out
}

/// The value of an optional URL: the string itself, or empty when absent.
pub open spec fn opt_url_view(u: Option<String>) -> Seq<char> {
    match u {
        Option::Some(s) => s@,
        Option::None => Seq::empty(),
    }
}

/// A provider template with all four placeholders substituted by the
/// percent-encoded field values, `{URL}` first, then `{TITLE}`, `{TEXT}`
/// and `{TAGS}`.
pub open spec fn expanded(
    template: Seq<char>,
    url_e: Seq<char>,
    title_e: Seq<char>,
    text_e: Seq<char>,
    tags_e: Seq<char>,
) -> Seq<char> {
    replaced(
        replaced(replaced(replaced(template, url_pat(), url_e), title_pat(), title_e), text_pat(), text_e),
        tags_pat(),
        tags_e,
    )
}

/// The URL of the share link for one provider template and one article's
/// fields: each placeholder replaced by the percent-encoded value; a tag is
/// rendered as `#tag` with internal spaces turned to underscores, and the
/// absent URL encodes as the empty string.
pub open spec fn share_url(
    template: Seq<char>,
    url: Option<String>,
    title: Seq<char>,
    text: Seq<char>,
    tags: Seq<Seq<char>>,
) -> Seq<char> {
    expanded(
        template,
        percent_encoded(opt_url_view(url)),
        percent_encoded(title),
        percent_encoded(text),
        percent_encoded(tags_line(tags)),
    )
}

/// Generates a list of social sharing links based on provider templates.
/// The output preserves provider order; a template without a placeholder
/// passes through unchanged aside from substitution.
pub fn generate_share_links(
    providers: &[(String, String)],
    url: &Option<String>,
    title: &str,
    text: &str,
    tags: &[String],
) -> (r: Vec<ShareLink>)
    ensures
        r@.len() == providers@.len(),
        forall|i: int|
            0 <= i < r@.len() ==> r@[i].provider_name@ == providers@[i].0@ && r@[i].url@
                == share_url(
                providers@[i].1@,
                *url,
                title@,
                text@,
                tags@.map_values(|t: String| t@),
            ),
{
    let url_e: String = match url {
        Some(u) => encode_component(u.as_str()),
        None => {
            let e = encode_component("");
            proof {
                reveal_strlit("");
                assert(""@ =~= Seq::<char>::empty());
            }
            e
        },
    };
    let title_e = encode_component(title);
    let text_e = encode_component(text);
    let line = render_tags_line(tags);
    let line_s = chars_to_string(&line);
    let tags_e = encode_component(line_s.as_str());

    let url_ev = to_chars(url_e.as_str());
    let title_ev = to_chars(title_e.as_str());
    let text_ev = to_chars(text_e.as_str());
    let tags_ev = to_chars(tags_e.as_str());

    let p_url = url_pat_exec();
    let p_title = title_pat_exec();
    let p_text = text_pat_exec();
    let p_tags = tags_pat_exec();

    let mut out: Vec<ShareLink> = Vec::new();
    let mut i: usize = 0;
    while i < providers.len()
        invariant
            i <= providers@.len(),
            out@.len() == i,
            url_ev@ == percent_encoded(opt_url_view(*url)),
            title_ev@ == percent_encoded(title@),
            text_ev@ == percent_encoded(text@),
            tags_ev@ == percent_encoded(tags_line(tags@.map_values(|t: String| t@))),
            p_url@ == url_pat(),
            p_title@ == title_pat(),
            p_text@ == text_pat(),
            p_tags@ == tags_pat(),
            forall|j: int|
                0 <= j < i ==> out@[j].provider_name@ == providers@[j].0@ && out@[j].url@
                    == share_url(
                    providers@[j].1@,
                    *url,
                    title@,
                    text@,
                    tags@.map_values(|t: String| t@),
                ),
        decreases providers@.len() - i,
    {
        let template = to_chars(providers[i].1.as_str());
        let s1 = replace_chars(&template, &p_url, &url_ev);
        let s2 = replace_chars(&s1, &p_title, &title_ev);
        let s3 = replace_chars(&s2, &p_text, &text_ev);
        let s4 = replace_chars(&s3, &p_tags, &tags_ev);
        let final_url = chars_to_string(&s4);
        let name = providers[i].0.clone();
        out.push(ShareLink { provider_name: name, url: final_url });
        i = i + 1;
    }
    out
}

} // verus!
