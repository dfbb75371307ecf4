//! The search-index projection of a collection: one entry per article, in
//! collection order, holding what the client-side search needs.
use crate::article::Article;
use vstd::prelude::*;

verus! {

/// One entry of the client-side search index.
pub struct SearchEntry {
    pub title: String,
    pub description: String,
    pub tags: Vec<String>,
    pub html_content: String,
    pub slug: String,
}

fn clone_strings(v: &Vec<String>) -> (r: Vec<String>)
    ensures
        r@ == v@,
{
    let mut out: Vec<String> = Vec::new();
    let mut i: usize = 0;
    while i < v.len()
        invariant
            i <= v@.len(),
            out@ == v@.take(i as int),
        decreases v@.len() - i,
    {
        out.push(v[i].clone());
        i = i + 1;
        proof {
            assert(out@ =~= v@.take(i as int));
        }
    }
    proof {
        assert(v@.take(v@.len() as int) =~= v@);
    }
    out
}

/// Projects a collection onto its search index: one entry per article,
/// fields taken verbatim, order kept.
pub fn build_search_index(articles: &Vec<Article>) -> (r: Vec<SearchEntry>)
    ensures
        r@.len() == articles@.len(),
        forall|i: int|
            0 <= i < r@.len() ==> r@[i].title == articles@[i].title && r@[i].description
                == articles@[i].description && r@[i].tags@ == articles@[i].tags@ && r@[i].html_content
                == articles@[i].html_content && r@[i].slug == articles@[i].slug,
{
    let mut out: Vec<SearchEntry> = Vec::new();
    let mut i: usize = 0;
    while i < articles.len()
        invariant
            i <= articles@.len(),
            out@.len() == i,
            forall|j: int|
                0 <= j < i ==> out@[j].title == articles@[j].title && out@[j].description
                    == articles@[j].description && out@[j].tags@ == articles@[j].tags@
                    && out@[j].html_content == articles@[j].html_content && out@[j].slug
                    == articles@[j].slug,
        decreases articles@.len() - i,
    {
        let a = &articles[i];
        out.push(
            SearchEntry {
                title: a.title.clone(),
                description: a.description.clone(),
                tags: clone_strings(&a.tags),
                html_content: a.html_content.clone(),
                slug: a.slug.clone(),
            },
        );
        i = i + 1;
    }
    out
}

} // verus!
