use vstd::prelude::*;
use crate::text::{
    chars_of, find_from, find_from_exec, first_token, first_token_exec, join, join_exec, slice_chars,
    string_of, trim, trim_exec, views,
};

verus! {

/// The designated cover image element of an issue page and the attributes the
/// cover address may come from.
pub struct CoverImage {
    /// The lazy-load attribute (`data-appsrc`).
    pub lazy_src: Option<String>,
    /// The responsive source set (`srcset`).
    pub srcset: Option<String>,
    /// The plain source (`src`).
    pub src: Option<String>,
}

/// What extraction reads from a parsed issue page, in document order.
pub struct IssuePage {
    /// The `href` of each table-of-contents anchor (`a.toc-item`), where it has one.
    pub toc_hrefs: Vec<Option<String>>,
    /// The text of the first `<title>` element.
    pub title: Option<String>,
    /// The text of each `<style>` element.
    pub styles: Vec<String>,
    /// The first `img` inside `div.article-issue-cover-image`.
    pub cover: Option<CoverImage>,
}

/// What extraction reads from a parsed article page, in document order.
pub struct ArticlePage {
    /// The text of the first `<title>` element.
    pub title: Option<String>,
    /// The inner HTML of each `div.reviewed-items` block.
    pub reviewed_items: Vec<String>,
    /// The inner HTML of each `div.article-copy` block.
    pub article_copy: Vec<String>,
}

/// Why an issue page could not be read.
#[derive(Debug, PartialEq, Eq, Structural, Clone, Copy)]
pub enum ExtractError {
    /// The page has no cover image element.
    MissingCover,
}

pub open spec fn site_origin() -> Seq<char> {
    "https://www.lrb.co.uk"@
}

pub open spec fn untitled() -> Seq<char> {
    "Untitled"@
}

pub open spec fn volume_marker() -> Seq<char> {
    seq!['V', 'o', 'l', '.']
}

/// The absolute article addresses: the site origin before each present `href`.
pub open spec fn absolute_links(hrefs: Seq<Option<String>>) -> Seq<Seq<char>>
    decreases hrefs.len(),
{
    if hrefs.len() == 0 {
        Seq::empty()
    } else {
        let rest = absolute_links(hrefs.drop_last());
        match hrefs.last() {
            Some(h) => rest.push(site_origin() + h@),
            None => rest,
        }
    }
}

/// The issue title from the page title: the text from the first `Vol.` on, trimmed;
/// the page title itself where it has no marker.
pub open spec fn issue_title(t: Seq<char>) -> Seq<char> {
    match find_from(t, 0, volume_marker()) {
        Some(i) => trim(t.subrange(i, t.len() as int)),
        None => t,
    }
}

/// The issue title, or `Untitled` for a page without a title.
pub open spec fn issue_title_of(t: Option<String>) -> Seq<char> {
    match t {
        Some(s) => issue_title(s@),
        None => untitled(),
    }
}

/// Each style text trimmed, the empty ones left out.
pub open spec fn kept_styles(styles: Seq<Seq<char>>) -> Seq<Seq<char>>
    decreases styles.len(),
{
    if styles.len() == 0 {
        Seq::empty()
    } else {
        let rest = kept_styles(styles.drop_last());
        let t = trim(styles.last());
        if t.len() == 0 {
            rest
        } else {
            rest.push(t)
        }
    }
}

/// The stylesheet: the kept style texts joined by newlines.
pub open spec fn stylesheet_of(styles: Seq<String>) -> Seq<char> {
    join(kept_styles(views(styles)), seq!['\n'])
}

/// The cover address: the lazy-load attribute, else the first token of the source
/// set, else the plain source, else empty.
pub open spec fn cover_uri(c: CoverImage) -> Seq<char> {
    match c.lazy_src {
        Some(l) => l@,
        None => match c.srcset {
            Some(s) => first_token(s@),
            None => match c.src {
                Some(s) => s@,
                None => Seq::empty(),
            },
        },
    }
}

/// The article title, or `Untitled` for a page without a title.
pub open spec fn article_title_of(t: Option<String>) -> Seq<char> {
    match t {
        Some(s) => s@,
        None => untitled(),
    }
}

/// The article body: the reviewed-items blocks joined by blank lines, directly
/// followed by the article-copy blocks joined the same way.
pub open spec fn article_body_of(page: ArticlePage) -> Seq<char> {
    join(views(page.reviewed_items@), seq!['\n', '\n']) + join(views(page.article_copy@), seq!['\n', '\n'])
}

/// The absolute article addresses, in page order.
pub fn article_links(hrefs: &Vec<Option<String>>) -> (r: Vec<String>)
    ensures
        views(r@) == absolute_links(hrefs@),
{
    let mut out: Vec<String> = Vec::new();
    let mut i: usize = 0;
    while i < hrefs.len()
        invariant
            i <= hrefs.len(),
            views(out@) == absolute_links(hrefs@.subrange(0, i as int)),
        decreases hrefs.len() - i,
    {
        assert(hrefs@.subrange(0, i + 1).drop_last() =~= hrefs@.subrange(0, i as int));
        match &hrefs[i] {
            Some(h) => {
                let link = String::from_str("https://www.lrb.co.uk").concat(h.as_str());
                let ghost before = views(out@);
                out.push(link);
                assert(views(out@) =~= before.push(link@));
            },
            None => {},
        }
        i = i + 1;
    }
    assert(hrefs@.subrange(0, hrefs.len() as int) =~= hrefs@);
    out
}

/// The issue title from the text of the page title.
pub fn issue_title_exec(t: &str) -> (r: String)
    ensures
        r@ == issue_title(t@),
{
    let v = chars_of(t);
    let marker = vec!['V', 'o', 'l', '.'];
    assert(marker@ == volume_marker());
    match find_from_exec(&v, 0, &marker) {
        Some(i) => {
            assert(i + 4 <= v.len()) by {
                lemma_find_from_bound(v@, 0, volume_marker());
            }
            let rest = string_of(&slice_chars(&v, i, v.len()));
            trim_exec(rest.as_str())
        },
        None => string_of(&v),
    }
}

proof fn lemma_find_from_bound(s: Seq<char>, from: nat, p: Seq<char>)
    ensures
        find_from(s, from, p) matches Some(i) ==> from <= i && i + p.len() <= s.len() && s.subrange(
            i,
            i + p.len(),
        ) == p,
    decreases s.len() - from,
{
    if from < s.len() && !crate::text::occurs_at(s, from as int, p) {
        lemma_find_from_bound(s, from + 1, p);
    }
}

/// The stylesheet of a page from the texts of its style elements.
pub fn stylesheet_exec(styles: &Vec<String>) -> (r: String)
    ensures
        r@ == stylesheet_of(styles@),
{
    let mut kept: Vec<String> = Vec::new();
    let mut i: usize = 0;
    while i < styles.len()
        invariant
            i <= styles.len(),
            views(kept@) == kept_styles(views(styles@).subrange(0, i as int)),
        decreases styles.len() - i,
    {
        assert(views(styles@).subrange(0, i + 1).drop_last() =~= views(styles@).subrange(0, i as int));
        let t = trim_exec(styles[i].as_str());
        if !t.as_str().is_empty() {
            let ghost before = views(kept@);
            kept.push(t);
            assert(views(kept@) =~= before.push(t@));
        }
        i = i + 1;
    }
    assert(views(styles@).subrange(0, styles.len() as int) =~= views(styles@));
    proof {
        reveal_strlit("\n");
    }
    assert("\n"@ =~= seq!['\n']);
    join_exec(&kept, "\n")
}

/// The cover address of the cover image element.
pub fn cover_uri_exec(c: &CoverImage) -> (r: String)
    ensures
        r@ == cover_uri(*c),
{
    match &c.lazy_src {
        Some(l) => l.clone(),
        None => match &c.srcset {
            Some(s) => first_token_exec(s.as_str()),
            None => match &c.src {
                Some(s) => s.clone(),
                None => String::new(),
            },
        },
    }
}

/// Reads an issue page: its article addresses, its title, its stylesheet and its
/// cover address. A page without a cover image element is refused.
pub fn extract_article_links(page: &IssuePage) -> (r: Result<(Vec<String>, String, String, String), ExtractError>)
    ensures
        page.cover is None <==> r == Err::<(Vec<String>, String, String, String), ExtractError>(
            ExtractError::MissingCover,
        ),
        r matches Ok((links, title, css, uri)) ==> {
            &&& views(links@) == absolute_links(page.toc_hrefs@)
            &&& title@ == issue_title_of(page.title)
            &&& css@ == stylesheet_of(page.styles@)
            &&& uri@ == cover_uri(page.cover.unwrap())
        },
{
    let uri = match &page.cover {
        Some(c) => cover_uri_exec(c),
        None => return Err(ExtractError::MissingCover),
    };
    let links = article_links(&page.toc_hrefs);
    let title = match &page.title {
        Some(t) => issue_title_exec(t.as_str()),
        None => String::from_str("Untitled"),
    };
    let css = stylesheet_exec(&page.styles);
    Ok((links, title, css, uri))
}

/// Reads an article page: its title and its body.
pub fn extract_article_content(page: &ArticlePage) -> (r: (String, String))
    ensures
        r.0@ == article_title_of(page.title),
        r.1@ == article_body_of(*page),
{
    let title = match &page.title {
        Some(t) => t.clone(),
        None => String::from_str("Untitled"),
    };
    proof {
        reveal_strlit("\n\n");
    }
    assert("\n\n"@ =~= seq!['\n', '\n']);
    let reviewed = join_exec(&page.reviewed_items, "\n\n");
    let body = join_exec(&page.article_copy, "\n\n");
    let complete = reviewed.concat(body.as_str());
    (title, complete)
}

} // verus!
