use vstd::prelude::*;
use crate::extract::{ArticlePage, CoverImage, IssuePage};

verus! {

/// What scraper selects from a document: for each element that `css` matches, in
/// document order, the value of its attribute `attr`; nothing where `css` is no
/// selector.
pub uninterp spec fn selected_attrs(html: Seq<char>, css: Seq<char>, attr: Seq<char>) -> Option<Seq<Option<Seq<char>>>>;

/// What scraper selects from a document: the text of each element that `css`
/// matches, in document order; nothing where `css` is no selector.
pub uninterp spec fn selected_texts(html: Seq<char>, css: Seq<char>) -> Option<Seq<Seq<char>>>;

/// What scraper selects from a document: the inner HTML of each element that `css`
/// matches, in document order; nothing where `css` is no selector.
pub uninterp spec fn selected_inner_html(html: Seq<char>, css: Seq<char>) -> Option<Seq<Seq<char>>>;

pub open spec fn attr_views(v: Seq<Option<String>>) -> Seq<Option<Seq<char>>> {
    v.map_values(|o: Option<String>| match o {
        Some(s) => Some(s@),
        None => None,
    })
}

pub open spec fn string_views(v: Seq<String>) -> Seq<Seq<char>> {
    v.map_values(|s: String| s@)
}

/// The matches, or none where the selector did not parse.
pub open spec fn found<T>(o: Option<Seq<T>>) -> Seq<T> {
    match o {
        Some(s) => s,
        None => Seq::empty(),
    }
}

/// The first match, where there is one.
pub open spec fn first_found<T>(o: Option<Seq<T>>) -> Option<T> {
    if found(o).len() > 0 {
        Some(found(o)[0])
    } else {
        None
    }
}

pub open spec fn first_attr(html: Seq<char>, css: Seq<char>, attr: Seq<char>) -> Option<Seq<char>> {
    match first_found(selected_attrs(html, css, attr)) {
        Some(a) => a,
        None => None,
    }
}

/// Relies on scraper::Html::parse_document, Selector::parse, Html::select and
/// ElementRef::attr: the outcome depends on its arguments alone.
#[verifier::external_body]
fn select_attrs(html: &str, css: &str, attr: &str) -> (r: Option<Vec<Option<String>>>)
    ensures
        r matches Some(v) ==> selected_attrs(html@, css@, attr@) == Some(attr_views(v@)),
        r is None ==> selected_attrs(html@, css@, attr@) is None,
{
    let doc = scraper::Html::parse_document(html);
    let sel = scraper::Selector::parse(css).ok()?;
    Some(doc.select(&sel).map(|el| el.attr(attr).map(str::to_string)).collect())
}

/// Relies on scraper::Html::parse_document, Selector::parse, Html::select and
/// ElementRef::text: the outcome depends on its arguments alone.
#[verifier::external_body]
fn select_texts(html: &str, css: &str) -> (r: Option<Vec<String>>)
    ensures
        r matches Some(v) ==> selected_texts(html@, css@) == Some(string_views(v@)),
        r is None ==> selected_texts(html@, css@) is None,
{
    let doc = scraper::Html::parse_document(html);
    let sel = scraper::Selector::parse(css).ok()?;
    Some(doc.select(&sel).map(|el| el.text().collect::<String>()).collect())
}

/// Relies on scraper::Html::parse_document, Selector::parse, Html::select and
/// ElementRef::inner_html: the outcome depends on its arguments alone.
#[verifier::external_body]
fn select_inner_html(html: &str, css: &str) -> (r: Option<Vec<String>>)
    ensures
        r matches Some(v) ==> selected_inner_html(html@, css@) == Some(string_views(v@)),
        r is None ==> selected_inner_html(html@, css@) is None,
{
    let doc = scraper::Html::parse_document(html);
    let sel = scraper::Selector::parse(css).ok()?;
    Some(doc.select(&sel).map(|el| el.inner_html()).collect())
}

fn first_text(html: &str) -> (r: Option<String>)
    ensures
        match r {
            Some(t) => first_found(selected_texts(html@, "title"@)) == Some(t@),
            None => first_found(selected_texts(html@, "title"@)) is None,
        },
{
    match select_texts(html, "title") {
        Some(v) => {
            if v.len() > 0 {
                Some(v[0].clone())
            } else {
                None
            }
        },
        None => None,
    }
}

fn first_attr_exec(html: &str, css: &str, attr: &str) -> (r: Option<String>)
    ensures
        match r {
            Some(a) => first_attr(html@, css@, attr@) == Some(a@),
            None => first_attr(html@, css@, attr@) is None,
        },
{
    match select_attrs(html, css, attr) {
        Some(v) => {
            if v.len() > 0 {
                match &v[0] {
                    Some(a) => Some(a.clone()),
                    None => None,
                }
            } else {
                None
            }
        },
        None => None,
    }
}

pub open spec fn opt_view(o: Option<String>) -> Option<Seq<char>> {
    match o {
        Some(s) => Some(s@),
        None => None,
    }
}

pub open spec fn cover_selector() -> Seq<char> {
    "div.article-issue-cover-image img"@
}

fn texts_or_empty(html: &str, css: &str) -> (r: Vec<String>)
    ensures
        string_views(r@) == found(selected_texts(html@, css@)),
{
    match select_texts(html, css) {
        Some(v) => v,
        None => {
            let v: Vec<String> = Vec::new();
            assert(string_views(v@) =~= Seq::<Seq<char>>::empty());
            v
        },
    }
}

fn inner_html_or_empty(html: &str, css: &str) -> (r: Vec<String>)
    ensures
        string_views(r@) == found(selected_inner_html(html@, css@)),
{
    match select_inner_html(html, css) {
        Some(v) => v,
        None => {
            let v: Vec<String> = Vec::new();
            assert(string_views(v@) =~= Seq::<Seq<char>>::empty());
            v
        },
    }
}

/// Reads an issue page: the `href` of each `a.toc-item`, the text of the first
/// `title`, the text of each `style`, and the `data-appsrc`, `srcset` and `src` of
/// the first `div.article-issue-cover-image img`, where there is one.
pub fn scan_issue_page(html: &str) -> (p: IssuePage)
    ensures
        attr_views(p.toc_hrefs@) == found(selected_attrs(html@, "a.toc-item"@, "href"@)),
        opt_view(p.title) == first_found(selected_texts(html@, "title"@)),
        string_views(p.styles@) == found(selected_texts(html@, "style"@)),
        p.cover is Some <==> found(selected_attrs(html@, cover_selector(), "src"@)).len() > 0,
        p.cover matches Some(c) ==> {
            &&& opt_view(c.lazy_src) == first_attr(html@, cover_selector(), "data-appsrc"@)
            &&& opt_view(c.srcset) == first_attr(html@, cover_selector(), "srcset"@)
            &&& opt_view(c.src) == first_attr(html@, cover_selector(), "src"@)
        },
{
    let toc_hrefs = match select_attrs(html, "a.toc-item", "href") {
        Some(v) => v,
        None => {
            let v: Vec<Option<String>> = Vec::new();
            assert(attr_views(v@) =~= Seq::<Option<Seq<char>>>::empty());
            v
        },
    };
    let title = first_text(html);
    let styles = texts_or_empty(html, "style");
    let covers = match select_attrs(html, "div.article-issue-cover-image img", "src") {
        Some(v) => v.len(),
        None => 0,
    };
    let cover = if covers > 0 {
        Some(
            CoverImage {
                lazy_src: first_attr_exec(html, "div.article-issue-cover-image img", "data-appsrc"),
                srcset: first_attr_exec(html, "div.article-issue-cover-image img", "srcset"),
                src: first_attr_exec(html, "div.article-issue-cover-image img", "src"),
            },
        )
    } else {
        None
    };
    IssuePage { toc_hrefs, title, styles, cover }
}

/// Reads an article page: the text of the first `title`, and the inner HTML of each
/// `div.reviewed-items` and of each `div.article-copy`.
pub fn scan_article_page(html: &str) -> (p: ArticlePage)
    ensures
        opt_view(p.title) == first_found(selected_texts(html@, "title"@)),
        string_views(p.reviewed_items@) == found(selected_inner_html(html@, "div.reviewed-items"@)),
        string_views(p.article_copy@) == found(selected_inner_html(html@, "div.article-copy"@)),
{
    ArticlePage {
        title: first_text(html),
        reviewed_items: inner_html_or_empty(html, "div.reviewed-items"),
        article_copy: inner_html_or_empty(html, "div.article-copy"),
    }
}

} // verus!
