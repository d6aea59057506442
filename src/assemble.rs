use vstd::prelude::*;
use crate::sanitize::{sanitize_html_for_epub, sanitized};
use crate::text::{chars_of, decimal, decimal_exec, lemma_decimal_injective, occurs_at, occurs_at_exec, string_of};

verus! {

/// The role a resource plays in the container's guide.
#[derive(Debug, PartialEq, Eq, Structural, Clone, Copy)]
pub enum ResourceKind {
    Cover,
    Toc,
    Text,
}

/// One page of the container.
pub struct Resource {
    pub filename: String,
    pub title: String,
    pub xhtml: String,
    pub kind: ResourceKind,
}

/// Everything a container is written from. `resources` is the spine: title page,
/// table of contents, then one page per article in input order.
pub struct Container {
    pub title: String,
    pub author: String,
    pub stylesheet: String,
    /// Where to fetch the cover image from, when there is to be one.
    pub cover_uri: Option<String>,
    pub resources: Vec<Resource>,
}

pub open spec fn author() -> Seq<char> {
    "London Review of Books"@
}

/// The file name of the article at position `i`.
pub open spec fn article_filename(i: nat) -> Seq<char> {
    "article"@ + decimal(i) + ".xhtml"@
}

/// Whether an address is one a cover can be fetched from: it has an HTTP(S) scheme.
pub open spec fn fetchable(uri: Seq<char>) -> bool {
    occurs_at(uri, 0, seq!['h', 't', 't', 'p', ':', '/', '/']) || occurs_at(uri, 0, seq!['h', 't', 't', 'p', 's', ':', '/', '/'])
}

pub open spec fn title_page(title: Seq<char>) -> Seq<char> {
    "<?xml version=\"1.0\" encoding=\"utf-8\"?>\n<!DOCTYPE html>\n<html xmlns=\"http://www.w3.org/1999/xhtml\">\n  <head><title>"@
        + title + "</title></head>\n  <body style=\"text-align: center; margin-top: 40%;\">\n    <h1>"@
        + title + "</h1>\n    <h3>London Review of Books</h3>\n  </body>\n</html>"@
}

/// The table-of-contents entry of the article at position `i`.
pub open spec fn toc_item(i: nat, title: Seq<char>) -> Seq<char> {
    "<li><a href=\""@ + article_filename(i) + "\">"@ + title + "</a></li>"@
}

/// The entries of the articles at positions `lo` up to `hi`, in order.
pub open spec fn toc_range(titles: Seq<Seq<char>>, lo: int, hi: int) -> Seq<char>
    decreases hi - lo,
{
    if hi <= lo {
        Seq::empty()
    } else {
        toc_range(titles, lo, hi - 1) + toc_item((hi - 1) as nat, titles[hi - 1])
    }
}

pub open spec fn toc_page(items: Seq<char>) -> Seq<char> {
    "<?xml version=\"1.0\" encoding=\"utf-8\"?>\n<!DOCTYPE html>\n<html xmlns=\"http://www.w3.org/1999/xhtml\">\n  <head><title>Table of Contents</title></head>\n  <body>\n    <h2>Table of Contents</h2>\n    <ol>\n      "@
        + items + "\n    </ol>\n  </body>\n</html>"@
}

pub open spec fn article_page(title: Seq<char>, body: Seq<char>) -> Seq<char> {
    "<?xml version=\"1.0\" encoding=\"utf-8\"?>\n<!DOCTYPE html>\n<html xmlns=\"http://www.w3.org/1999/xhtml\">\n  <head>\n    <title>"@
        + title
        + "</title>\n    <style>\n      body {\n        font-family: serif;\n        margin: 2em;\n      }\n      h1.article-title {\n        font-size: 2em;\n        text-align: center;\n        margin-top: 1em;\n        margin-bottom: 1.5em;\n      }\n    </style>\n  </head>\n  <body>\n    <h1 class=\"article-title\">"@
        + title + "</h1>\n    "@ + body + "\n  </body>\n</html>"@
}

/// The titles of the articles, in order.
pub open spec fn titles(articles: Seq<(String, String)>) -> Seq<Seq<char>> {
    articles.map_values(|a: (String, String)| a.0@)
}

/// The spine pages of the resources, in order: file name and title.
pub open spec fn pages_of(resources: Seq<Resource>) -> Seq<(Seq<char>, Seq<char>)> {
    resources.map_values(|r: Resource| (r.filename@, r.title@))
}

/// The spine of an issue with articles titled `titles`: title page, contents, then
/// `article{i}.xhtml` under the title of article `i`, in input order.
pub open spec fn spine_pages(titles: Seq<Seq<char>>) -> Seq<(Seq<char>, Seq<char>)> {
    seq![("title.xhtml"@, "Title Page"@), ("toc.xhtml"@, "Table of Contents"@)] + Seq::new(
        titles.len(),
        |i: int| (article_filename(i as nat), titles[i]),
    )
}

/// Resource `r` is the page of the article at position `i` with title `t` and body `b`.
pub open spec fn is_article_resource(r: Resource, i: nat, t: Seq<char>, b: Seq<char>) -> bool {
    &&& r.filename@ == article_filename(i)
    &&& r.title@ == t
    &&& r.xhtml@ == article_page(t, sanitized(b))
    &&& r.kind == ResourceKind::Text
}

/// The file name of the article at position `i`.
pub fn article_filename_exec(i: usize) -> (r: String)
    ensures
        r@ == article_filename(i as nat),
{
    let digits = string_of(&decimal_exec(i));
    String::from_str("article").concat(digits.as_str()).concat(".xhtml")
}

/// The address to fetch the cover from: the given one, where it has an HTTP(S) scheme.
pub fn cover_source(image_uri: &str) -> (r: Option<String>)
    ensures
        r is Some <==> fetchable(image_uri@),
        r matches Some(u) ==> u@ == image_uri@,
{
    let v = chars_of(image_uri);
    let http = vec!['h', 't', 't', 'p', ':', '/', '/'];
    let https = vec!['h', 't', 't', 'p', 's', ':', '/', '/'];
    if occurs_at_exec(&v, 0, &http) || occurs_at_exec(&v, 0, &https) {
        Some(string_of(&v))
    } else {
        None
    }
}

/// The title page of the container.
pub fn title_page_exec(title: &str) -> (r: String)
    ensures
        r@ == title_page(title@),
{
    String::from_str("<?xml version=\"1.0\" encoding=\"utf-8\"?>\n<!DOCTYPE html>\n<html xmlns=\"http://www.w3.org/1999/xhtml\">\n  <head><title>")
        .concat(title)
        .concat("</title></head>\n  <body style=\"text-align: center; margin-top: 40%;\">\n    <h1>")
        .concat(title)
        .concat("</h1>\n    <h3>London Review of Books</h3>\n  </body>\n</html>")
}

/// The table-of-contents page, one entry per article in input order.
pub fn toc_page_exec(articles: &Vec<(String, String)>) -> (r: String)
    ensures
        r@ == toc_page(toc_range(titles(articles@), 0, articles@.len() as int)),
{
    let mut items = String::new();
    let mut i: usize = 0;
    while i < articles.len()
        invariant
            i <= articles.len(),
            items@ == toc_range(titles(articles@), 0, i as int),
        decreases articles.len() - i,
    {
        let name = article_filename_exec(i);
        let entry = String::from_str("<li><a href=\"").concat(name.as_str()).concat("\">").concat(
            articles[i].0.as_str(),
        ).concat("</a></li>");
        items.append(entry.as_str());
        i = i + 1;
    }
    String::from_str("<?xml version=\"1.0\" encoding=\"utf-8\"?>\n<!DOCTYPE html>\n<html xmlns=\"http://www.w3.org/1999/xhtml\">\n  <head><title>Table of Contents</title></head>\n  <body>\n    <h2>Table of Contents</h2>\n    <ol>\n      ")
        .concat(items.as_str())
        .concat("\n    </ol>\n  </body>\n</html>")
}

/// The page of one article, around its already sanitized body.
pub fn article_page_exec(title: &str, body: &str) -> (r: String)
    ensures
        r@ == article_page(title@, body@),
{
    String::from_str("<?xml version=\"1.0\" encoding=\"utf-8\"?>\n<!DOCTYPE html>\n<html xmlns=\"http://www.w3.org/1999/xhtml\">\n  <head>\n    <title>")
        .concat(title)
        .concat("</title>\n    <style>\n      body {\n        font-family: serif;\n        margin: 2em;\n      }\n      h1.article-title {\n        font-size: 2em;\n        text-align: center;\n        margin-top: 1em;\n        margin-bottom: 1.5em;\n      }\n    </style>\n  </head>\n  <body>\n    <h1 class=\"article-title\">")
        .concat(title)
        .concat("</h1>\n    ")
        .concat(body)
        .concat("\n  </body>\n</html>")
}

/// The name of the file an issue's container is written to.
pub fn epub_file_name(title: &str) -> (r: String)
    ensures
        r@ == title@ + ".epub"@,
{
    String::from_str(title).concat(".epub")
}

/// Assembles the container of an issue: its metadata, the cover address where one
/// can be fetched, and the spine of title page, table of contents and one page per
/// article, in the order the articles were given.
pub fn build_epub(title: &str, articles: Vec<(String, String)>, css_sheet: &str, image_uri: &str) -> (c: Container)
    requires
        articles.len() + 2 <= usize::MAX,
    ensures
        c.title@ == title@,
        c.author@ == author(),
        c.stylesheet@ == css_sheet@,
        c.cover_uri is Some <==> fetchable(image_uri@),
        c.cover_uri matches Some(u) ==> u@ == image_uri@,
        c.resources.len() == articles.len() + 2,
        pages_of(c.resources@) == spine_pages(titles(articles@)),
        c.resources[0].filename@ == "title.xhtml"@,
        c.resources[0].title@ == "Title Page"@,
        c.resources[0].xhtml@ == title_page(title@),
        c.resources[0].kind == ResourceKind::Cover,
        c.resources[1].filename@ == "toc.xhtml"@,
        c.resources[1].title@ == "Table of Contents"@,
        c.resources[1].xhtml@ == toc_page(toc_range(titles(articles@), 0, articles.len() as int)),
        c.resources[1].kind == ResourceKind::Toc,
        forall|i: int|
            2 <= i < c.resources.len() ==> is_article_resource(
                #[trigger] c.resources[i],
                (i - 2) as nat,
                articles[i - 2].0@,
                articles[i - 2].1@,
            ),
{
    let mut resources: Vec<Resource> = Vec::new();
    resources.push(
        Resource {
            filename: String::from_str("title.xhtml"),
            title: String::from_str("Title Page"),
            xhtml: title_page_exec(title),
            kind: ResourceKind::Cover,
        },
    );
    resources.push(
        Resource {
            filename: String::from_str("toc.xhtml"),
            title: String::from_str("Table of Contents"),
            xhtml: toc_page_exec(&articles),
            kind: ResourceKind::Toc,
        },
    );
    let mut i: usize = 0;
    while i < articles.len()
        invariant
            i <= articles.len(),
            articles.len() + 2 <= usize::MAX,
            resources.len() == i + 2,
            resources[0].filename@ == "title.xhtml"@,
            resources[0].title@ == "Title Page"@,
            resources[0].xhtml@ == title_page(title@),
            resources[0].kind == ResourceKind::Cover,
            resources[1].filename@ == "toc.xhtml"@,
            resources[1].title@ == "Table of Contents"@,
            resources[1].xhtml@ == toc_page(toc_range(titles(articles@), 0, articles.len() as int)),
            resources[1].kind == ResourceKind::Toc,
            forall|k: int|
                2 <= k < resources.len() ==> is_article_resource(
                    #[trigger] resources[k],
                    (k - 2) as nat,
                    articles[k - 2].0@,
                    articles[k - 2].1@,
                ),
        decreases articles.len() - i,
    {
        let safe_body = sanitize_html_for_epub(articles[i].1.as_str());
        let page = article_page_exec(articles[i].0.as_str(), safe_body.as_str());
        let r = Resource {
            filename: article_filename_exec(i),
            title: articles[i].0.clone(),
            xhtml: page,
            kind: ResourceKind::Text,
        };
        resources.push(r);
        i = i + 1;
    }
    assert(pages_of(resources@) =~= spine_pages(titles(articles@)));
    Container {
        title: String::from_str(title),
        author: String::from_str("London Review of Books"),
        stylesheet: String::from_str(css_sheet),
        cover_uri: cover_source(image_uri),
        resources,
    }
}

proof fn lemma_toc_split(titles: Seq<Seq<char>>, lo: int, mid: int, hi: int)
    requires
        lo <= mid <= hi,
    ensures
        toc_range(titles, lo, hi) == toc_range(titles, lo, mid) + toc_range(titles, mid, hi),
    decreases hi - mid,
{
    if hi > mid {
        lemma_toc_split(titles, lo, mid, hi - 1);
        assert(toc_range(titles, lo, mid) + toc_range(titles, mid, hi - 1) + toc_item((hi - 1) as nat, titles[hi - 1])
            =~= toc_range(titles, lo, mid) + (toc_range(titles, mid, hi - 1) + toc_item((hi - 1) as nat, titles[hi - 1])));
    } else {
        assert(toc_range(titles, lo, mid) + Seq::<char>::empty() =~= toc_range(titles, lo, mid));
    }
}

/// Reading order: the spine holds, after the title page and the contents, the page
/// `article{i}.xhtml` under the title of article `i` at position `2 + i`; the table
/// of contents holds, in order, the entries of the articles before position `i`,
/// then the entry that links `article{i}.xhtml` under the title of article `i`,
/// then those after it; and no two positions share a file name, so
/// `article{i}.xhtml` names the article at position `i` alone.
pub proof fn lemma_reading_order(titles: Seq<Seq<char>>, i: int, j: int)
    requires
        0 <= i < titles.len(),
        0 <= j < titles.len(),
    ensures
        spine_pages(titles).len() == titles.len() + 2,
        spine_pages(titles)[i + 2] == (article_filename(i as nat), titles[i]),
        toc_range(titles, 0, titles.len() as int) == toc_range(titles, 0, i) + toc_item(i as nat, titles[i])
            + toc_range(titles, i + 1, titles.len() as int),
        article_filename(i as nat) == article_filename(j as nat) ==> i == j,
{
    lemma_toc_split(titles, 0, i, titles.len() as int);
    lemma_toc_split(titles, i, i + 1, titles.len() as int);
    assert(toc_range(titles, i, i) == Seq::<char>::empty());
    assert(toc_range(titles, i, i + 1) =~= toc_item(i as nat, titles[i]));
    if article_filename(i as nat) == article_filename(j as nat) {
        let fi = article_filename(i as nat);
        let fj = article_filename(j as nat);
        let p = "article"@;
        let q = ".xhtml"@;
        assert(fi.subrange(p.len() as int, fi.len() - q.len()) =~= decimal(i as nat));
        assert(fj.subrange(p.len() as int, fj.len() - q.len()) =~= decimal(j as nat));
        lemma_decimal_injective(i as nat, j as nat);
    }
}

} // verus!
