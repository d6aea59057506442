use magaziner::assemble::{build_epub, cover_source, ResourceKind};
use magaziner::extract::{extract_article_content, extract_article_links, ArticlePage, CoverImage, IssuePage};

fn s(x: &str) -> String {
    x.to_string()
}

#[test]
fn issue_with_two_articles_assembles_in_order() {
    let page = IssuePage {
        toc_hrefs: vec![Some(s("/the-paper/v01/n01/first")), Some(s("/the-paper/v01/n01/second"))],
        title: Some(s("London Review of Books · Vol.1 No. 1")),
        styles: vec![s("p { margin: 0 }")],
        cover: Some(CoverImage { lazy_src: None, srcset: None, src: Some(s("https://www.lrb.co.uk/cover.jpg")) }),
    };
    let (links, title, css, uri) = extract_article_links(&page).unwrap();
    assert_eq!(links.len(), 2);
    assert_eq!(title, "Vol.1 No. 1");

    let articles: Vec<(String, String)> = ["First", "Second"]
        .iter()
        .map(|t| {
            extract_article_content(&ArticlePage {
                title: Some(s(t)),
                reviewed_items: vec![],
                article_copy: vec![format!("<p>{}</p>", t)],
            })
        })
        .collect();
    let c = build_epub(&title, articles, &css, &uri);

    assert_eq!(c.title, "Vol.1 No. 1");
    assert_eq!(c.author, "London Review of Books");
    assert_eq!(c.stylesheet, "p { margin: 0 }");
    assert_eq!(c.cover_uri, Some(s("https://www.lrb.co.uk/cover.jpg")));
    assert_eq!(c.resources.len(), 4);
    assert_eq!(c.resources[0].filename, "title.xhtml");
    assert_eq!(c.resources[0].kind, ResourceKind::Cover);
    assert!(c.resources[0].xhtml.contains("<h1>Vol.1 No. 1</h1>"));
    assert_eq!(c.resources[1].filename, "toc.xhtml");
    assert_eq!(c.resources[1].kind, ResourceKind::Toc);
    let toc = &c.resources[1].xhtml;
    let first = toc.find(r#"<li><a href="article0.xhtml">First</a></li>"#).unwrap();
    let second = toc.find(r#"<li><a href="article1.xhtml">Second</a></li>"#).unwrap();
    assert!(first < second);
    assert_eq!(c.resources[2].filename, "article0.xhtml");
    assert_eq!(c.resources[2].title, "First");
    assert_eq!(c.resources[3].filename, "article1.xhtml");
    assert_eq!(c.resources[3].title, "Second");
    assert_eq!(c.resources[3].kind, ResourceKind::Text);
    assert!(c.resources[3].xhtml.contains("<h1 class=\"article-title\">Second</h1>\n    <p>Second</p>\n  </body>"));
}

#[test]
fn article_bodies_are_sanitized() {
    let c = build_epub("T", vec![(s("A"), s("x<br><img src=\"p\">y"))], "", "");
    assert!(c.resources[2].xhtml.contains("\n    x<br />y\n"));
}

#[test]
fn no_articles_still_gives_title_and_contents() {
    let c = build_epub("T", vec![], "", "");
    assert_eq!(c.resources.len(), 2);
    assert!(c.resources[1].xhtml.contains("<ol>\n      \n    </ol>"));
    assert_eq!(c.cover_uri, None);
}

#[test]
fn eleventh_article_is_article10() {
    let articles: Vec<(String, String)> = (0..11).map(|i| (format!("A{}", i), s(""))).collect();
    let c = build_epub("T", articles, "", "");
    assert_eq!(c.resources[12].filename, "article10.xhtml");
    assert_eq!(c.resources[12].title, "A10");
}

#[test]
fn cover_needs_http_address() {
    assert_eq!(cover_source("https://x/c.jpg"), Some(s("https://x/c.jpg")));
    assert_eq!(cover_source("http://x/c.jpg"), Some(s("http://x/c.jpg")));
    assert_eq!(cover_source("/c.jpg"), None);
    assert_eq!(cover_source("httpfoo"), None);
    assert_eq!(cover_source(""), None);
}

#[test]
fn title_page_layout() {
    let c = build_epub("Vol.2 No. 4", vec![], "", "");
    assert_eq!(
        c.resources[0].xhtml,
        "<?xml version=\"1.0\" encoding=\"utf-8\"?>\n<!DOCTYPE html>\n<html xmlns=\"http://www.w3.org/1999/xhtml\">\n  <head><title>Vol.2 No. 4</title></head>\n  <body style=\"text-align: center; margin-top: 40%;\">\n    <h1>Vol.2 No. 4</h1>\n    <h3>London Review of Books</h3>\n  </body>\n</html>"
    );
}

#[test]
fn file_name_comes_from_title() {
    assert_eq!(magaziner::assemble::epub_file_name("Vol.43 No. 1"), "Vol.43 No. 1.epub");
}
