use magaziner::assemble::build_epub;
use magaziner::extract::{extract_article_content, extract_article_links, ExtractError};
use magaziner::scan::{scan_article_page, scan_issue_page};

const ISSUE: &str = r#"<!DOCTYPE html>
<html><head><title>LRB · Vol.1 No. 1</title>
<style> body { color: black; } </style><style>   </style></head>
<body>
<div class="article-issue-cover-image"><img src="https://www.lrb.co.uk/cover.jpg"></div>
<a class="toc-item" href="/the-paper/v01/n01/first">First</a>
<a class="toc-item">No link</a>
<a class="toc-item" href="/the-paper/v01/n01/second">Second</a>
<a href="/elsewhere">Other</a>
</body></html>"#;

#[test]
fn issue_page_is_read_by_its_selectors() {
    let page = scan_issue_page(ISSUE);
    assert_eq!(
        page.toc_hrefs,
        vec![Some("/the-paper/v01/n01/first".to_string()), None, Some("/the-paper/v01/n01/second".to_string())]
    );
    assert_eq!(page.title, Some("LRB · Vol.1 No. 1".to_string()));
    assert_eq!(page.styles.len(), 2);
    let cover = page.cover.unwrap();
    assert_eq!(cover.src, Some("https://www.lrb.co.uk/cover.jpg".to_string()));
    assert_eq!(cover.lazy_src, None);
}

#[test]
fn issue_html_to_container() {
    let (links, title, css, uri) = extract_article_links(&scan_issue_page(ISSUE)).unwrap();
    assert_eq!(
        links,
        vec![
            "https://www.lrb.co.uk/the-paper/v01/n01/first".to_string(),
            "https://www.lrb.co.uk/the-paper/v01/n01/second".to_string()
        ]
    );
    assert_eq!(title, "Vol.1 No. 1");
    assert_eq!(css, "body { color: black; }");
    let articles = vec![("First".to_string(), "<p>1</p>".to_string()), ("Second".to_string(), "<p>2</p>".to_string())];
    let c = build_epub(&title, articles, &css, &uri);
    assert_eq!(c.title, "Vol.1 No. 1");
    assert!(c.cover_uri.is_some());
    assert_eq!(c.resources.len(), 4);
    assert_eq!(c.resources[2].filename, "article0.xhtml");
    assert_eq!(c.resources[3].filename, "article1.xhtml");
}

#[test]
fn cover_attributes_fall_back_in_order() {
    let html = r#"<html><body><div class="article-issue-cover-image"><img data-appsrc="lazy.jpg" srcset="img1.jpg 300w, img2.jpg 600w" src="plain.jpg"></div></body></html>"#;
    let (_, _, _, uri) = extract_article_links(&scan_issue_page(html)).unwrap();
    assert_eq!(uri, "lazy.jpg");
    let html = r#"<html><body><div class="article-issue-cover-image"><img srcset="img1.jpg 300w, img2.jpg 600w"></div></body></html>"#;
    let (_, _, _, uri) = extract_article_links(&scan_issue_page(html)).unwrap();
    assert_eq!(uri, "img1.jpg");
}

#[test]
fn page_without_title_or_cover() {
    let html = "<html><body><p>nothing</p></body></html>";
    let page = scan_issue_page(html);
    assert_eq!(page.title, None);
    assert!(page.cover.is_none());
    assert_eq!(extract_article_links(&page).err(), Some(ExtractError::MissingCover));
}

#[test]
fn article_html_is_read_by_its_selectors() {
    let html = r#"<html><head><title>A title</title></head><body>
<div class="reviewed-items"><p>Book</p></div>
<div class="article-copy"><p>One</p></div><div class="article-copy"><p>Two</p></div>
</body></html>"#;
    let (title, body) = extract_article_content(&scan_article_page(html));
    assert_eq!(title, "A title");
    assert_eq!(body, "<p>Book</p><p>One</p>\n\n<p>Two</p>");
}
