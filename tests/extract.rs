use magaziner::extract::{
    extract_article_content, extract_article_links, ArticlePage, CoverImage, ExtractError, IssuePage,
};

fn s(x: &str) -> String {
    x.to_string()
}

fn cover_with_src(src: &str) -> Option<CoverImage> {
    Some(CoverImage { lazy_src: None, srcset: None, src: Some(s(src)) })
}

fn issue(title: Option<&str>, hrefs: Vec<Option<&str>>, styles: Vec<&str>, cover: Option<CoverImage>) -> IssuePage {
    IssuePage {
        toc_hrefs: hrefs.into_iter().map(|h| h.map(s)).collect(),
        title: title.map(s),
        styles: styles.into_iter().map(s).collect(),
        cover,
    }
}

#[test]
fn test_extract_article_links_from_issue() {
    let page = issue(
        Some("London Review of Books · Vol.99 No. 3 · 15 March 2025"),
        vec![Some("/the-paper/v99/n03/a"), None, Some("/the-paper/v99/n03/b")],
        vec!["body { margin: 0 }", "  "],
        cover_with_src("https://example.org/cover.jpg"),
    );
    let (links, title, css_sheet, image_uri) = extract_article_links(&page).unwrap();

    assert!(!links.is_empty(), "Expected at least one article link");
    assert!(title == "Vol.99 No. 3 · 15 March 2025");
    assert!(
        links.iter().all(|l| l.starts_with("https://www.lrb.co.uk")),
        "All links should be absolute LRB URLs"
    );
    assert!(!css_sheet.is_empty());
    assert!(!image_uri.is_empty());
}

#[test]
fn test_extract_article_content_from_article() {
    let page = ArticlePage {
        title: Some(s("Anne Enright · The Long Road")),
        reviewed_items: vec![s("<p>The Long Road by Someone. Publisher, 320 pp.</p>")],
        article_copy: vec![s("<p>It began, as these things often do, with a letter that nobody expected to arrive.</p>")],
    };
    let (title, body) = extract_article_content(&page);

    assert!(!title.is_empty(), "Article should have a title");
    assert!(body.len() > 100, "Article body should be long enough");
}

#[test]
fn title_is_cut_at_volume_marker() {
    let page = issue(Some("LRB · Vol.43 No. 1"), vec![], vec![], cover_with_src(""));
    let (_, title, _, _) = extract_article_links(&page).unwrap();
    assert_eq!(title, "Vol.43 No. 1");
}

#[test]
fn title_without_marker_is_kept() {
    let page = issue(Some("  Archive  "), vec![], vec![], cover_with_src(""));
    let (_, title, _, _) = extract_article_links(&page).unwrap();
    assert_eq!(title, "  Archive  ");
}

#[test]
fn missing_title_is_untitled() {
    let page = issue(None, vec![], vec![], cover_with_src(""));
    let (_, title, _, _) = extract_article_links(&page).unwrap();
    assert_eq!(title, "Untitled");
    let article = ArticlePage { title: None, reviewed_items: vec![], article_copy: vec![] };
    assert_eq!(extract_article_content(&article), (s("Untitled"), s("")));
}

#[test]
fn links_are_prefixed_with_site_origin() {
    let page = issue(None, vec![Some("/the-paper/v43/n01/article-x")], vec![], cover_with_src(""));
    let (links, _, _, _) = extract_article_links(&page).unwrap();
    assert_eq!(links, vec![s("https://www.lrb.co.uk/the-paper/v43/n01/article-x")]);
}

#[test]
fn links_keep_order_and_duplicates() {
    let page = issue(None, vec![Some("/b"), None, Some("/a"), Some("/b")], vec![], cover_with_src(""));
    let (links, _, _, _) = extract_article_links(&page).unwrap();
    assert_eq!(
        links,
        vec![s("https://www.lrb.co.uk/b"), s("https://www.lrb.co.uk/a"), s("https://www.lrb.co.uk/b")]
    );
}

#[test]
fn styles_are_trimmed_filtered_and_joined() {
    let page = issue(None, vec![], vec!["  a{}  ", "\n\t", "b{}\n"], cover_with_src(""));
    let (_, _, css, _) = extract_article_links(&page).unwrap();
    assert_eq!(css, "a{}\nb{}");
}

#[test]
fn lazy_source_wins_over_source_set() {
    let cover = CoverImage { lazy_src: Some(s("lazy.jpg")), srcset: Some(s("img1.jpg 300w")), src: Some(s("plain.jpg")) };
    let page = issue(None, vec![], vec![], Some(cover));
    let (_, _, _, uri) = extract_article_links(&page).unwrap();
    assert_eq!(uri, "lazy.jpg");
}

#[test]
fn source_set_gives_first_token() {
    let cover = CoverImage { lazy_src: None, srcset: Some(s("img1.jpg 300w, img2.jpg 600w")), src: None };
    let page = issue(None, vec![], vec![], Some(cover));
    let (_, _, _, uri) = extract_article_links(&page).unwrap();
    assert_eq!(uri, "img1.jpg");
}

#[test]
fn plain_source_is_last_resort() {
    let page = issue(None, vec![], vec![], cover_with_src("plain.jpg"));
    let (_, _, _, uri) = extract_article_links(&page).unwrap();
    assert_eq!(uri, "plain.jpg");
    let bare = CoverImage { lazy_src: None, srcset: None, src: None };
    let (_, _, _, none) = extract_article_links(&issue(None, vec![], vec![], Some(bare))).unwrap();
    assert_eq!(none, "");
}

#[test]
fn missing_cover_element_is_refused() {
    let page = issue(Some("Vol.1 No. 1"), vec![Some("/a")], vec![], None);
    assert_eq!(extract_article_links(&page).err(), Some(ExtractError::MissingCover));
}

#[test]
fn article_body_puts_reviewed_items_first() {
    let page = ArticlePage {
        title: Some(s("T")),
        reviewed_items: vec![s("r1"), s("r2")],
        article_copy: vec![s("c1"), s("c2")],
    };
    let (title, body) = extract_article_content(&page);
    assert_eq!(title, "T");
    assert_eq!(body, "r1\n\nr2c1\n\nc2");
}

#[test]
fn title_from_marker_is_trimmed_as_a_whole() {
    let page = issue(Some("LRB · Vol.  43 No. 1  "), vec![], vec![], cover_with_src(""));
    let (_, title, _, _) = extract_article_links(&page).unwrap();
    assert_eq!(title, "Vol.  43 No. 1");
}
