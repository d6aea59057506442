use magaziner::assemble::build_epub;
use magaziner::container::epub_bytes;

fn contains(haystack: &[u8], needle: &[u8]) -> bool {
    haystack.windows(needle.len()).any(|w| w == needle)
}

#[test]
fn epub_archive_holds_every_page() {
    let articles = vec![
        ("First".to_string(), "<p>one</p>".to_string()),
        ("Second".to_string(), "<p>two</p>".to_string()),
    ];
    let c = build_epub("Vol.1 No. 1", articles, "p { margin: 0 }", "");
    let bytes = epub_bytes(&c, None).ok().unwrap();
    assert!(bytes.starts_with(b"PK"));
    for name in ["OEBPS/title.xhtml", "OEBPS/toc.xhtml", "OEBPS/article0.xhtml", "OEBPS/article1.xhtml", "OEBPS/content.opf"] {
        assert!(contains(&bytes, name.as_bytes()), "missing {}", name);
    }
    assert!(!contains(&bytes, b"OEBPS/article2.xhtml"));
}

#[test]
fn epub_archive_holds_cover_when_given() {
    let c = build_epub("T", vec![], "", "https://example.org/c.jpg");
    let with_cover = epub_bytes(&c, Some(vec![0xff, 0xd8, 0xff])).ok().unwrap();
    assert!(contains(&with_cover, b"OEBPS/cover.jpg"));
    let without = epub_bytes(&c, None).ok().unwrap();
    assert!(!contains(&without, b"OEBPS/cover.jpg"));
}

#[test]
fn epub_archive_holds_page_text_and_stylesheet() {
    let c = build_epub("T", vec![("Only".to_string(), "<p>unique-marker</p>".to_string())], "p.css-marker { }", "");
    let bytes = epub_bytes(&c, None).ok().unwrap();
    assert!(contains(&bytes, b"OEBPS/stylesheet.css"));
}
