use magaziner::sanitize::sanitize_html_for_epub;

#[test]
fn frames_and_images_are_stripped() {
    let input = "before <iframe src=\"x\">body</iframe> middle <img src=\"y\"> after";
    let out = sanitize_html_for_epub(input);
    assert!(!out.contains("<iframe src=\"x\">body</iframe>"));
    assert!(!out.contains("<img src=\"y\">"));
    assert_eq!(out, "before  middle  after");
}

#[test]
fn frames_are_stripped_case_insensitively_across_lines() {
    let out = sanitize_html_for_epub("a<IFRAME src=x>\nline\n</IFrame>b<iframe>c</iframe>d");
    assert_eq!(out, "abd");
}

#[test]
fn frame_removal_is_shortest_match() {
    let out = sanitize_html_for_epub("<iframe>1</iframe>keep<iframe>2</iframe>");
    assert_eq!(out, "keep");
}

#[test]
fn unclosed_frame_stays() {
    let out = sanitize_html_for_epub("x<iframe src=y");
    assert_eq!(out, "x<iframe src=y");
}

#[test]
fn image_tags_are_stripped_case_insensitively() {
    let out = sanitize_html_for_epub("a<IMG\nsrc=\"p.jpg\" />b<img>c");
    assert_eq!(out, "abc");
}

#[test]
fn named_entities_become_numeric() {
    let out = sanitize_html_for_epub("&nbsp;&mdash;&ndash;&lsquo;&rsquo;&ldquo;&rdquo;&hellip;");
    assert_eq!(out, "&#160;&#8212;&#8211;&#8216;&#8217;&#8220;&#8221;&#8230;");
}

#[test]
fn void_elements_are_self_closed() {
    let out = sanitize_html_for_epub("a<br>b<hr>c<br/>d<hr/>e<br />f");
    assert_eq!(out, "a<br />b<hr />c<br />d<hr />e<br />f");
}

#[test]
fn sanitizing_twice_changes_nothing_more() {
    let input = "<p>One&nbsp;two<br>three</p><iframe>x</iframe><img src=\"a\"><hr/>&hellip;";
    let once = sanitize_html_for_epub(input);
    let twice = sanitize_html_for_epub(&once);
    assert_eq!(once, twice);
    assert_eq!(once, "<p>One&#160;two<br />three</p><hr />&#8230;");
}

#[test]
fn empty_fragment_stays_empty() {
    assert_eq!(sanitize_html_for_epub(""), "");
}
