use magaziner::validation::validate_lrb_url;

#[test]
fn test_valid_lrb_url_should_pass() {
    let url = "https://www.lrb.co.uk/the-paper/v47/n06";
    let result = validate_lrb_url(url);
    assert!(result.is_ok(), "Expected valid URL to pass");
    assert_eq!(result.unwrap(), url);
}

#[test]
fn test_valid_lrb_url_should_pass_old_url() {
    let url = "https://www.lrb.co.uk/the-paper/v01/n01";
    let result = validate_lrb_url(url);
    assert!(result.is_ok(), "Expected valid URL to pass");
    assert_eq!(result.unwrap(), url);
}

#[test]
fn test_invalid_url_should_fail() {
    let url = "https://www.google.com";
    let result = validate_lrb_url(url);
    assert!(result.is_err(), "Expected non-LRB URL to fail");
    println!("Error: {}", result.unwrap_err());
}

#[test]
fn test_invalid_lrb_style_url_should_fail() {
    let url = "https://www.lrb.co.uk/the-paper/v47/n06/article-title";
    let result = validate_lrb_url(url);
    assert!(result.is_err(), "Expected extra path segment to fail");
    println!("Error: {}", result.unwrap_err());
}

#[test]
fn test_invalid_protocol_should_fail() {
    let url = "http://www.lrb.co.uk/the-paper/v47/n06";
    let result = validate_lrb_url(url);
    assert!(result.is_err(), "Expected http:// to fail (must be https://)");
}

#[test]
fn test_invalid_numbers_should_fail() {
    let url = "https://www.lrb.co.uk/the-paper/vab/n01";
    let result = validate_lrb_url(url);
    assert!(result.is_err(), "Expected malformed version to fail");
}

#[test]
fn trailing_slash_is_accepted() {
    let url = "https://www.lrb.co.uk/the-paper/v43/n01/";
    assert_eq!(validate_lrb_url(url), Ok(url.to_string()));
}

#[test]
fn unparsable_text_gives_format_error() {
    let result = validate_lrb_url("not a url");
    assert_eq!(result, Err("Invalid URL format: not a url".to_string()));
}

#[test]
fn wrong_shape_gives_shape_error() {
    let result = validate_lrb_url("https://www.google.com");
    assert_eq!(
        result,
        Err("Invalid LRB issue URL: https://www.google.com\nExpected format like: https://www.lrb.co.uk/the-paper/v43/n01".to_string())
    );
}

#[test]
fn three_digit_volume_fails() {
    assert!(validate_lrb_url("https://www.lrb.co.uk/the-paper/v431/n01").is_err());
}

#[test]
fn address_is_judged_as_written() {
    let url = "HTTPS://WWW.LRB.CO.UK/the-paper/v43/n01";
    let expected = format!(
        "Invalid LRB issue URL: {}\nExpected format like: https://www.lrb.co.uk/the-paper/v43/n01",
        url
    );
    assert_eq!(validate_lrb_url(url), Err(expected));
}
