use vstd::prelude::*;
use crate::text::{chars_of, occurs_at, occurs_at_exec};

verus! {

/// What `url::Url::parse` makes of a text: the serialization of the parsed URL, or
/// nothing where the text is no URL.
pub uninterp spec fn parsed_url(s: Seq<char>) -> Option<Seq<char>>;

/// Relies on url::Url::parse and Url::as_str: a parse that succeeds yields the URL's
/// serialization, and the outcome depends on the text alone.
#[verifier::external_body]
fn parse_url(s: &str) -> (r: Option<String>)
    ensures
        r matches Some(u) ==> parsed_url(s@) == Some(u@),
        r is None ==> parsed_url(s@) is None,
{
    match url::Url::parse(s) {
        Ok(u) => Some(u.as_str().to_string()),
        Err(_) => None,
    }
}

pub open spec fn issue_prefix() -> Seq<char> {
    "https://www.lrb.co.uk/the-paper/v"@
}

pub open spec fn is_digit(c: char) -> bool {
    '0' <= c && c <= '9'
}

/// An issue address: the site's paper path, `v` and two digits, `/n` and two
/// digits, an optional trailing slash, and nothing else.
pub open spec fn is_issue_url(u: Seq<char>) -> bool {
    let n = issue_prefix().len() as int;
    &&& occurs_at(u, 0, issue_prefix())
    &&& (u.len() == n + 6 || (u.len() == n + 7 && u[n + 6] == '/'))
    &&& is_digit(u[n])
    &&& is_digit(u[n + 1])
    &&& u[n + 2] == '/'
    &&& u[n + 3] == 'n'
    &&& is_digit(u[n + 4])
    &&& is_digit(u[n + 5])
}

pub fn is_digit_exec(c: char) -> (b: bool)
    ensures
        b == is_digit(c),
{
    '0' <= c && c <= '9'
}

/// Whether `u` has the shape of an issue address.
pub fn is_issue_url_exec(u: &str) -> (b: bool)
    ensures
        b == is_issue_url(u@),
{
    let v = chars_of(u);
    let prefix = chars_of("https://www.lrb.co.uk/the-paper/v");
    let n = prefix.len();
    if !occurs_at_exec(&v, 0, &prefix) {
        return false;
    }
    let rest = v.len() - n;
    if !(rest == 6 || (rest == 7 && v[n + 6] == '/')) {
        return false;
    }
    is_digit_exec(v[n]) && is_digit_exec(v[n + 1]) && v[n + 2] == '/' && v[n + 3] == 'n' && is_digit_exec(
        v[n + 4],
    ) && is_digit_exec(v[n + 5])
}

pub open spec fn format_error(s: Seq<char>) -> Seq<char> {
    "Invalid URL format: "@ + s
}

pub open spec fn shape_error(s: Seq<char>) -> Seq<char> {
    "Invalid LRB issue URL: "@ + s + "\nExpected format like: https://www.lrb.co.uk/the-paper/v43/n01"@
}

/// The verdict on a text: the text itself where it parses as a URL and has the
/// issue shape, else the message for the way it failed.
pub open spec fn validated(s: Seq<char>) -> Result<Seq<char>, Seq<char>> {
    match parsed_url(s) {
        None => Err(format_error(s)),
        Some(_) => if is_issue_url(s) {
            Ok(s)
        } else {
            Err(shape_error(s))
        },
    }
}

pub open spec fn outcome_view(r: Result<String, String>) -> Result<Seq<char>, Seq<char>> {
    match r {
        Ok(t) => Ok(t@),
        Err(e) => Err(e@),
    }
}

/// Accepts the text of an issue address, as given, when it parses as a URL and has
/// the issue shape itself; otherwise says why not.
pub fn validate_lrb_url(s: &str) -> (r: Result<String, String>)
    ensures
        outcome_view(r) == validated(s@),
{
    match parse_url(s) {
        None => Err(String::from_str("Invalid URL format: ").concat(s)),
        Some(_) => {
            if is_issue_url_exec(s) {
                Ok(String::from_str(s))
            } else {
                Err(
                    String::from_str("Invalid LRB issue URL: ").concat(s).concat(
                        "\nExpected format like: https://www.lrb.co.uk/the-paper/v43/n01",
                    ),
                )
            }
        },
    }
}

} // verus!
