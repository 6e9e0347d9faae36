//! URLs, as the text that `url::Url` serialises to.
use vstd::prelude::*;
use vstd::string::*;

use crate::text::optional_text;

verus! {

/// The serialised URL that `Url::parse` makes of a text, where it is one.
pub uninterp spec fn url_parsed(text: Seq<char>) -> Option<Seq<char>>;

/// The serialised URL that `Url::from_file_path` makes of a path.
pub uninterp spec fn url_of_file(path: Seq<char>) -> Option<Seq<char>>;

/// `url::Url::parse`, and the text of the URL it gives.
#[verifier::external_body]
pub(crate) fn parse_url(text: &str) -> (r: Option<String>)
    ensures
        optional_text(r) == url_parsed(text@),
{
    url::Url::parse(text).ok().map(|u| u.as_str().to_owned())
}

/// `url::Url::from_file_path`, and the text of the URL it gives. It gives one for
/// an absolute path and for no other.
#[verifier::external_body]
pub(crate) fn file_url(path: &str) -> (r: Option<String>)
    ensures
        optional_text(r) == url_of_file(path@),
        r is Some == (path@.len() > 0 && path@[0] == '/'),
{
    url::Url::from_file_path(path).ok().map(|u| u.as_str().to_owned())
}

/// Reads a URL out of an optional text; a text that is none counts as absent.
pub open spec fn url_if_any(text: Option<Seq<char>>) -> Option<Seq<char>> {
    match text {
        Some(text) => url_parsed(text),
        None => None,
    }
}

/// Reads a URL out of an optional text; a text that is none counts as absent.
pub fn parse_optional_url(text: &Option<String>) -> (r: Option<String>)
    ensures
        optional_text(r) == url_if_any(optional_text(*text)),
{
    match text {
        Some(text) => parse_url(text.as_str()),
        None => None,
    }
}

}
