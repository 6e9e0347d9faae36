//! Lists of tags, as JSON text.
use vstd::prelude::*;
use vstd::string::*;

use crate::text::texts;

verus! {

/// The JSON text of a list of strings.
pub uninterp spec fn json_of_texts(list: Seq<Seq<char>>) -> Seq<char>;

/// The list of strings that a JSON text holds, where it holds one.
pub uninterp spec fn texts_of_json(json: Seq<char>) -> Option<Seq<Seq<char>>>;

/// `serde_json::to_string` of a list of strings, which never fails. What it
/// writes, `serde_json::from_str` reads back.
#[verifier::external_body]
pub(crate) fn write_tags(tags: &Vec<String>) -> (r: String)
    ensures
        r@ == json_of_texts(texts(tags@)),
        texts_of_json(r@) == Some(texts(tags@)),
{
    serde_json::to_string(tags).unwrap()
}

/// `serde_json::from_str` to a list of strings.
#[verifier::external_body]
pub(crate) fn read_tags(json: &str) -> (r: Option<Vec<String>>)
    ensures
        match r {
            Some(tags) => texts_of_json(json@) == Some(texts(tags@)),
            None => texts_of_json(json@) is None,
        },
{
    serde_json::from_str::<Vec<String>>(json).ok()
}

}
