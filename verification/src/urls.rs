//! URLs, held as the text of their normal form.

use vstd::prelude::*;

verus! {

/// What `url::Url::parse` makes of a text: the normal form of the URL, or the text of the error.
pub uninterp spec fn parsed_url(text: Seq<char>) -> Result<Seq<char>, Seq<char>>;

/// What `url::Url::join` makes of a base and a reference that is resolved against it: the normal
/// form of the URL, or the text of the error.
pub uninterp spec fn joined_url(base: Seq<char>, reference: Seq<char>) -> Result<Seq<char>, Seq<char>>;

/// The contents of the two texts that a call on URLs can give back.
pub open spec fn result_text(r: Result<String, String>) -> Result<Seq<char>, Seq<char>> {
    match r {
        Ok(text) => Ok(text@),
        Err(cause) => Err(cause@),
    }
}

/// Calls `url::Url::parse`. The URL is given back as its serialization, an error as its message;
/// both are only named.
#[verifier::external_body]
pub(crate) fn parse_url(text: &str) -> (r: Result<String, String>)
    ensures
        result_text(r) == parsed_url(text@),
{
    url::Url::parse(text).map(String::from).map_err(|e| e.to_string())
}

/// Calls `url::Url::join` on the URL that `base` spells. The URL is given back as its
/// serialization, an error of either step as its message; both are only named.
#[verifier::external_body]
pub(crate) fn join_url(base: &str, reference: &str) -> (r: Result<String, String>)
    ensures
        result_text(r) == joined_url(base@, reference@),
{
    url::Url::parse(base)
        .and_then(|u| u.join(reference))
        .map(String::from)
        .map_err(|e| e.to_string())
}

} // verus!
