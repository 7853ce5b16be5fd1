//! Absolute URLs and the resolution of references against them.
//!
//! A URL is held as its text. Reading and joining are the work of the `url`
//! crate; what they yield is named here, and the callers' contracts are
//! stated over those names.

use crate::text::text_of;
use vstd::prelude::*;

verus! {

/// The text of the URL that `url::Url::parse` reads from `text`; `None` where
/// it rejects `text`.
pub uninterp spec fn parsed_url(text: Seq<char>) -> Option<Seq<char>>;

/// The text of the URL that `url::Url::join` makes of `reference` on the URL
/// read from `base`; `None` where `base` is no URL or the join is rejected.
pub uninterp spec fn joined_url(base: Seq<char>, reference: Seq<char>) -> Option<Seq<char>>;

/// Calls `url::Url::parse` on `text` and hands back the URL as text, or
/// `None` where the crate returns an error.
#[verifier::external_body]
pub(crate) fn parse_url(text: &str) -> (r: Option<String>)
    ensures
        text_of(r) == parsed_url(text@),
{
    match url::Url::parse(text) {
        Ok(u) => Some(String::from(u)),
        Err(_) => None,
    }
}

/// Reads `base` with `url::Url::parse`, calls `url::Url::join` on it with
/// `reference`, and hands back the outcome as text, or `None` where either
/// call returns an error.
#[verifier::external_body]
pub(crate) fn join_url(base: &str, reference: &str) -> (r: Option<String>)
    ensures
        text_of(r) == joined_url(base@, reference@),
{
    match url::Url::parse(base) {
        Ok(b) => match b.join(reference) {
            Ok(u) => Some(String::from(u)),
            Err(_) => None,
        },
        Err(_) => None,
    }
}

} // verus!
