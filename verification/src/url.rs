//! URLs with a replaced path.

use vstd::prelude::*;
use vstd::string::StringSliceAdditionalSpecFns;
use vstd::utf8::encode_utf8;
use crate::model::view_opt;

verus! {

/// The text of the URL `base` after its path has been replaced by `path`,
/// as the `url` crate parses and writes it; `None` where `base` is no URL.
pub uninterp spec fn url_with_path(base: Seq<char>, path: Seq<char>) -> Option<Seq<char>>;

/// The longest text, in bytes, that is handed to the URL parser.
pub const MAX_URL_PART: usize = 0x100_0000;

/// `Url::parse`, `Url::set_path` and `Url::as_str` of the `url` crate, as
/// `reqwest` hands it on: parses `base`, replaces its path and gives the
/// text of the result. A `base` that does not parse gives `None`. The two
/// texts are kept short, since the crate counts the length of a URL in 32
/// bits.
#[verifier::external_body]
fn parse_and_set_path(base: &str, path: &str) -> (url: Option<String>)
    requires
        base.spec_bytes().len() <= MAX_URL_PART,
        path.spec_bytes().len() <= MAX_URL_PART,
    ensures
        view_opt(url) == url_with_path(base@, path@),
{
    match reqwest::Url::parse(base) {
        Ok(mut url) => {
            url.set_path(path);
            Some(url.as_str().to_owned())
        },
        Err(_) => None,
    }
}

/// Whether both texts are short enough for the URL parser.
pub open spec fn fits_url(base: Seq<char>, path: Seq<char>) -> bool {
    encode_utf8(base).len() <= MAX_URL_PART && encode_utf8(path).len() <= MAX_URL_PART
}

/// The URL `base` with `path` in the place of its path. There is none
/// where `base` is no URL, or where one of the two texts is longer than
/// [`MAX_URL_PART`] bytes.
pub open spec fn located(base: Seq<char>, path: Seq<char>) -> Option<Seq<char>> {
    if fits_url(base, path) {
        url_with_path(base, path)
    } else {
        None
    }
}

/// The URL `base` with `path` in the place of its path. There is none
/// where `base` is no URL, or where one of the two texts is longer than
/// [`MAX_URL_PART`] bytes.
pub fn locate(base: &str, path: &str) -> (url: Option<String>)
    ensures
        view_opt(url) == located(base@, path@),
{
    if base.as_bytes().len() > MAX_URL_PART || path.as_bytes().len() > MAX_URL_PART {
        None
    } else {
        parse_and_set_path(base, path)
    }
}

} // verus!
