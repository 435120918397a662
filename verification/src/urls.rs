//! The one outside call the library makes: joining an image path onto the
//! configured base URL.

use vstd::prelude::*;

verus! {

#[verifier::external_type_specification]
#[verifier::external_body]
pub struct ExUrl(url::Url);

/// Relies on `url::Url::join`: parses `path` with `base` as the base URL,
/// following the full relative-resolution rules of the URL standard. Nothing
/// is assumed of the joined value here: callers pin down the exact path they
/// hand in (see `Image::path`) and treat the URL itself as opaque.
#[verifier::external_body]
pub(crate) fn url_join(base: &url::Url, path: &str) -> Option<url::Url> {
    match base.join(path) {
        Ok(joined) => Some(joined),
        Err(_) => None,
    }
}

} // verus!
