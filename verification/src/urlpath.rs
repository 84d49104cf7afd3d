//! The URL capability: resolving a relative path against a configured
//! base URL when building the locator of a collect job.

use vstd::prelude::*;

verus! {

/// The URL obtained by resolving `path` against `base`, or nothing when
/// `base` does not parse or the join fails: a function of the two
/// strings alone, too long to state, so it only carries a name.
pub uninterp spec fn url_joined(base: Seq<char>, path: Seq<char>) -> Option<Seq<char>>;

/// Relies on url::Url::parse and url::Url::join: parsing `base` and
/// resolving `path` against it depend on the two strings alone.
#[verifier::external_body]
pub(crate) fn join_url(base: &str, path: &str) -> (r: Option<String>)
    ensures
        (r is Some) == (url_joined(base@, path@) is Some),
        r matches Some(s) ==> url_joined(base@, path@) == Some(s@),
{
    match url::Url::parse(base) {
        Ok(u) => match u.join(path) {
            Ok(j) => Some(j.as_str().to_owned()),
            Err(_) => None,
        },
        Err(_) => None,
    }
}

} // verus!
