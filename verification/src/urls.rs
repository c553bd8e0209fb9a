//! URLs, as far as the library looks into them: parsing and joining are left
//! to the `url` crate.

use vstd::prelude::*;

verus! {

/// The two parts of a parsed URL that the library reads.
pub struct UrlParts {
    pub scheme: String,
    pub path: String,
}

/// Why a route could not be joined to a host.
#[derive(Clone, Copy, Debug, PartialEq, Eq, Structural)]
pub enum UrlFailure {
    /// The host is not a URL.
    InvalidHost,
    /// The route cannot be resolved against the host.
    InvalidRoute,
}

/// What `url::Url::parse` makes of a string: `None` where it refuses the
/// string, else the scheme and the path of the URL it builds.
pub uninterp spec fn parsed_url(input: Seq<char>) -> Option<(Seq<char>, Seq<char>)>;

/// What `url::Url::join` makes of a route, on the URL that `url::Url::parse`
/// builds from a host: the text of the joined URL, or which of the two calls
/// refused.
pub uninterp spec fn joined_url(host: Seq<char>, route: Seq<char>) -> Result<Seq<char>, UrlFailure>;

/// Calls `url::Url::parse` and hands back the scheme (`Url::scheme`) and the
/// path (`Url::path`) of the result. Nothing is claimed of them beyond their
/// being a function of the input.
#[verifier::external_body]
pub(crate) fn parse_url(input: &str) -> (r: Option<UrlParts>)
    ensures
        match r {
            Some(parts) => parsed_url(input@) == Some((parts.scheme@, parts.path@)),
            None => parsed_url(input@) is None,
        },
{
    match url::Url::parse(input) {
        Ok(u) => Some(UrlParts { scheme: u.scheme().to_string(), path: u.path().to_string() }),
        Err(_) => None,
    }
}

/// Calls `url::Url::parse` on the host and `url::Url::join` with the route on
/// its result, and hands back the joined URL as text.
#[verifier::external_body]
pub(crate) fn join_url(host: &str, route: &str) -> (r: Result<String, UrlFailure>)
    ensures
        match r {
            Ok(joined) => joined_url(host@, route@) == Ok::<Seq<char>, UrlFailure>(joined@),
            Err(e) => joined_url(host@, route@) == Err::<Seq<char>, UrlFailure>(e),
        },
{
    match url::Url::parse(host) {
        Err(_) => Err(UrlFailure::InvalidHost),
        Ok(base) => match base.join(route) {
            Err(_) => Err(UrlFailure::InvalidRoute),
            Ok(u) => Ok(u.to_string()),
        },
    }
}

} // verus!
