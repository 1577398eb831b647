//! The version of the operating system that this code belongs to, and the
//! marketplace that it knows by default.

use vstd::prelude::*;
use crate::text::join;

verus! {

/// A version number of four parts.
#[derive(Clone, Copy, Debug, PartialEq, Eq, Structural)]
pub struct Semver {
    pub major: u64,
    pub minor: u64,
    pub patch: u64,
    pub revision: u64,
}

impl Semver {
    pub fn new(major: u64, minor: u64, patch: u64, revision: u64) -> (v: Semver)
        ensures
            v == (Semver { major, minor, patch, revision }),
    {
        Semver { major, minor, patch, revision }
    }

    /// Whether this version comes before `other`: the parts are compared
    /// from the major one down.
    pub open spec fn precedes_spec(self, other: Semver) -> bool {
        self.major < other.major || (self.major == other.major && (self.minor < other.minor || (
        self.minor == other.minor && (self.patch < other.patch || (self.patch == other.patch
            && self.revision < other.revision)))))
    }

    /// Whether this version comes before `other`.
    pub fn precedes(&self, other: &Semver) -> (b: bool)
        ensures
            b == self.precedes_spec(*other),
    {
        if self.major != other.major {
            self.major < other.major
        } else if self.minor != other.minor {
            self.minor < other.minor
        } else if self.patch != other.patch {
            self.patch < other.patch
        } else {
            self.revision < other.revision
        }
    }
}

/// Of two different versions exactly one comes before the other, and the
/// order is transitive.
pub proof fn lemma_semver_order(a: Semver, b: Semver, c: Semver)
    ensures
        !a.precedes_spec(a),
        a != b ==> (a.precedes_spec(b) != b.precedes_spec(a)),
        a.precedes_spec(b) && b.precedes_spec(c) ==> a.precedes_spec(c),
{
}

/// The version 0.3.3 of the operating system.
#[derive(Clone, Copy, Debug)]
pub struct Version;

impl Version {
    pub fn new() -> Version {
        Version
    }

    /// The version's number.
    pub fn semver(&self) -> (v: Semver)
        ensures
            v == (Semver { major: 0, minor: 3, patch: 3, revision: 0 }),
    {
        Semver { major: 0, minor: 3, patch: 3, revision: 0 }
    }

    /// Whether data of version `other` can be read by this version: every
    /// version from 0.3.0 up to this one.
    pub fn compat(&self, other: &Semver) -> (ok: bool)
        ensures
            ok == (!other.precedes_spec(Semver { major: 0, minor: 3, patch: 0, revision: 0 })
                && !(Semver { major: 0, minor: 3, patch: 3, revision: 0 }).precedes_spec(*other)),
    {
        let lowest = Semver { major: 0, minor: 3, patch: 0, revision: 0 };
        let this = self.semver();
        !other.precedes(&lowest) && !this.precedes(other)
    }
}

/// The marketplaces that the system knows without being told.
#[derive(Debug, Clone, Copy)]
pub enum MarketPlaceUrls {
    Default,
}

impl MarketPlaceUrls {
    /// The marketplace's URL, with a slash at its end.
    pub fn url(&self) -> (url: String)
        ensures
            url@ == "https://registry.start9.com"@ + "/"@,
    {
        let url_string = match self {
            MarketPlaceUrls::Default => "https://registry.start9.com",
        };
        join(url_string, "/")
    }
}

/// Whether `regex` finds a match of the pattern in the text: `None` for a
/// pattern that it does not compile.
pub uninterp spec fn regex_search(pattern: Seq<char>, text: Seq<char>) -> Option<bool>;

/// `regex::Regex::new` and then `Regex::is_match` on the compiled pattern:
/// whether the text holds a match, and `None` where the pattern is refused.
#[verifier::external_body]
fn regex_is_match(pattern: &str, text: &str) -> (r: Option<bool>)
    ensures
        r == regex_search(pattern@, text@),
{
    match regex::Regex::new(pattern) {
        Ok(re) => Some(re.is_match(text)),
        Err(_) => None,
    }
}

/// The URL as it is where it was found to end in a slash, else with a slash
/// behind it.
pub fn with_trailing_slash(url: &str, ends_in_slash: bool) -> (r: String)
    ensures
        r@ == if ends_in_slash {
            url@
        } else {
            url@ + "/"@
        },
{
    if ends_in_slash {
        url.to_owned()
    } else {
        join(url, "/")
    }
}

/// The URL with a slash at its end: as it is where the pattern `.*/$` finds
/// it to end in one, else with a slash behind it.
pub fn ensure_trailing_slashes(url: &str) -> (r: String)
    ensures
        r@ == if regex_search(".*/$"@, url@) == Some(true) {
            url@
        } else {
            url@ + "/"@
        },
{
    let found = regex_is_match(".*/$", url);
    let ends_in_slash: bool = match found {
        Some(b) => b,
        None => false,
    };
    with_trailing_slash(url, ends_in_slash)
}

} // verus!
