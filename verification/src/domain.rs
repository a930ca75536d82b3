//! The domain matcher: decides whether a URL is internal or external with
//! respect to a configured base domain.
//!
//! URL parsing and domain extraction are the `url` crate's work; their
//! results are named by uninterpreted functions, and the classification rules
//! over those names are verified.  A URL without a scheme is resolved against
//! the base URL, so scheme-less strings always classify as internal: a bare
//! domain-looking string is indistinguishable from a local relative path, and
//! external targets are expected to carry an explicit scheme.
use vstd::prelude::*;

use crate::text::is_suffix;
use crate::text::str_eq;
use crate::text::str_ends_with;
use vstd::string::StrSliceExecFns;
use vstd::string::StringExecFns;

verus! {

/// The scheme of `s` read as an absolute URL, or nothing when `s` does not
/// parse on its own.
pub uninterp spec fn parsed_scheme(s: Seq<char>) -> Option<Seq<char>>;

/// The domain of `s` read as an absolute URL, or nothing when `s` does not
/// parse on its own or has no domain host.
pub uninterp spec fn parsed_domain(s: Seq<char>) -> Option<Seq<char>>;

/// The domain of `s` read relative to the URL that `base` parses to, or
/// nothing when the resolution fails or yields no domain host.
pub uninterp spec fn base_resolved_domain(base: Seq<char>, s: Seq<char>) -> Option<Seq<char>>;

/// Relies on `url::Url::parse` and `url::Url::scheme`: the scheme of an
/// absolute URL, a function of the input string alone.
#[verifier::external_body]
fn url_scheme(s: &str) -> (r: Option<String>)
    ensures
        (r is Some) == (parsed_scheme(s@) is Some),
        r is Some ==> (r->0)@ == parsed_scheme(s@)->0,
{
    match url::Url::parse(s) {
        Ok(u) => Some(u.scheme().to_owned()),
        Err(_) => None,
    }
}

/// Relies on `url::Url::parse` and `url::Url::domain`: the domain of an
/// absolute URL, a function of the input string alone.
#[verifier::external_body]
fn url_domain(s: &str) -> (r: Option<String>)
    ensures
        (r is Some) == (parsed_domain(s@) is Some),
        r is Some ==> (r->0)@ == parsed_domain(s@)->0,
{
    match url::Url::parse(s) {
        Ok(u) => match u.domain() {
            Some(d) => Some(d.to_owned()),
            None => None,
        },
        Err(_) => None,
    }
}

/// Relies on `url::Url::parse`, `url::Url::options`,
/// `url::ParseOptions::base_url`, `url::ParseOptions::parse` and
/// `url::Url::domain`: the domain of `s` resolved against the URL that
/// `base` parses to, a function of the two strings alone.
#[verifier::external_body]
fn url_domain_with_base(base: &str, s: &str) -> (r: Option<String>)
    ensures
        (r is Some) == (base_resolved_domain(base@, s@) is Some),
        r is Some ==> (r->0)@ == base_resolved_domain(base@, s@)->0,
{
    match url::Url::parse(base) {
        Ok(b) => match url::Url::options().base_url(Some(&b)).parse(s) {
            Ok(u) => match u.domain() {
                Some(d) => Some(d.to_owned()),
                None => None,
            },
            Err(_) => None,
        },
        Err(_) => None,
    }
}

/// Whether `s` parses on its own as an absolute URL with a non-empty scheme.
pub open spec fn scheme_present(s: Seq<char>) -> bool {
    match parsed_scheme(s) {
        Some(sch) => sch.len() > 0,
        None => false,
    }
}

/// Whether the domain `d` is the configured domain or a subdomain of it.
pub open spec fn domain_matches(d: Seq<char>, internal: Seq<char>) -> bool {
    d == internal || is_suffix(d, seq!['.'] + internal)
}

/// The name prefixed with `https://`, the retry form of construction.
pub open spec fn https_prefixed(name: Seq<char>) -> Seq<char> {
    seq!['h', 't', 't', 'p', 's', ':', '/', '/'] + name
}

/// What constructing a matcher from `name` yields: the stored base string and
/// its domain, or nothing when neither the name nor its `https://` form
/// parses to a URL with a domain.
pub open spec fn spec_internal_domain(name: Seq<char>) -> Option<(Seq<char>, Seq<char>)> {
    if parsed_domain(name) is Some {
        Some((name, parsed_domain(name)->0))
    } else if parsed_domain(https_prefixed(name)) is Some {
        Some((https_prefixed(name), parsed_domain(https_prefixed(name))->0))
    } else {
        None
    }
}

/// How a URL classifies against a matcher built from `base` (whose domain is
/// `internal`): with a scheme it stands on its own domain; without one it is
/// resolved against the base, so purely relative URLs inherit the base's
/// domain and classify as internal.
pub open spec fn spec_matches(base: Seq<char>, internal: Seq<char>, url: Seq<char>) -> bool {
    if scheme_present(url) {
        match parsed_domain(url) {
            Some(d) => domain_matches(d, internal),
            None => false,
        }
    } else {
        match base_resolved_domain(base, url) {
            Some(d) => domain_matches(d, internal),
            None => false,
        }
    }
}

/// The configured internal domain: the base URL string it was built from and
/// the domain component of that URL.
pub struct InternalDomain {
    base: String,
    domain: String,
}

impl InternalDomain {
    /// The stored base URL string.
    pub closed spec fn base_str(&self) -> Seq<char> {
        self.base@
    }

    /// The domain component of the base URL.
    pub closed spec fn domain_str(&self) -> Seq<char> {
        self.domain@
    }

    /// Builds a matcher from a raw domain string: first read as it stands,
    /// then with `https://` prefixed; fails when neither form has a domain.
    pub fn new(domain_name: String) -> (r: Option<Self>)
        ensures
            (match r {
                Some(d) => spec_internal_domain(domain_name@) == Some(
                    (d.base_str(), d.domain_str()),
                ),
                None => spec_internal_domain(domain_name@) is None,
            }),
    {
        match url_domain(domain_name.as_str()) {
            Some(d) => Some(InternalDomain { base: domain_name, domain: d }),
            None => {
                let mut with_scheme: String = "https://".to_owned();
                with_scheme.append(domain_name.as_str());
                proof {
                    reveal_strlit("https://");
                    assert("https://"@ =~= seq!['h', 't', 't', 'p', 's', ':', '/', '/']);
                    assert(with_scheme@ =~= https_prefixed(domain_name@));
                }
                match url_domain(with_scheme.as_str()) {
                    Some(d) => Some(InternalDomain { base: with_scheme, domain: d }),
                    None => None,
                }
            },
        }
    }

    /// Classifies `url` as internal (`true`) or external (`false`).
    pub fn matches(&self, url: &str) -> (r: bool)
        ensures
            r == spec_matches(self.base_str(), self.domain_str(), url@),
    {
        if Self::check_scheme(url) {
            self.check_internal_domain(url, false)
        } else {
            self.check_internal_domain(url, true)
        }
    }

    /// Whether `url` carries an explicit scheme of its own.
    fn check_scheme(url: &str) -> (r: bool)
        ensures
            r == scheme_present(url@),
    {
        match url_scheme(url) {
            Some(sch) => sch.as_str().unicode_len() > 0,
            None => false,
        }
    }

    /// Extracts the domain of `url` (resolved against the base when asked to)
    /// and compares it with the configured domain, subdomains included.
    fn check_internal_domain(&self, url: &str, is_base_url_required: bool) -> (r: bool)
        ensures
            r == (match (if is_base_url_required {
                base_resolved_domain(self.base_str(), url@)
            } else {
                parsed_domain(url@)
            }) {
                Some(d) => domain_matches(d, self.domain_str()),
                None => false,
            }),
    {
        let dom = if is_base_url_required {
            url_domain_with_base(self.base.as_str(), url)
        } else {
            url_domain(url)
        };
        match dom {
            Some(d) => {
                if str_eq(d.as_str(), self.domain.as_str()) {
                    return true;
                }
                let mut dotted: String = ".".to_owned();
                dotted.append(self.domain.as_str());
                proof {
                    reveal_strlit(".");
                    assert("."@ =~= seq!['.']);
                    assert(dotted@ =~= seq!['.'] + self.domain_str());
                }
                str_ends_with(d.as_str(), dotted.as_str())
            },
            None => false,
        }
    }
}

/// Domain matching is monotonic under subdomain extension: when a domain `d`
/// matches the configured domain, so does `sub.d` for any label `sub`.
pub proof fn lemma_domain_matches_subdomain(sub: Seq<char>, d: Seq<char>, internal: Seq<char>)
    requires
        domain_matches(d, internal),
    ensures
        domain_matches(sub + seq!['.'] + d, internal),
{
    let e = sub + seq!['.'] + d;
    let suffix = seq!['.'] + internal;
    if d == internal {
        assert(e.subrange(e.len() - suffix.len(), e.len() as int) =~= suffix);
    } else {
        assert(is_suffix(d, suffix));
        assert(e.subrange(e.len() - suffix.len(), e.len() as int) =~= d.subrange(
            d.len() - suffix.len(),
            d.len() as int,
        ));
    }
}

} // verus!
